//! The framebuffer: the worker's mirror of what the panel shows.

use crate::canvas::{
    bit_at, canvas_buffer, canvas_bytes, canvas_turns, cell_in_frame, cell_point, cell_visible,
    draw_black_text, fill_white, in_rect, new_canvas, paint_white, text_ink, turn_landscape,
    Canvas, FRAME_BYTES, MAX_COORDINATE, MAX_TEXT_LEN, ROW_BYTES,
};
use vstd::prelude::*;

verus! {

/// The byte whose bit `k`, counted from the most significant, is set
/// where `bits(k)` holds.
pub open spec fn byte_of(bits: spec_fn(int) -> bool) -> u8 {
    ((if bits(0) { 128int } else { 0 }) + (if bits(1) { 64int } else { 0 }) + (if bits(2) {
        32int
    } else {
        0
    }) + (if bits(3) { 16int } else { 0 }) + (if bits(4) { 8int } else { 0 }) + (if bits(5) {
        4int
    } else {
        0
    }) + (if bits(6) { 2int } else { 0 }) + (if bits(7) { 1int } else { 0 })) as u8
}

/// The frame whose bit `k` of byte `i` is set where `cells(i, k)` holds.
pub open spec fn frame_of(cells: spec_fn(int, int) -> bool) -> Seq<u8> {
    Seq::new(FRAME_BYTES as nat, |i: int| byte_of(|k: int| cells(i, k)))
}

/// A frame of the right size in which the bits that show nothing are
/// clear.
pub open spec fn well_formed(frame: Seq<u8>) -> bool {
    &&& frame.len() == FRAME_BYTES
    &&& forall|i: int, k: int|
        cell_in_frame(i, k) && !cell_visible(i, k) ==> !#[trigger] bit_at(frame[i], k)
}

/// Two frames that show the same picture: they agree on every pixel of
/// the panel.
pub open spec fn same_picture(a: Seq<u8>, b: Seq<u8>) -> bool {
    &&& a.len() == FRAME_BYTES
    &&& b.len() == FRAME_BYTES
    &&& forall|i: int, k: int|
        cell_visible(i, k) ==> #[trigger] bit_at(a[i], k) == #[trigger] bit_at(b[i], k)
}

/// The frame in which every pixel is white.
pub open spec fn blank_frame() -> Seq<u8> {
    frame_of(|i: int, k: int| cell_visible(i, k))
}

/// `frame` with the pixels of a rectangle made white.
pub open spec fn rect_whitened(frame: Seq<u8>, x: int, y: int, w: int, h: int) -> Seq<u8> {
    frame_of(
        |i: int, k: int|
            (cell_visible(i, k) && in_rect(cell_point(i, k), x, y, w, h)) || bit_at(frame[i], k),
    )
}

/// `frame` with the pixels at the points of `ink` made black.
pub open spec fn inked(frame: Seq<u8>, ink: Set<(int, int)>) -> Seq<u8> {
    frame_of(
        |i: int, k: int|
            bit_at(frame[i], k) && !(cell_visible(i, k) && ink.contains(cell_point(i, k))),
    )
}

/// A byte made from bits has those bits.
pub proof fn lemma_byte_of_bits(bits: spec_fn(int) -> bool, k: int)
    requires
        0 <= k < 8,
    ensures
        bit_at(byte_of(bits), k) == bits(k),
{
}

/// Two bytes with the same bits are the same byte.
pub proof fn lemma_bits_fix_byte(a: u8, b: u8)
    requires
        forall|k: int| 0 <= k < 8 ==> bit_at(a, k) == bit_at(b, k),
    ensures
        a == b,
{
    assert(bit_at(a, 0) == bit_at(b, 0));
    assert(bit_at(a, 1) == bit_at(b, 1));
    assert(bit_at(a, 2) == bit_at(b, 2));
    assert(bit_at(a, 3) == bit_at(b, 3));
    assert(bit_at(a, 4) == bit_at(b, 4));
    assert(bit_at(a, 5) == bit_at(b, 5));
    assert(bit_at(a, 6) == bit_at(b, 6));
    assert(bit_at(a, 7) == bit_at(b, 7));
    assert(((a / 128) % 2 == 1) == ((b / 128) % 2 == 1) && ((a / 64) % 2 == 1) == ((b / 64) % 2
        == 1) && ((a / 32) % 2 == 1) == ((b / 32) % 2 == 1) && ((a / 16) % 2 == 1) == ((b / 16) % 2
        == 1) && ((a / 8) % 2 == 1) == ((b / 8) % 2 == 1) && ((a / 4) % 2 == 1) == ((b / 4) % 2
        == 1) && ((a / 2) % 2 == 1) == ((b / 2) % 2 == 1) && ((a / 1) % 2 == 1) == ((b / 1) % 2
        == 1) ==> a == b) by (bit_vector);
}

/// A frame made from cells has those cells.
pub proof fn lemma_frame_of_cells(cells: spec_fn(int, int) -> bool)
    ensures
        frame_of(cells).len() == FRAME_BYTES,
        forall|i: int, k: int|
            cell_in_frame(i, k) ==> #[trigger] bit_at(frame_of(cells)[i], k) == cells(i, k),
{
    assert forall|i: int, k: int| cell_in_frame(i, k) implies #[trigger] bit_at(
        frame_of(cells)[i],
        k,
    ) == cells(i, k) by {
        lemma_byte_of_bits(|j: int| cells(i, j), k);
    }
}

/// Two frames with the same bits are the same frame.
pub proof fn lemma_cells_fix_frame(a: Seq<u8>, b: Seq<u8>)
    requires
        a.len() == FRAME_BYTES,
        b.len() == FRAME_BYTES,
        forall|i: int, k: int| cell_in_frame(i, k) ==> bit_at(a[i], k) == bit_at(b[i], k),
    ensures
        a == b,
{
    assert forall|i: int| 0 <= i < FRAME_BYTES implies a[i] == b[i] by {
        assert forall|k: int| 0 <= k < 8 implies bit_at(a[i], k) == bit_at(b[i], k) by {
            assert(cell_in_frame(i, k));
        }
        lemma_bits_fix_byte(a[i], b[i]);
    }
    assert(a =~= b);
}

/// The width of the landscape picture, in pixels.
pub const PICTURE_WIDTH: u32 = 250;

/// The height of the landscape picture, in pixels.
pub const PICTURE_HEIGHT: u32 = 122;

/// Point `(x, y)` lies in the landscape picture.
pub open spec fn in_picture(x: int, y: int) -> bool {
    0 <= x < PICTURE_WIDTH && 0 <= y < PICTURE_HEIGHT
}

/// The byte of the frame that holds the pixel at `(x, y)`.
pub open spec fn pixel_byte(x: int, y: int) -> int {
    ROW_BYTES * x + (PICTURE_HEIGHT - 1 - y) / 8
}

/// The bit of that byte that holds the pixel at `(x, y)`.
pub open spec fn pixel_bit(x: int, y: int) -> int {
    (PICTURE_HEIGHT - 1 - y) % 8
}

/// Whether the pixel at `(x, y)` of the landscape picture is white.
pub open spec fn pixel_white(frame: Seq<u8>, x: int, y: int) -> bool {
    bit_at(frame[pixel_byte(x, y)], pixel_bit(x, y))
}

/// Every pixel of the picture has its bit in the frame, and that bit
/// stands for no other point.
pub proof fn lemma_pixel_cell(x: int, y: int)
    requires
        in_picture(x, y),
    ensures
        cell_visible(pixel_byte(x, y), pixel_bit(x, y)),
        cell_point(pixel_byte(x, y), pixel_bit(x, y)) == (x, y),
{
}

/// A blank frame is well formed and white all over.
pub proof fn lemma_blank_frame()
    ensures
        well_formed(blank_frame()),
        forall|x: int, y: int| in_picture(x, y) ==> #[trigger] pixel_white(blank_frame(), x, y),
{
    lemma_frame_of_cells(|i: int, k: int| cell_visible(i, k));
    assert forall|x: int, y: int| in_picture(x, y) implies #[trigger] pixel_white(
        blank_frame(),
        x,
        y,
    ) by {
        lemma_pixel_cell(x, y);
    }
}

/// Whitening a rectangle keeps a frame well formed, makes the pixels of
/// the rectangle white and leaves every other pixel as it was.
pub proof fn lemma_rect_whitened(frame: Seq<u8>, x: int, y: int, w: int, h: int)
    requires
        well_formed(frame),
    ensures
        well_formed(rect_whitened(frame, x, y, w, h)),
        forall|px: int, py: int|
            in_picture(px, py) ==> #[trigger] pixel_white(rect_whitened(frame, x, y, w, h), px, py)
                == (in_rect((px, py), x, y, w, h) || pixel_white(frame, px, py)),
{
    lemma_frame_of_cells(
        |i: int, k: int|
            (cell_visible(i, k) && in_rect(cell_point(i, k), x, y, w, h)) || bit_at(frame[i], k),
    );
    assert forall|px: int, py: int| in_picture(px, py) implies #[trigger] pixel_white(
        rect_whitened(frame, x, y, w, h),
        px,
        py,
    ) == (in_rect((px, py), x, y, w, h) || pixel_white(frame, px, py)) by {
        lemma_pixel_cell(px, py);
    }
}

/// Inking keeps a frame well formed, makes the pixels of the ink black
/// and leaves every other pixel as it was.
pub proof fn lemma_inked(frame: Seq<u8>, ink: Set<(int, int)>)
    requires
        well_formed(frame),
    ensures
        well_formed(inked(frame, ink)),
        forall|px: int, py: int|
            in_picture(px, py) ==> #[trigger] pixel_white(inked(frame, ink), px, py) == (
            !ink.contains((px, py)) && pixel_white(frame, px, py)),
{
    lemma_frame_of_cells(
        |i: int, k: int|
            bit_at(frame[i], k) && !(cell_visible(i, k) && ink.contains(cell_point(i, k))),
    );
    assert forall|px: int, py: int| in_picture(px, py) implies #[trigger] pixel_white(
        inked(frame, ink),
        px,
        py,
    ) == (!ink.contains((px, py)) && pixel_white(frame, px, py)) by {
        lemma_pixel_cell(px, py);
    }
}

/// The worker's mirror of the panel, drawn in landscape.
pub struct Framebuffer {
    canvas: Canvas,
}

impl View for Framebuffer {
    type V = Seq<u8>;

    /// The bytes of the frame, as they are sent to the panel.
    closed spec fn view(&self) -> Seq<u8> {
        canvas_bytes(self.canvas)
    }
}

impl Framebuffer {
    /// The frame is drawn in landscape and is well formed.
    pub closed spec fn wf(&self) -> bool {
        canvas_turns(self.canvas) == 1 && well_formed(self@)
    }

    /// What `wf` says of the bytes.
    pub proof fn lemma_wf(&self)
        requires
            self.wf(),
        ensures
            well_formed(self@),
    {
    }

    /// A blank frame.
    pub fn new() -> (r: Self)
        ensures
            r.wf(),
            r@ == blank_frame(),
    {
        let mut canvas = new_canvas();
        proof {
            assert forall|i: int, k: int| cell_in_frame(i, k) implies !#[trigger] bit_at(
                canvas_bytes(canvas)[i],
                k,
            ) by {
                assert(canvas_bytes(canvas)[i] == 0);
            }
        }
        turn_landscape(&mut canvas);
        paint_white(&mut canvas);
        proof {
            lemma_frame_of_cells(|i: int, k: int| cell_visible(i, k));
            lemma_cells_fix_frame(canvas_bytes(canvas), blank_frame());
        }
        Framebuffer { canvas }
    }

    /// Makes every pixel white.
    pub fn clear(&mut self)
        requires
            old(self).wf(),
        ensures
            final(self).wf(),
            final(self)@ == blank_frame(),
    {
        paint_white(&mut self.canvas);
        proof {
            lemma_frame_of_cells(|i: int, k: int| cell_visible(i, k));
            lemma_cells_fix_frame(self@, blank_frame());
        }
    }

    /// Makes the pixels of a rectangle white.
    pub fn clear_rect(&mut self, x: i32, y: i32, width: u32, height: u32)
        requires
            old(self).wf(),
            -MAX_COORDINATE <= x <= MAX_COORDINATE,
            -MAX_COORDINATE <= y <= MAX_COORDINATE,
            width <= MAX_COORDINATE,
            height <= MAX_COORDINATE,
        ensures
            final(self).wf(),
            final(self)@ == rect_whitened(
                old(self)@,
                x as int,
                y as int,
                width as int,
                height as int,
            ),
    {
        let ghost before = self@;
        fill_white(&mut self.canvas, x, y, width, height);
        proof {
            let goal = rect_whitened(before, x as int, y as int, width as int, height as int);
            lemma_frame_of_cells(
                |i: int, k: int|
                    (cell_visible(i, k) && in_rect(
                        cell_point(i, k),
                        x as int,
                        y as int,
                        width as int,
                        height as int,
                    )) || bit_at(before[i], k),
            );
            lemma_cells_fix_frame(self@, goal);
        }
    }

    /// Draws `text` in black with the first line's baseline starting at
    /// `(x, y)`.
    pub fn draw_text(&mut self, text: &str, x: i32, y: i32)
        requires
            old(self).wf(),
            text@.len() <= MAX_TEXT_LEN,
            -MAX_COORDINATE <= x <= MAX_COORDINATE,
            -MAX_COORDINATE <= y <= MAX_COORDINATE,
        ensures
            final(self).wf(),
            final(self)@ == inked(old(self)@, text_ink(text@, x as int, y as int)),
    {
        let ghost before = self@;
        draw_black_text(&mut self.canvas, text, x, y);
        proof {
            let ink = text_ink(text@, x as int, y as int);
            lemma_frame_of_cells(
                |i: int, k: int|
                    bit_at(before[i], k) && !(cell_visible(i, k) && ink.contains(
                        cell_point(i, k),
                    )),
            );
            lemma_cells_fix_frame(self@, inked(before, ink));
        }
    }

    /// Whether the pixel at `(x, y)` of the picture is white.
    pub fn is_white(&self, x: u32, y: u32) -> (r: bool)
        requires
            self.wf(),
            in_picture(x as int, y as int),
        ensures
            r == pixel_white(self@, x as int, y as int),
    {
        let column: u32 = PICTURE_HEIGHT - 1 - y;
        let i: usize = ROW_BYTES * (x as usize) + (column / 8) as usize;
        let k: u32 = column % 8;
        let weight: u8 = if k == 0 {
            128
        } else if k == 1 {
            64
        } else if k == 2 {
            32
        } else if k == 3 {
            16
        } else if k == 4 {
            8
        } else if k == 5 {
            4
        } else if k == 6 {
            2
        } else {
            1
        };
        let bytes = canvas_buffer(&self.canvas);
        let byte: u8 = bytes[i];
        (byte / weight) % 2 == 1
    }

    /// The bytes of the frame, as they are sent to the panel.
    pub fn bytes(&self) -> (r: &[u8])
        ensures
            r@ == self@,
    {
        canvas_buffer(&self.canvas)
    }
}

} // verus!
