//! The bitmap of the panel driver crate, and what its drawing calls do.
//!
//! The bitmap is one bit per pixel, eight pixels to a byte, most
//! significant bit first, in rows of the panel as it is wired: `ROW_BYTES`
//! bytes per row, `PANEL_HEIGHT` rows. A set bit is a white pixel. A row
//! is `PANEL_WIDTH` pixels wide, so the last bits of its last byte show
//! nothing.
//!
//! Drawing happens in landscape: the bitmap is turned by a quarter, and a
//! point `(x, y)` of the picture, `x` to the right and `y` down, lies in
//! row `x` of the panel at column `PANEL_WIDTH - 1 - y`.

use embedded_graphics::draw_target::DrawTarget;
use embedded_graphics::geometry::{Point, Size};
use embedded_graphics::mono_font::ascii::FONT_6X10;
use embedded_graphics::mono_font::MonoTextStyleBuilder;
use embedded_graphics::primitives::Rectangle;
use embedded_graphics::text::Text;
use embedded_graphics::Drawable;
use epd_waveshare::color::Color;
use epd_waveshare::epd2in13_v2::Display2in13;
use epd_waveshare::graphics::DisplayRotation;
use vstd::prelude::*;

verus! {

/// The width of the panel as it is wired, in pixels.
pub const PANEL_WIDTH: u32 = 122;

/// The height of the panel as it is wired, in pixels.
pub const PANEL_HEIGHT: u32 = 250;

/// The bytes of one row of the bitmap.
pub const ROW_BYTES: usize = 16;

/// The bytes of the whole bitmap.
pub const FRAME_BYTES: usize = 4000;

/// The longest text, in characters, that is drawn in one call. The pen
/// moves on with every character and every line; with this limit and
/// `MAX_COORDINATE` its position stays far inside the 32 bits in which
/// the drawing calls compute.
pub const MAX_TEXT_LEN: usize = 0x0100_0000;

/// The largest coordinate and the largest extent that a drawing call
/// takes.
pub const MAX_COORDINATE: i32 = 0x1_0000;

/// The value of bit `k` of a byte, counted from the most significant.
pub open spec fn bit_weight(k: int) -> int {
    if k == 0 {
        128
    } else if k == 1 {
        64
    } else if k == 2 {
        32
    } else if k == 3 {
        16
    } else if k == 4 {
        8
    } else if k == 5 {
        4
    } else if k == 6 {
        2
    } else {
        1
    }
}

/// Whether bit `k` of `byte`, counted from the most significant, is set.
pub open spec fn bit_at(byte: u8, k: int) -> bool {
    (byte as int / bit_weight(k)) % 2 == 1
}

/// Bit `k` of byte `i` belongs to the bitmap.
pub open spec fn cell_in_frame(i: int, k: int) -> bool {
    0 <= i < FRAME_BYTES && 0 <= k < 8
}

/// Bit `k` of byte `i` stands for a pixel of the panel.
pub open spec fn cell_visible(i: int, k: int) -> bool {
    cell_in_frame(i, k) && 8 * (i % (ROW_BYTES as int)) + k < PANEL_WIDTH
}

/// The point of the landscape picture that bit `k` of byte `i` stands
/// for.
pub open spec fn cell_point(i: int, k: int) -> (int, int) {
    (i / (ROW_BYTES as int), PANEL_WIDTH - 1 - (8 * (i % (ROW_BYTES as int)) + k))
}

/// Point `p` lies in the rectangle with top left corner `(x, y)`, `w`
/// wide and `h` high.
pub open spec fn in_rect(p: (int, int), x: int, y: int, w: int, h: int) -> bool {
    x <= p.0 < x + w && y <= p.1 < y + h
}

/// `epd_waveshare::epd2in13_v2::Display2in13`, the bitmap of the panel
/// driver crate: the buffer that drawing calls write and that is sent to
/// the panel.
#[verifier::external_body]
pub struct Canvas {
    inner: Display2in13,
}

/// The bytes of the bitmap's buffer.
pub uninterp spec fn canvas_bytes(c: Canvas) -> Seq<u8>;

/// The rotation under which drawing calls address the bitmap, in quarter
/// turns clockwise.
pub uninterp spec fn canvas_turns(c: Canvas) -> int;

/// The points that `Text::draw` paints for a text at `(x, y)`: the
/// pixels of its glyphs in the font `FONT_6X10`, the first line's
/// baseline starting at `(x, y)`.
pub uninterp spec fn text_ink(text: Seq<char>, x: int, y: int) -> Set<(int, int)>;

/// `Display::default` of `epd_waveshare`: a bitmap of zero bytes, not
/// rotated.
#[verifier::external_body]
pub(crate) fn new_canvas() -> (r: Canvas)
    ensures
        canvas_turns(r) == 0,
        canvas_bytes(r).len() == FRAME_BYTES,
        forall|i: int| 0 <= i < FRAME_BYTES ==> #[trigger] canvas_bytes(r)[i] == 0,
{
    Canvas { inner: Display2in13::default() }
}

/// `Display::set_rotation` of `epd_waveshare` with a quarter turn: later
/// drawing calls work in landscape. The buffer stays as it is.
#[verifier::external_body]
pub(crate) fn turn_landscape(c: &mut Canvas)
    ensures
        canvas_turns(*final(c)) == 1,
        canvas_bytes(*final(c)) == canvas_bytes(*old(c)),
{
    c.inner.set_rotation(DisplayRotation::Rotate90);
}

/// `DrawTarget::clear` of `embedded_graphics` on the bitmap, with white:
/// every pixel of the panel becomes white. The bits that show nothing
/// stay as they are.
#[verifier::external_body]
pub(crate) fn paint_white(c: &mut Canvas)
    ensures
        canvas_turns(*final(c)) == canvas_turns(*old(c)),
        canvas_bytes(*final(c)).len() == canvas_bytes(*old(c)).len(),
        forall|i: int, k: int|
            cell_in_frame(i, k) ==> #[trigger] bit_at(canvas_bytes(*final(c))[i], k) == (
            cell_visible(i, k) || bit_at(canvas_bytes(*old(c))[i], k)),
{
    c.inner.clear(Color::White).ok();
}

/// `DrawTarget::fill_solid` of `embedded_graphics` on the bitmap, with
/// white, in landscape: the pixels of the panel that lie in the rectangle
/// become white. Every other bit stays as it is.
#[verifier::external_body]
pub(crate) fn fill_white(c: &mut Canvas, x: i32, y: i32, width: u32, height: u32)
    requires
        canvas_turns(*old(c)) == 1,
        -MAX_COORDINATE <= x <= MAX_COORDINATE,
        -MAX_COORDINATE <= y <= MAX_COORDINATE,
        width <= MAX_COORDINATE,
        height <= MAX_COORDINATE,
    ensures
        canvas_turns(*final(c)) == 1,
        canvas_bytes(*final(c)).len() == canvas_bytes(*old(c)).len(),
        forall|i: int, k: int|
            cell_in_frame(i, k) ==> #[trigger] bit_at(canvas_bytes(*final(c))[i], k) == (
            (cell_visible(i, k) && in_rect(
                cell_point(i, k),
                x as int,
                y as int,
                width as int,
                height as int,
            )) || bit_at(canvas_bytes(*old(c))[i], k)),
{
    let area = Rectangle::new(Point::new(x, y), Size::new(width, height));
    c.inner.fill_solid(&area, Color::White).ok();
}

/// `Text::draw` of `embedded_graphics` on the bitmap, in black, without a
/// background, in the font `FONT_6X10`, in landscape: the pixels of the
/// panel that the text paints become black. Every other bit stays as it
/// is. Which pixels a text paints depends on the text and on where it
/// starts, and is named `text_ink`.
#[verifier::external_body]
pub(crate) fn draw_black_text(c: &mut Canvas, text: &str, x: i32, y: i32)
    requires
        canvas_turns(*old(c)) == 1,
        text@.len() <= MAX_TEXT_LEN,
        -MAX_COORDINATE <= x <= MAX_COORDINATE,
        -MAX_COORDINATE <= y <= MAX_COORDINATE,
    ensures
        canvas_turns(*final(c)) == 1,
        canvas_bytes(*final(c)).len() == canvas_bytes(*old(c)).len(),
        forall|i: int, k: int|
            cell_in_frame(i, k) ==> #[trigger] bit_at(canvas_bytes(*final(c))[i], k) == (bit_at(
                canvas_bytes(*old(c))[i],
                k,
            ) && !(cell_visible(i, k) && text_ink(text@, x as int, y as int).contains(
                cell_point(i, k),
            ))),
{
    let style = MonoTextStyleBuilder::new().font(&FONT_6X10).text_color(Color::Black).build();
    Text::new(text, Point::new(x, y), style).draw(&mut c.inner).ok();
}

/// `Display::buffer` of `epd_waveshare`: the bytes of the bitmap.
#[verifier::external_body]
pub(crate) fn canvas_buffer(c: &Canvas) -> (r: &[u8])
    ensures
        r@ == canvas_bytes(*c),
{
    c.inner.buffer()
}

} // verus!
