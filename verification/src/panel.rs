//! A model of the panel, and what the display jobs do to it.
//!
//! The panel has a memory that it shows on request and a base buffer
//! against which a quick refresh computes what to change. The model
//! follows the panel operations one by one. The laws below say that the
//! worker's jobs keep panel and framebuffer in step.

use crate::canvas::{
    bit_at, cell_in_frame, cell_point, cell_visible, in_rect, text_ink, FRAME_BYTES,
};
use crate::epaper::{
    job_ops, line_top, rendered, startup_ops, JobView, PanelOp, RefreshMode, BASELINE_DROP,
    LINE_HEIGHT, LINE_WIDTH, MESSAGE_BASELINE, TEXT_MARGIN,
};
use crate::framebuffer::{
    blank_frame, in_picture, inked, lemma_blank_frame, lemma_cells_fix_frame,
    lemma_frame_of_cells, lemma_inked, lemma_rect_whitened, pixel_white, rect_whitened,
    same_picture, well_formed,
};
use vstd::prelude::*;

verus! {

/// The state of the panel.
pub struct PanelModel {
    /// The refresh mode.
    pub mode: RefreshMode,
    /// The picture in the panel's memory.
    pub ram: Seq<u8>,
    /// The reference picture of the quick refresh.
    pub base: Seq<u8>,
    /// The picture that the panel shows.
    pub shown: Seq<u8>,
}

/// A memory full of white.
pub open spec fn white_ram() -> Seq<u8> {
    Seq::new(FRAME_BYTES as nat, |i: int| 0xffu8)
}

/// The panel after one operation, where `frame` is the framebuffer that
/// the operation sends. In full mode, what is written to the memory
/// becomes the base buffer too.
pub open spec fn panel_step(p: PanelModel, op: PanelOp, frame: Seq<u8>) -> PanelModel {
    match op {
        PanelOp::SetRefresh(mode) => PanelModel { mode, ram: p.ram, base: p.base, shown: p.shown },
        PanelOp::ClearFrame => PanelModel {
            mode: p.mode,
            ram: white_ram(),
            base: if p.mode == RefreshMode::Full {
                white_ram()
            } else {
                p.base
            },
            shown: p.shown,
        },
        PanelOp::UpdateFrame => PanelModel {
            mode: p.mode,
            ram: frame,
            base: if p.mode == RefreshMode::Full {
                frame
            } else {
                p.base
            },
            shown: p.shown,
        },
        PanelOp::DisplayFrame => PanelModel {
            mode: p.mode,
            ram: p.ram,
            base: p.base,
            shown: p.ram,
        },
        PanelOp::UpdateAndDisplayFrame => PanelModel {
            mode: p.mode,
            ram: frame,
            base: frame,
            shown: frame,
        },
        PanelOp::SetBaseBuffer => PanelModel {
            mode: p.mode,
            ram: p.ram,
            base: frame,
            shown: p.shown,
        },
    }
}

/// The panel after the first `n` of `ops`.
pub open spec fn panel_at(p: PanelModel, ops: Seq<PanelOp>, frame: Seq<u8>, n: nat) -> PanelModel
    decreases n,
{
    if n == 0 {
        p
    } else {
        panel_step(panel_at(p, ops, frame, (n - 1) as nat), ops[n - 1], frame)
    }
}

/// The panel after `ops`, in order.
pub open spec fn panel_run(p: PanelModel, ops: Seq<PanelOp>, frame: Seq<u8>) -> PanelModel {
    panel_at(p, ops, frame, ops.len())
}

/// Panel and framebuffer are in step: the panel is in quick mode and its
/// base buffer is the framebuffer, bit for bit.
pub open spec fn in_sync(p: PanelModel, frame: Seq<u8>) -> bool {
    p.mode == RefreshMode::Quick && p.base == frame
}

/// A job leaves a well-formed frame well formed.
pub proof fn lemma_rendered_well_formed(frame: Seq<u8>, job: JobView)
    requires
        well_formed(frame),
    ensures
        well_formed(rendered(frame, job)),
{
    lemma_blank_frame();
    match job {
        JobView::Clear => {},
        JobView::ShowText(text) => {
            lemma_inked(blank_frame(), text_ink(text, TEXT_MARGIN as int, MESSAGE_BASELINE as int));
        },
        JobView::UpdateLine { line_number, text } => {
            let top = line_top(line_number);
            lemma_rect_whitened(frame, 0, top, LINE_WIDTH as int, LINE_HEIGHT as int);
            lemma_inked(
                rect_whitened(frame, 0, top, LINE_WIDTH as int, LINE_HEIGHT as int),
                text_ink(text, TEXT_MARGIN as int, top + BASELINE_DROP),
            );
        },
    }
}

/// The worker's start leaves panel and framebuffer in step, whatever the
/// panel held.
pub proof fn lemma_startup_syncs(p: PanelModel, frame: Seq<u8>)
    ensures
        in_sync(panel_run(p, startup_ops(), frame), frame),
{
    reveal_with_fuel(panel_at, 3);
}

/// Every job ends by sending the framebuffer as the base buffer.
pub proof fn lemma_resync_comes_last(job: JobView)
    ensures
        job_ops(job).len() > 0,
        job_ops(job).last() == PanelOp::SetBaseBuffer,
{
}

/// After every job, whichever it is, the panel is in quick mode, its
/// base buffer is the framebuffer bit for bit, and it shows the
/// framebuffer's picture. `Clear` and `ShowText` bring this about whatever the panel
/// held before; `UpdateLine` never switches the mode and so asks only
/// that the panel was in quick mode.
pub proof fn lemma_job_syncs(p: PanelModel, frame: Seq<u8>, job: JobView)
    requires
        well_formed(frame),
        job is UpdateLine ==> p.mode == RefreshMode::Quick,
    ensures
        in_sync(panel_run(p, job_ops(job), rendered(frame, job)), rendered(frame, job)),
        same_picture(panel_run(p, job_ops(job), rendered(frame, job)).shown, rendered(frame, job)),
        !(job is Clear) ==> panel_run(p, job_ops(job), rendered(frame, job)).shown == rendered(
            frame,
            job,
        ),
{
    reveal_with_fuel(panel_at, 6);
    lemma_rendered_well_formed(frame, job);
    let after = rendered(frame, job);
    let ops = job_ops(job);
    let q = panel_run(p, ops, after);
    match job {
        JobView::Clear => {
            assert(ops.len() == 5);
            assert(panel_at(p, ops, after, 4) == panel_step(
                panel_at(p, ops, after, 3),
                ops[3],
                after,
            ));
            assert(q == panel_step(panel_at(p, ops, after, 4), ops[4], after));
            assert(q.shown == white_ram());
            lemma_white_ram_is_blank();
        },
        JobView::ShowText(text) => {
            assert(ops.len() == 5);
            assert(panel_at(p, ops, after, 4) == panel_step(
                panel_at(p, ops, after, 3),
                ops[3],
                after,
            ));
            assert(q == panel_step(panel_at(p, ops, after, 4), ops[4], after));
            assert(q.shown == after);
        },
        JobView::UpdateLine { line_number, text } => {
            assert(ops.len() == 2);
            assert(q == panel_step(panel_at(p, ops, after, 1), ops[1], after));
            assert(q.shown == after);
        },
    }
}

/// A memory full of white shows the picture of the blank frame.
proof fn lemma_white_ram_is_blank()
    ensures
        same_picture(white_ram(), blank_frame()),
{
    lemma_frame_of_cells(|i: int, k: int| cell_visible(i, k));
    assert forall|i: int, k: int| cell_visible(i, k) implies #[trigger] bit_at(
        white_ram()[i],
        k,
    ) == #[trigger] bit_at(blank_frame()[i], k) by {
        assert(white_ram()[i] == 0xffu8);
        lemma_white_byte(k);
    }
}

/// Every bit of a white byte is set.
proof fn lemma_white_byte(k: int)
    requires
        0 <= k < 8,
    ensures
        bit_at(0xffu8, k),
{
    if k == 0 {
    } else if k == 1 {
    } else if k == 2 {
    } else if k == 3 {
    } else if k == 4 {
    } else if k == 5 {
    } else if k == 6 {
    } else {
    }
}

/// Doing a job twice in a row leaves the framebuffer as doing it once.
pub proof fn lemma_job_idempotent(frame: Seq<u8>, job: JobView)
    requires
        well_formed(frame),
    ensures
        rendered(rendered(frame, job), job) == rendered(frame, job),
{
    match job {
        JobView::Clear => {},
        JobView::ShowText(text) => {},
        JobView::UpdateLine { line_number, text } => {
            let top = line_top(line_number);
            let w = LINE_WIDTH as int;
            let h = LINE_HEIGHT as int;
            let ink = text_ink(text, TEXT_MARGIN as int, top + BASELINE_DROP);
            let cleared = rect_whitened(frame, 0, top, w, h);
            let once = inked(cleared, ink);
            let cleared_again = rect_whitened(once, 0, top, w, h);
            let twice = inked(cleared_again, ink);
            lemma_rect_whitened(frame, 0, top, w, h);
            lemma_inked(cleared, ink);
            lemma_rect_whitened(once, 0, top, w, h);
            lemma_inked(cleared_again, ink);
            lemma_frame_of_cells(
                |i: int, k: int|
                    (cell_visible(i, k) && in_rect(cell_point(i, k), 0, top, w, h))
                        || bit_at(frame[i], k),
            );
            lemma_frame_of_cells(
                |i: int, k: int|
                    bit_at(cleared[i], k) && !(cell_visible(i, k) && ink.contains(
                        cell_point(i, k),
                    )),
            );
            lemma_frame_of_cells(
                |i: int, k: int|
                    (cell_visible(i, k) && in_rect(cell_point(i, k), 0, top, w, h))
                        || bit_at(once[i], k),
            );
            lemma_frame_of_cells(
                |i: int, k: int|
                    bit_at(cleared_again[i], k) && !(cell_visible(i, k) && ink.contains(
                        cell_point(i, k),
                    )),
            );
            assert forall|i: int, k: int| cell_in_frame(i, k) implies bit_at(twice[i], k)
                == bit_at(once[i], k) by {
                assert(bit_at(cleared[i], k) == ((cell_visible(i, k) && in_rect(
                    cell_point(i, k),
                    0,
                    top,
                    w,
                    h,
                )) || bit_at(frame[i], k)));
                assert(bit_at(cleared_again[i], k) == ((cell_visible(i, k) && in_rect(
                    cell_point(i, k),
                    0,
                    top,
                    w,
                    h,
                )) || bit_at(once[i], k)));
            }
            lemma_cells_fix_frame(twice, once);
        },
    }
}

/// After `Clear` every pixel is white.
pub proof fn lemma_clear_pixels(frame: Seq<u8>, x: int, y: int)
    requires
        in_picture(x, y),
    ensures
        pixel_white(rendered(frame, JobView::Clear), x, y),
{
    lemma_blank_frame();
}

/// After `ShowText` the pixels that the text paints are black and every
/// other pixel is white: nothing of the old picture is left.
pub proof fn lemma_show_text_pixels(frame: Seq<u8>, text: Seq<char>, x: int, y: int)
    requires
        in_picture(x, y),
    ensures
        pixel_white(rendered(frame, JobView::ShowText(text)), x, y) == !text_ink(
            text,
            TEXT_MARGIN as int,
            MESSAGE_BASELINE as int,
        ).contains((x, y)),
{
    lemma_blank_frame();
    lemma_inked(blank_frame(), text_ink(text, TEXT_MARGIN as int, MESSAGE_BASELINE as int));
}

/// After `UpdateLine` the pixels that the text paints are black, the
/// other pixels of the line's strip are white, and every pixel outside
/// both is as it was.
pub proof fn lemma_update_line_pixels(
    frame: Seq<u8>,
    line_number: u8,
    text: Seq<char>,
    x: int,
    y: int,
)
    requires
        well_formed(frame),
        in_picture(x, y),
    ensures
        pixel_white(rendered(frame, JobView::UpdateLine { line_number, text }), x, y) == (
        !text_ink(text, TEXT_MARGIN as int, line_top(line_number) + BASELINE_DROP).contains(
            (x, y),
        ) && (in_rect((x, y), 0, line_top(line_number), LINE_WIDTH as int, LINE_HEIGHT as int)
            || pixel_white(frame, x, y))),
{
    let top = line_top(line_number);
    lemma_rect_whitened(frame, 0, top, LINE_WIDTH as int, LINE_HEIGHT as int);
    lemma_inked(
        rect_whitened(frame, 0, top, LINE_WIDTH as int, LINE_HEIGHT as int),
        text_ink(text, TEXT_MARGIN as int, top + BASELINE_DROP),
    );
}

/// The framebuffer after the jobs of a queue, taken in order.
pub open spec fn frame_after(frame: Seq<u8>, jobs: Seq<JobView>) -> Seq<u8>
    decreases jobs.len(),
{
    if jobs.len() == 0 {
        frame
    } else {
        rendered(frame_after(frame, jobs.drop_last()), jobs.last())
    }
}

/// The panel after the jobs of a queue, taken in order, each job's
/// operations run to the end before the next job starts.
pub open spec fn panel_after(p: PanelModel, frame: Seq<u8>, jobs: Seq<JobView>) -> PanelModel
    decreases jobs.len(),
{
    if jobs.len() == 0 {
        p
    } else {
        panel_run(
            panel_after(p, frame, jobs.drop_last()),
            job_ops(jobs.last()),
            frame_after(frame, jobs),
        )
    }
}

/// A queue that two producers filled is served as one queue: what the
/// worker makes of the jobs depends on their order in the queue alone,
/// and serving `first` and then `second` is serving `first + second`.
pub proof fn lemma_queue_in_order(
    p: PanelModel,
    frame: Seq<u8>,
    first: Seq<JobView>,
    second: Seq<JobView>,
)
    ensures
        frame_after(frame, first + second) == frame_after(frame_after(frame, first), second),
        panel_after(p, frame, first + second) == panel_after(
            panel_after(p, frame, first),
            frame_after(frame, first),
            second,
        ),
    decreases second.len(),
{
    if second.len() == 0 {
        assert(first + second =~= first);
    } else {
        assert((first + second).drop_last() =~= first + second.drop_last());
        assert((first + second).last() == second.last());
        lemma_queue_in_order(p, frame, first, second.drop_last());
    }
}

/// Whatever jobs a queue holds, once they are served panel and
/// framebuffer are in step, if they were in step before.
pub proof fn lemma_queue_keeps_sync(p: PanelModel, frame: Seq<u8>, jobs: Seq<JobView>)
    requires
        well_formed(frame),
        in_sync(p, frame),
    ensures
        well_formed(frame_after(frame, jobs)),
        in_sync(panel_after(p, frame, jobs), frame_after(frame, jobs)),
    decreases jobs.len(),
{
    if jobs.len() > 0 {
        lemma_queue_keeps_sync(p, frame, jobs.drop_last());
        let before = frame_after(frame, jobs.drop_last());
        lemma_rendered_well_formed(before, jobs.last());
        lemma_job_syncs(panel_after(p, frame, jobs.drop_last()), before, jobs.last());
    }
}

} // verus!
