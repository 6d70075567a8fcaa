//! The display refresh engine: display jobs in, panel operations out.
//!
//! The worker owns the panel and a framebuffer that mirrors it. A job
//! changes the framebuffer and names the operations that bring the panel
//! to the same picture. The panel refreshes in one of two modes. A full
//! refresh rewrites the whole panel and takes its reference picture, the
//! base buffer, from what is written. A quick refresh changes only what
//! differs from the base buffer, so the base buffer must equal the
//! framebuffer whenever the panel is left in quick mode: every job ends
//! by sending the framebuffer as the new base buffer.
//!
//! Text lines are `LINE_HEIGHT` pixels high and start `HEADER_OFFSET`
//! pixels below the top; text starts `TEXT_MARGIN` pixels from the left.
//! The same metrics serve the full and the quick path.

use crate::canvas::{text_ink, FRAME_BYTES, MAX_TEXT_LEN, PANEL_WIDTH};
use crate::channel::{clone_sender, submit, Disconnected};
use crate::framebuffer::{blank_frame, inked, rect_whitened, well_formed, Framebuffer};
use crate::framer::{BarcodeEvent, EventView};
use std::sync::mpsc::Sender;
use vstd::prelude::*;
use vstd::string::StrSliceExecFns;

verus! {

/// The distance of text from the left edge, in pixels.
pub const TEXT_MARGIN: i32 = 10;

/// The baseline of the text of a full-screen message, in pixels from the
/// top.
pub const MESSAGE_BASELINE: i32 = 30;

/// The top of text line 0, in pixels from the top.
pub const HEADER_OFFSET: i32 = 8;

/// The height of a text line, in pixels.
pub const LINE_HEIGHT: u32 = 12;

/// The width of the strip that a line update clears: the width of the
/// panel, in pixels.
pub const LINE_WIDTH: u32 = PANEL_WIDTH;

/// The distance of a line's baseline from the line's top, in pixels.
pub const BASELINE_DROP: i32 = 2;

/// A job for the display worker.
#[derive(Debug, Clone, PartialEq, Eq)]
pub enum DisplayJob {
    /// Blank the panel.
    Clear,
    /// Replace the whole picture by a text.
    ShowText(String),
    /// Replace one text line and leave the rest of the picture alone.
    UpdateLine { line_number: u8, text: String },
}

/// A `DisplayJob` as a mathematical value.
pub enum JobView {
    Clear,
    ShowText(Seq<char>),
    UpdateLine { line_number: u8, text: Seq<char> },
}

impl View for DisplayJob {
    type V = JobView;

    open spec fn view(&self) -> JobView {
        match self {
            DisplayJob::Clear => JobView::Clear,
            DisplayJob::ShowText(text) => JobView::ShowText(text@),
            DisplayJob::UpdateLine { line_number, text } => JobView::UpdateLine {
                line_number: *line_number,
                text: text@,
            },
        }
    }
}

/// The text of the job is short enough to be drawn.
pub open spec fn job_fits(job: JobView) -> bool {
    match job {
        JobView::Clear => true,
        JobView::ShowText(text) => text.len() <= MAX_TEXT_LEN,
        JobView::UpdateLine { line_number, text } => text.len() <= MAX_TEXT_LEN,
    }
}

impl DisplayJob {
    /// Whether the worker can take the job: its text has at most
    /// `MAX_TEXT_LEN` characters.
    pub fn fits(&self) -> (r: bool)
        ensures
            r == job_fits(self@),
    {
        match self {
            DisplayJob::Clear => true,
            DisplayJob::ShowText(text) => text.as_str().unicode_len() <= MAX_TEXT_LEN,
            DisplayJob::UpdateLine { line_number, text } => text.as_str().unicode_len()
                <= MAX_TEXT_LEN,
        }
    }
}

/// The text line on which scanned codes are shown.
pub const SCAN_LINE: u8 = 0;

/// The job that shows a scan event: a scanned code goes to `SCAN_LINE`; a
/// fault is not shown.
pub open spec fn scan_job(event: EventView) -> Option<JobView> {
    match event {
        EventView::Scanned(code) => Some(JobView::UpdateLine { line_number: SCAN_LINE, text: code }),
        EventView::Error(reason) => None,
    }
}

/// The view of a job that may be absent.
pub open spec fn job_view(job: Option<DisplayJob>) -> Option<JobView> {
    match job {
        Some(j) => Some(j@),
        None => None,
    }
}

impl DisplayJob {
    /// The job that shows a scan event, if it is to be shown.
    pub fn for_scan(event: BarcodeEvent) -> (r: Option<DisplayJob>)
        ensures
            job_view(r) == scan_job(event@),
    {
        match event {
            BarcodeEvent::Scanned(code) => Some(
                DisplayJob::UpdateLine { line_number: SCAN_LINE, text: code },
            ),
            BarcodeEvent::Error(reason) => None,
        }
    }
}

/// The top of a text line, in pixels from the top.
pub open spec fn line_top(line_number: u8) -> int {
    HEADER_OFFSET + line_number * LINE_HEIGHT
}

/// The frame with one text line replaced: the line's strip made white and
/// the text drawn on it.
pub open spec fn line_updated(frame: Seq<u8>, line_number: u8, text: Seq<char>) -> Seq<u8> {
    inked(
        rect_whitened(
            frame,
            0,
            line_top(line_number),
            LINE_WIDTH as int,
            LINE_HEIGHT as int,
        ),
        text_ink(text, TEXT_MARGIN as int, line_top(line_number) + BASELINE_DROP),
    )
}

/// The framebuffer after a job.
pub open spec fn rendered(frame: Seq<u8>, job: JobView) -> Seq<u8> {
    match job {
        JobView::Clear => blank_frame(),
        JobView::ShowText(text) => inked(
            blank_frame(),
            text_ink(text, TEXT_MARGIN as int, MESSAGE_BASELINE as int),
        ),
        JobView::UpdateLine { line_number, text } => line_updated(frame, line_number, text),
    }
}

/// How the panel refreshes.
#[derive(Debug, Clone, Copy, PartialEq, Eq, Structural)]
pub enum RefreshMode {
    /// Rewrite the whole panel; slow, with a visible flash.
    Full,
    /// Change only what differs from the base buffer; fast.
    Quick,
}

/// One operation of the panel. Where an operation sends a picture, it
/// sends the framebuffer as the job left it.
#[derive(Debug, Clone, Copy, PartialEq, Eq, Structural)]
pub enum PanelOp {
    /// Switch the refresh mode.
    SetRefresh(RefreshMode),
    /// Fill the panel's memory with white.
    ClearFrame,
    /// Send the framebuffer to the panel's memory.
    UpdateFrame,
    /// Show the panel's memory.
    DisplayFrame,
    /// Send the framebuffer to the panel's memory and show it.
    UpdateAndDisplayFrame,
    /// Send the framebuffer as the base buffer.
    SetBaseBuffer,
}

/// What the worker does to the panel before its first job.
pub open spec fn startup_ops() -> Seq<PanelOp> {
    seq![PanelOp::SetRefresh(RefreshMode::Quick), PanelOp::SetBaseBuffer]
}

/// The operations that bring the panel to the picture of a job.
pub open spec fn job_ops(job: JobView) -> Seq<PanelOp> {
    match job {
        JobView::Clear => seq![
            PanelOp::SetRefresh(RefreshMode::Full),
            PanelOp::ClearFrame,
            PanelOp::DisplayFrame,
            PanelOp::SetRefresh(RefreshMode::Quick),
            PanelOp::SetBaseBuffer,
        ],
        JobView::ShowText(text) => seq![
            PanelOp::SetRefresh(RefreshMode::Full),
            PanelOp::UpdateFrame,
            PanelOp::DisplayFrame,
            PanelOp::SetRefresh(RefreshMode::Quick),
            PanelOp::SetBaseBuffer,
        ],
        JobView::UpdateLine { line_number, text } => seq![
            PanelOp::UpdateAndDisplayFrame,
            PanelOp::SetBaseBuffer,
        ],
    }
}

/// The display worker's state: the framebuffer. There is no engine
/// before `start`: a value of this type is a worker that is ready for
/// jobs, with the panel in quick mode between any two of them.
pub struct DisplayEngine {
    frame: Framebuffer,
}

impl View for DisplayEngine {
    type V = Seq<u8>;

    /// The bytes of the framebuffer.
    closed spec fn view(&self) -> Seq<u8> {
        self.frame@
    }
}

impl DisplayEngine {
    /// The framebuffer is drawn in landscape and is well formed.
    pub closed spec fn wf(&self) -> bool {
        self.frame.wf()
    }

    /// What `wf` says of the bytes.
    pub proof fn lemma_wf(&self)
        requires
            self.wf(),
        ensures
            well_formed(self@),
    {
        self.frame.lemma_wf();
    }

    /// A worker with a blank framebuffer, and what it does to the panel
    /// before its first job.
    pub fn start() -> (r: (Self, Vec<PanelOp>))
        ensures
            r.0.wf(),
            r.0@ == blank_frame(),
            r.1@ == startup_ops(),
    {
        let frame = Framebuffer::new();
        let mut ops: Vec<PanelOp> = Vec::new();
        ops.push(PanelOp::SetRefresh(RefreshMode::Quick));
        ops.push(PanelOp::SetBaseBuffer);
        proof {
            assert(ops@ =~= startup_ops());
        }
        (DisplayEngine { frame }, ops)
    }

    /// Takes one job: brings the framebuffer to the job's picture and
    /// returns the operations that bring the panel there, in order.
    pub fn process(&mut self, job: &DisplayJob) -> (ops: Vec<PanelOp>)
        requires
            old(self).wf(),
            job_fits(job@),
        ensures
            final(self).wf(),
            final(self)@ == rendered(old(self)@, job@),
            ops@ == job_ops(job@),
    {
        let mut ops: Vec<PanelOp> = Vec::new();
        match job {
            DisplayJob::Clear => {
                ops.push(PanelOp::SetRefresh(RefreshMode::Full));
                self.frame.clear();
                ops.push(PanelOp::ClearFrame);
                ops.push(PanelOp::DisplayFrame);
                ops.push(PanelOp::SetRefresh(RefreshMode::Quick));
                ops.push(PanelOp::SetBaseBuffer);
            },
            DisplayJob::ShowText(text) => {
                ops.push(PanelOp::SetRefresh(RefreshMode::Full));
                self.frame.clear();
                self.frame.draw_text(text.as_str(), TEXT_MARGIN, MESSAGE_BASELINE);
                ops.push(PanelOp::UpdateFrame);
                ops.push(PanelOp::DisplayFrame);
                ops.push(PanelOp::SetRefresh(RefreshMode::Quick));
                ops.push(PanelOp::SetBaseBuffer);
            },
            DisplayJob::UpdateLine { line_number, text } => {
                let line: u8 = *line_number;
                let top: i32 = HEADER_OFFSET + (line as i32) * (LINE_HEIGHT as i32);
                self.frame.clear_rect(0, top, LINE_WIDTH, LINE_HEIGHT);
                self.frame.draw_text(text.as_str(), TEXT_MARGIN, top + BASELINE_DROP);
                ops.push(PanelOp::UpdateAndDisplayFrame);
                ops.push(PanelOp::SetBaseBuffer);
            },
        }
        proof {
            assert(ops@ =~= job_ops(job@));
        }
        ops
    }

    /// The bytes of the framebuffer, as the panel takes them.
    pub fn frame(&self) -> (r: &[u8])
        ensures
            r@ == self@,
            self.wf() ==> r@.len() == FRAME_BYTES,
    {
        proof {
            if self.wf() {
                self.frame.lemma_wf();
            }
        }
        self.frame.bytes()
    }
}

/// The producers' end of the display worker.
pub struct DisplayHandle {
    sender: Sender<DisplayJob>,
}

impl View for DisplayHandle {
    type V = Sender<DisplayJob>;

    /// The sender through which the handle reaches its worker.
    closed spec fn view(&self) -> Sender<DisplayJob> {
        self.sender
    }
}

impl Clone for DisplayHandle {
    fn clone(&self) -> (r: Self)
        ensures
            r@ == self@,
    {
        DisplayHandle { sender: clone_sender(&self.sender) }
    }
}

impl DisplayHandle {
    /// The handle that sends through `sender`.
    pub fn new(sender: Sender<DisplayJob>) -> (r: Self)
        ensures
            r@ == sender,
    {
        DisplayHandle { sender }
    }

    /// Enqueues a job for the worker. Fails only when the worker is gone.
    pub fn submit(&self, job: DisplayJob) -> (r: Result<(), Disconnected<DisplayJob>>)
        ensures
            r matches Err(e) ==> e.command == job,
    {
        submit(&self.sender, job)
    }
}

/// The display subsystem as its owner sees it once the worker runs.
pub struct DisplayManager {
    handle: DisplayHandle,
}

impl View for DisplayManager {
    type V = Sender<DisplayJob>;

    /// The sender through which the worker is reached.
    closed spec fn view(&self) -> Sender<DisplayJob> {
        self.handle@
    }
}

impl DisplayManager {
    /// The subsystem whose worker reads the channel behind `handle`.
    pub fn new(handle: DisplayHandle) -> (r: Self)
        ensures
            r@ == handle@,
    {
        DisplayManager { handle }
    }

    /// One more handle for the same worker.
    pub fn handle(&self) -> (r: DisplayHandle)
        ensures
            r@ == self@,
    {
        self.handle.clone()
    }
}

/// The pauses of the display driver, in the ticks of the worker's
/// scheduler: whole milliseconds, and never less than one.
pub struct Delay;

/// The whole milliseconds in `amount` units of which `per_ms` make a
/// millisecond, but at least one.
pub open spec fn at_least_one_ms(amount: u32, per_ms: u32) -> u32 {
    if amount / per_ms < 1 {
        1
    } else {
        amount / per_ms
    }
}

impl Delay {
    /// The milliseconds to pause for a delay of `ns` nanoseconds.
    pub fn millis_for_ns(ns: u32) -> (ms: u32)
        ensures
            ms == at_least_one_ms(ns, 1_000_000),
    {
        let ms: u32 = ns / 1_000_000;
        if ms < 1 {
            1
        } else {
            ms
        }
    }

    /// The milliseconds to pause for a delay of `us` microseconds.
    pub fn millis_for_us(us: u32) -> (ms: u32)
        ensures
            ms == at_least_one_ms(us, 1000),
    {
        let ms: u32 = us / 1000;
        if ms < 1 {
            1
        } else {
            ms
        }
    }
}

} // verus!
