//! The barcode scanner worker: control commands in, scan events out.
//!
//! The worker owns the serial line and three output pins. Each round it
//! first serves the control commands that are waiting, then reads from the
//! serial line for a short, bounded time. What it does with a command and
//! with the outcome of a read is decided here.

use crate::channel::{clone_sender, submit, Disconnected};
use crate::framer::{event_view, step, BarcodeEvent, EventView, LineFramer, MAX_CODE_LEN};
use std::sync::mpsc::Sender;
use vstd::prelude::*;
use vstd::string::StringExecFns;

verus! {

/// How long one read of the serial line may block, in milliseconds.
pub const READ_TIMEOUT_MS: u32 = 200;

/// The speed of the serial line, in bits per second. The line runs with
/// eight data bits, no parity, one stop bit and no flow control.
pub const BAUD_RATE: u32 = 9600;

/// A command for the scanner's control pins.
#[derive(Debug, Clone, Copy, PartialEq, Eq, Structural)]
pub enum ControlMessage {
    /// Start (`true`) or stop scanning.
    Trigger(bool),
    /// Switch the scanner's light on or off.
    Led(bool),
    /// Switch the scanner's beeper on or off.
    Beep(bool),
}

/// The output pins of the scanner.
#[derive(Debug, Clone, Copy, PartialEq, Eq, Structural)]
pub enum ControlPin {
    Trigger,
    Led,
    Beep,
}

/// The level of an output pin.
#[derive(Debug, Clone, Copy, PartialEq, Eq, Structural)]
pub enum Level {
    Low,
    High,
}

/// An order to drive one pin to one level.
#[derive(Debug, Clone, Copy, PartialEq, Eq, Structural)]
pub struct PinCommand {
    pub pin: ControlPin,
    pub level: Level,
}

/// The level that switches something on when `on` holds: high.
pub open spec fn active_high(on: bool) -> Level {
    if on {
        Level::High
    } else {
        Level::Low
    }
}

/// The level that switches something on when `on` holds: low.
pub open spec fn active_low(on: bool) -> Level {
    if on {
        Level::Low
    } else {
        Level::High
    }
}

/// The pin order that a control command stands for. The trigger line is
/// active-low; the light and the beeper are active-high.
pub open spec fn pin_command_of(msg: ControlMessage) -> PinCommand {
    match msg {
        ControlMessage::Trigger(active) => PinCommand {
            pin: ControlPin::Trigger,
            level: active_low(active),
        },
        ControlMessage::Led(on) => PinCommand { pin: ControlPin::Led, level: active_high(on) },
        ControlMessage::Beep(on) => PinCommand { pin: ControlPin::Beep, level: active_high(on) },
    }
}

/// What a read of the serial line came back with.
#[derive(Debug, Clone, PartialEq, Eq)]
pub enum ReadOutcome {
    /// The read returned `count` bytes, none when it timed out. `first` is
    /// the first byte of the read buffer.
    Received { count: usize, first: u8 },
    /// The read failed; the fault, described.
    Failed(String),
}

/// The report of a failed read.
pub open spec fn read_fault(description: Seq<char>) -> EventView {
    EventView::Error("UART read error: "@ + description)
}

/// What the outcome of a read does to the line buffer, and the event it
/// gives rise to. Only a read of exactly one byte feeds the framer. A
/// failed read is reported and changes nothing.
pub open spec fn read_step(line: Seq<u8>, outcome: ReadOutcome) -> (Seq<u8>, Option<EventView>) {
    match outcome {
        ReadOutcome::Received { count, first } => if count == 1 {
            step(line, first)
        } else {
            (line, None)
        },
        ReadOutcome::Failed(description) => (line, Some(read_fault(description@))),
    }
}

/// The state of the scanner worker between rounds.
pub struct ScannerWorker {
    framer: LineFramer,
}

impl View for ScannerWorker {
    type V = Seq<u8>;

    /// The bytes of the unfinished line.
    closed spec fn view(&self) -> Seq<u8> {
        self.framer@
    }
}

impl ScannerWorker {
    /// A worker with an empty line buffer.
    pub fn new() -> (r: Self)
        ensures
            r@ == Seq::<u8>::empty(),
    {
        ScannerWorker { framer: LineFramer::new() }
    }

    /// The pin order for a control command.
    pub fn on_control(msg: ControlMessage) -> (r: PinCommand)
        ensures
            r == pin_command_of(msg),
    {
        match msg {
            ControlMessage::Trigger(active) => PinCommand {
                pin: ControlPin::Trigger,
                level: if active {
                    Level::Low
                } else {
                    Level::High
                },
            },
            ControlMessage::Led(on) => PinCommand {
                pin: ControlPin::Led,
                level: if on {
                    Level::High
                } else {
                    Level::Low
                },
            },
            ControlMessage::Beep(on) => PinCommand {
                pin: ControlPin::Beep,
                level: if on {
                    Level::High
                } else {
                    Level::Low
                },
            },
        }
    }

    /// Takes the outcome of one read of the serial line.
    pub fn on_read(&mut self, outcome: ReadOutcome) -> (ev: Option<BarcodeEvent>)
        ensures
            final(self)@ == read_step(old(self)@, outcome).0,
            event_view(ev) == read_step(old(self)@, outcome).1,
            old(self)@.len() <= MAX_CODE_LEN ==> final(self)@.len() <= MAX_CODE_LEN,
    {
        match outcome {
            ReadOutcome::Received { count, first } => {
                if count == 1 {
                    self.framer.push(first)
                } else {
                    None
                }
            },
            ReadOutcome::Failed(description) => {
                let text = String::from_str("UART read error: ").concat(description.as_str());
                Some(BarcodeEvent::Error(text))
            },
        }
    }
}

/// The producers' end of the scanner worker: it enqueues control commands
/// and holds no hardware.
pub struct BarcodeHandle {
    control_tx: Sender<ControlMessage>,
}

impl View for BarcodeHandle {
    type V = Sender<ControlMessage>;

    /// The sender through which the handle reaches its worker.
    closed spec fn view(&self) -> Sender<ControlMessage> {
        self.control_tx
    }
}

impl Clone for BarcodeHandle {
    fn clone(&self) -> (r: Self)
        ensures
            r@ == self@,
    {
        BarcodeHandle { control_tx: clone_sender(&self.control_tx) }
    }
}

impl BarcodeHandle {
    /// The handle that sends through `control_tx`.
    pub fn new(control_tx: Sender<ControlMessage>) -> (r: Self)
        ensures
            r@ == control_tx,
    {
        BarcodeHandle { control_tx }
    }

    /// Asks the worker to start (`true`) or stop scanning. Fails only when
    /// the worker is gone.
    pub fn set_trigger(&self, active: bool) -> (r: Result<(), Disconnected<ControlMessage>>)
        ensures
            r matches Err(e) ==> e.command == ControlMessage::Trigger(active),
    {
        submit(&self.control_tx, ControlMessage::Trigger(active))
    }

    /// Asks the worker to switch the scanner's light. Fails only when the
    /// worker is gone.
    pub fn set_led(&self, on: bool) -> (r: Result<(), Disconnected<ControlMessage>>)
        ensures
            r matches Err(e) ==> e.command == ControlMessage::Led(on),
    {
        submit(&self.control_tx, ControlMessage::Led(on))
    }

    /// Asks the worker to switch the scanner's beeper. Fails only when the
    /// worker is gone.
    pub fn set_beep(&self, on: bool) -> (r: Result<(), Disconnected<ControlMessage>>)
        ensures
            r matches Err(e) ==> e.command == ControlMessage::Beep(on),
    {
        submit(&self.control_tx, ControlMessage::Beep(on))
    }
}

/// The scanner subsystem as its owner sees it once the worker runs.
pub struct BarcodeScanner {
    handle: BarcodeHandle,
}

impl View for BarcodeScanner {
    type V = Sender<ControlMessage>;

    /// The sender through which the worker is reached.
    closed spec fn view(&self) -> Sender<ControlMessage> {
        self.handle@
    }
}

impl BarcodeScanner {
    /// The subsystem whose worker reads the channel behind `handle`.
    pub fn new(handle: BarcodeHandle) -> (r: Self)
        ensures
            r@ == handle@,
    {
        BarcodeScanner { handle }
    }

    /// One more handle for the same worker.
    pub fn handle(&self) -> (r: BarcodeHandle)
        ensures
            r@ == self@,
    {
        self.handle.clone()
    }
}

} // verus!
