//! The status LED worker: a blink cadence that producers can change.
//!
//! The worker owns the LED. Each round it takes every configuration that
//! is waiting, the last one winning, and then blinks once or idles.

use crate::barcode::Level;
use crate::channel::{clone_sender, submit, Disconnected};
use std::sync::mpsc::Sender;
use vstd::prelude::*;

verus! {

/// The shortest full blink period that a producer can ask for, in
/// milliseconds.
pub const MIN_PERIOD_MS: u64 = 50;

/// The longest full blink period that a producer can ask for, in
/// milliseconds.
pub const MAX_PERIOD_MS: u64 = 5000;

/// The shortest time the LED stays in one state, in milliseconds.
pub const MIN_HALF_PERIOD_MS: u64 = 10;

/// How long the worker rests between looks at its queue while blinking is
/// switched off, in milliseconds.
pub const IDLE_DELAY_MS: u32 = 100;

/// A command for the blink worker.
#[derive(Debug, Clone, Copy, PartialEq, Eq, Structural)]
pub enum BlinkEvent {
    /// Replace the whole configuration.
    UpdateConfig { enabled: bool, period_ms: u64 },
}

/// `period_ms` brought into the range from `MIN_PERIOD_MS` to
/// `MAX_PERIOD_MS`.
pub open spec fn clamped_period(period_ms: u64) -> u64 {
    if period_ms < MIN_PERIOD_MS {
        MIN_PERIOD_MS
    } else if period_ms > MAX_PERIOD_MS {
        MAX_PERIOD_MS
    } else {
        period_ms
    }
}

/// Brings a requested period into the accepted range.
pub fn clamp_period(period_ms: u64) -> (r: u64)
    ensures
        r == clamped_period(period_ms),
        MIN_PERIOD_MS <= r <= MAX_PERIOD_MS,
{
    if period_ms < MIN_PERIOD_MS {
        MIN_PERIOD_MS
    } else if period_ms > MAX_PERIOD_MS {
        MAX_PERIOD_MS
    } else {
        period_ms
    }
}

/// The producers' end of the blink worker.
pub struct BlinkHandle {
    sender: Sender<BlinkEvent>,
}

impl View for BlinkHandle {
    type V = Sender<BlinkEvent>;

    /// The sender through which the handle reaches its worker.
    closed spec fn view(&self) -> Sender<BlinkEvent> {
        self.sender
    }
}

impl Clone for BlinkHandle {
    fn clone(&self) -> (r: Self)
        ensures
            r@ == self@,
    {
        BlinkHandle { sender: clone_sender(&self.sender) }
    }
}

impl BlinkHandle {
    /// The handle that sends through `sender`.
    pub fn new(sender: Sender<BlinkEvent>) -> (r: Self)
        ensures
            r@ == sender,
    {
        BlinkHandle { sender }
    }

    /// Asks the worker to blink, or not, with a full period of `period_ms`
    /// milliseconds, clamped to the accepted range. Fails only when the
    /// worker is gone.
    pub fn update_config(&self, enabled: bool, period_ms: u64) -> (r: Result<
        (),
        Disconnected<BlinkEvent>,
    >)
        ensures
            r matches Err(e) ==> e.command == (BlinkEvent::UpdateConfig {
                enabled,
                period_ms: clamped_period(period_ms),
            }),
    {
        let period_ms: u64 = clamp_period(period_ms);
        submit(&self.sender, BlinkEvent::UpdateConfig { enabled, period_ms })
    }
}

/// One thing the blink worker does to its LED or its clock.
#[derive(Debug, Clone, Copy, PartialEq, Eq, Structural)]
pub enum BlinkAction {
    /// Drive the LED to a level.
    Drive(Level),
    /// Wait this many milliseconds.
    Wait(u32),
}

/// The time the LED stays in each state for a full period of `period_ms`:
/// half the period, but no less than `MIN_HALF_PERIOD_MS`, in the 32 bits
/// that the delay takes.
pub open spec fn half_period(period_ms: u64) -> u32 {
    let half: u64 = period_ms / 2;
    let half: u64 = if half < MIN_HALF_PERIOD_MS {
        MIN_HALF_PERIOD_MS
    } else {
        half
    };
    (half % 0x1_0000_0000) as u32
}

/// What one round of the worker does under a configuration: on, wait,
/// off, wait; or, with blinking switched off, off and a rest.
pub open spec fn round_actions(enabled: bool, period_ms: u64) -> Seq<BlinkAction> {
    if enabled {
        seq![
            BlinkAction::Drive(Level::High),
            BlinkAction::Wait(half_period(period_ms)),
            BlinkAction::Drive(Level::Low),
            BlinkAction::Wait(half_period(period_ms)),
        ]
    } else {
        seq![BlinkAction::Drive(Level::Low), BlinkAction::Wait(IDLE_DELAY_MS)]
    }
}

/// The configuration that stands after `events` have been taken in order:
/// that of the last event, or the one before if there is none.
pub open spec fn config_after(current: (bool, u64), events: Seq<BlinkEvent>) -> (bool, u64) {
    if events.len() == 0 {
        current
    } else {
        match events.last() {
            BlinkEvent::UpdateConfig { enabled, period_ms } => (enabled, period_ms),
        }
    }
}

/// The state of the blink worker: the configuration it blinks by.
pub struct Blinker {
    enabled: bool,
    period_ms: u64,
}

impl View for Blinker {
    type V = (bool, u64);

    /// Whether blinking is on, and the full period in milliseconds.
    closed spec fn view(&self) -> (bool, u64) {
        (self.enabled, self.period_ms)
    }
}

impl Blinker {
    /// A worker that starts with the given configuration.
    pub fn new(initial_enabled: bool, initial_period_ms: u64) -> (r: Self)
        ensures
            r@ == (initial_enabled, initial_period_ms),
    {
        Blinker { enabled: initial_enabled, period_ms: initial_period_ms }
    }

    /// Whether blinking is switched on.
    pub fn enabled(&self) -> (r: bool)
        ensures
            r == self@.0,
    {
        self.enabled
    }

    /// The full blink period, in milliseconds.
    pub fn period_ms(&self) -> (r: u64)
        ensures
            r == self@.1,
    {
        self.period_ms
    }

    /// Takes one command: the new configuration replaces the old one
    /// whole.
    pub fn apply(&mut self, event: BlinkEvent)
        ensures
            final(self)@ == config_after(old(self)@, seq![event]),
    {
        match event {
            BlinkEvent::UpdateConfig { enabled, period_ms } => {
                self.enabled = enabled;
                self.period_ms = period_ms;
            },
        }
    }

    /// Takes the commands that were waiting, in the order of the queue.
    pub fn apply_all(&mut self, events: &[BlinkEvent])
        ensures
            final(self)@ == config_after(old(self)@, events@),
    {
        let mut i: usize = 0;
        while i < events.len()
            invariant
                i <= events.len(),
                self@ == config_after(old(self)@, events@.subrange(0, i as int)),
            decreases events.len() - i,
        {
            self.apply(events[i]);
            proof {
                assert(events@.subrange(0, i as int + 1).last() == events@[i as int]);
            }
            i = i + 1;
        }
        proof {
            assert(events@.subrange(0, i as int) =~= events@);
        }
    }

    /// What the worker does in one round.
    pub fn round(&self) -> (r: Vec<BlinkAction>)
        ensures
            r@ == round_actions(self@.0, self@.1),
    {
        let mut actions: Vec<BlinkAction> = Vec::new();
        if self.enabled {
            let half: u64 = self.period_ms / 2;
            let half: u64 = if half < MIN_HALF_PERIOD_MS {
                MIN_HALF_PERIOD_MS
            } else {
                half
            };
            let half: u32 = (half % 0x1_0000_0000) as u32;
            actions.push(BlinkAction::Drive(Level::High));
            actions.push(BlinkAction::Wait(half));
            actions.push(BlinkAction::Drive(Level::Low));
            actions.push(BlinkAction::Wait(half));
        } else {
            actions.push(BlinkAction::Drive(Level::Low));
            actions.push(BlinkAction::Wait(IDLE_DELAY_MS));
        }
        proof {
            assert(actions@ =~= round_actions(self@.0, self@.1));
        }
        actions
    }
}

/// Taking the commands one by one, as `apply` does, ends where
/// `config_after` says: commands do not merge.
pub proof fn lemma_config_after_push(current: (bool, u64), events: Seq<BlinkEvent>, e: BlinkEvent)
    ensures
        config_after(current, events.push(e)) == config_after(
            config_after(current, events),
            seq![e],
        ),
{
    assert(events.push(e).last() == e);
    assert(seq![e].last() == e);
}

/// The last writer wins: after any commands that end with a configuration,
/// the worker blinks by that configuration alone, whatever stood before
/// and whatever the earlier commands asked for.
pub proof fn lemma_last_writer_wins(
    current: (bool, u64),
    earlier: Seq<BlinkEvent>,
    enabled: bool,
    period_ms: u64,
)
    ensures
        config_after(current, earlier.push(BlinkEvent::UpdateConfig { enabled, period_ms })) == (
            enabled,
            period_ms,
        ),
{
    assert(earlier.push(BlinkEvent::UpdateConfig { enabled, period_ms }).last()
        == BlinkEvent::UpdateConfig { enabled, period_ms });
}

} // verus!
