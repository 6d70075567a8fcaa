use peripheral_workers::barcode::Level;
use peripheral_workers::blinker::{
    clamp_period, BlinkAction, BlinkEvent, BlinkHandle, Blinker, IDLE_DELAY_MS,
};
use peripheral_workers::channel::Disconnected;
use std::sync::mpsc::channel;

#[test]
fn periods_are_clamped() {
    assert_eq!(clamp_period(0), 50);
    assert_eq!(clamp_period(49), 50);
    assert_eq!(clamp_period(50), 50);
    assert_eq!(clamp_period(1234), 1234);
    assert_eq!(clamp_period(5000), 5000);
    assert_eq!(clamp_period(5001), 5000);
    assert_eq!(clamp_period(u64::MAX), 5000);
}

#[test]
fn update_config_sends_the_clamped_configuration() {
    let (tx, rx) = channel();
    let handle = BlinkHandle::new(tx);
    assert!(handle.update_config(false, 10).is_ok());
    assert!(handle.update_config(true, 5000).is_ok());
    assert!(handle.update_config(true, 9999).is_ok());
    assert_eq!(rx.try_recv().ok(), Some(BlinkEvent::UpdateConfig { enabled: false, period_ms: 50 }));
    assert_eq!(rx.try_recv().ok(), Some(BlinkEvent::UpdateConfig { enabled: true, period_ms: 5000 }));
    assert_eq!(rx.try_recv().ok(), Some(BlinkEvent::UpdateConfig { enabled: true, period_ms: 5000 }));
}

#[test]
fn the_last_configuration_wins() {
    let (tx, rx) = channel();
    let handle = BlinkHandle::new(tx);
    assert!(handle.update_config(false, 10).is_ok());
    assert!(handle.update_config(true, 5000).is_ok());
    let mut waiting = Vec::new();
    while let Ok(event) = rx.try_recv() {
        waiting.push(event);
    }
    let mut blinker = Blinker::new(true, 500);
    blinker.apply_all(&waiting);
    assert!(blinker.enabled());
    assert_eq!(blinker.period_ms(), 5000);
    assert_eq!(
        blinker.round(),
        vec![
            BlinkAction::Drive(Level::High),
            BlinkAction::Wait(2500),
            BlinkAction::Drive(Level::Low),
            BlinkAction::Wait(2500),
        ]
    );
}

#[test]
fn an_empty_queue_changes_nothing() {
    let mut blinker = Blinker::new(false, 700);
    blinker.apply_all(&[]);
    assert!(!blinker.enabled());
    assert_eq!(blinker.period_ms(), 700);
}

#[test]
fn apply_replaces_both_fields() {
    let mut blinker = Blinker::new(true, 500);
    blinker.apply(BlinkEvent::UpdateConfig { enabled: false, period_ms: 80 });
    assert!(!blinker.enabled());
    assert_eq!(blinker.period_ms(), 80);
}

#[test]
fn a_round_blinks_with_half_the_period() {
    let blinker = Blinker::new(true, 500);
    assert_eq!(
        blinker.round(),
        vec![
            BlinkAction::Drive(Level::High),
            BlinkAction::Wait(250),
            BlinkAction::Drive(Level::Low),
            BlinkAction::Wait(250),
        ]
    );
}

#[test]
fn a_half_period_is_at_least_ten_milliseconds() {
    let blinker = Blinker::new(true, 7);
    assert_eq!(
        blinker.round(),
        vec![
            BlinkAction::Drive(Level::High),
            BlinkAction::Wait(10),
            BlinkAction::Drive(Level::Low),
            BlinkAction::Wait(10),
        ]
    );
}

#[test]
fn a_half_period_keeps_its_low_32_bits() {
    let blinker = Blinker::new(true, (1u64 << 33) + 600);
    assert_eq!(
        blinker.round(),
        vec![
            BlinkAction::Drive(Level::High),
            BlinkAction::Wait(300),
            BlinkAction::Drive(Level::Low),
            BlinkAction::Wait(300),
        ]
    );
}

#[test]
fn a_disabled_blinker_rests() {
    let blinker = Blinker::new(false, 500);
    assert_eq!(IDLE_DELAY_MS, 100);
    assert_eq!(blinker.round(), vec![BlinkAction::Drive(Level::Low), BlinkAction::Wait(100)]);
}

#[test]
fn a_dead_blink_worker_returns_the_command() {
    let (tx, rx) = channel();
    let handle = BlinkHandle::new(tx);
    drop(rx);
    assert_eq!(
        handle.clone().update_config(true, 20),
        Err(Disconnected { command: BlinkEvent::UpdateConfig { enabled: true, period_ms: 50 } })
    );
}
