use peripheral_workers::barcode::{
    BarcodeHandle, BarcodeScanner, ControlMessage, ControlPin, Level, PinCommand, ReadOutcome,
    ScannerWorker, BAUD_RATE, READ_TIMEOUT_MS,
};
use peripheral_workers::channel::Disconnected;
use peripheral_workers::framer::BarcodeEvent;
use std::sync::mpsc::channel;

#[test]
fn the_trigger_line_is_active_low() {
    assert_eq!(
        ScannerWorker::on_control(ControlMessage::Trigger(true)),
        PinCommand { pin: ControlPin::Trigger, level: Level::Low }
    );
    assert_eq!(
        ScannerWorker::on_control(ControlMessage::Trigger(false)),
        PinCommand { pin: ControlPin::Trigger, level: Level::High }
    );
}

#[test]
fn light_and_beeper_are_active_high() {
    assert_eq!(
        ScannerWorker::on_control(ControlMessage::Led(true)),
        PinCommand { pin: ControlPin::Led, level: Level::High }
    );
    assert_eq!(
        ScannerWorker::on_control(ControlMessage::Led(false)),
        PinCommand { pin: ControlPin::Led, level: Level::Low }
    );
    assert_eq!(
        ScannerWorker::on_control(ControlMessage::Beep(true)),
        PinCommand { pin: ControlPin::Beep, level: Level::High }
    );
    assert_eq!(
        ScannerWorker::on_control(ControlMessage::Beep(false)),
        PinCommand { pin: ControlPin::Beep, level: Level::Low }
    );
}

#[test]
fn a_timeout_is_no_event() {
    let mut worker = ScannerWorker::new();
    assert!(worker.on_read(ReadOutcome::Received { count: 0, first: b'A' }).is_none());
    let event = worker.on_read(ReadOutcome::Received { count: 1, first: b'\n' });
    assert!(event.is_none());
}

#[test]
fn single_bytes_are_framed() {
    let mut worker = ScannerWorker::new();
    for b in b"  Z9 " {
        assert!(worker.on_read(ReadOutcome::Received { count: 1, first: *b }).is_none());
    }
    let event = worker.on_read(ReadOutcome::Received { count: 1, first: b'\r' });
    assert!(matches!(event, Some(BarcodeEvent::Scanned(ref s)) if s == "Z9"));
}

#[test]
fn a_read_of_another_size_is_ignored() {
    let mut worker = ScannerWorker::new();
    assert!(worker.on_read(ReadOutcome::Received { count: 1, first: b'A' }).is_none());
    assert!(worker.on_read(ReadOutcome::Received { count: 2, first: b'B' }).is_none());
    let event = worker.on_read(ReadOutcome::Received { count: 1, first: b'\n' });
    assert!(matches!(event, Some(BarcodeEvent::Scanned(ref s)) if s == "A"));
}

#[test]
fn a_failed_read_is_reported_and_survived() {
    let mut worker = ScannerWorker::new();
    assert!(worker.on_read(ReadOutcome::Received { count: 1, first: b'A' }).is_none());
    let event = worker.on_read(ReadOutcome::Failed("EspError(263)".to_string()));
    assert!(
        matches!(event, Some(BarcodeEvent::Error(ref s)) if s == "UART read error: EspError(263)")
    );
    let event = worker.on_read(ReadOutcome::Received { count: 1, first: b'\n' });
    assert!(matches!(event, Some(BarcodeEvent::Scanned(ref s)) if s == "A"));
}

#[test]
fn the_handle_enqueues_control_messages_in_order() {
    let (tx, rx) = channel();
    let handle = BarcodeHandle::new(tx);
    assert!(handle.set_trigger(true).is_ok());
    assert!(handle.set_led(false).is_ok());
    assert!(handle.set_beep(true).is_ok());
    assert_eq!(rx.try_recv().ok(), Some(ControlMessage::Trigger(true)));
    assert_eq!(rx.try_recv().ok(), Some(ControlMessage::Led(false)));
    assert_eq!(rx.try_recv().ok(), Some(ControlMessage::Beep(true)));
    assert!(rx.try_recv().is_err());
}

#[test]
fn a_send_to_a_dead_worker_returns_the_command() {
    let (tx, rx) = channel();
    let handle = BarcodeHandle::new(tx);
    drop(rx);
    assert_eq!(
        handle.set_trigger(false),
        Err(Disconnected { command: ControlMessage::Trigger(false) })
    );
    assert_eq!(handle.set_led(true), Err(Disconnected { command: ControlMessage::Led(true) }));
    assert_eq!(handle.set_beep(false), Err(Disconnected { command: ControlMessage::Beep(false) }));
}

#[test]
fn handles_of_one_scanner_share_one_queue() {
    let (tx, rx) = channel();
    let scanner = BarcodeScanner::new(BarcodeHandle::new(tx));
    let first = scanner.handle();
    let second = first.clone();
    assert!(first.set_led(true).is_ok());
    assert!(second.set_beep(true).is_ok());
    assert!(first.set_led(false).is_ok());
    assert_eq!(rx.try_recv().ok(), Some(ControlMessage::Led(true)));
    assert_eq!(rx.try_recv().ok(), Some(ControlMessage::Beep(true)));
    assert_eq!(rx.try_recv().ok(), Some(ControlMessage::Led(false)));
}

#[test]
fn serial_line_settings() {
    assert_eq!(BAUD_RATE, 9600);
    assert_eq!(READ_TIMEOUT_MS, 200);
}
