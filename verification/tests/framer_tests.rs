use peripheral_workers::framer::{BarcodeEvent, LineFramer, MAX_CODE_LEN};

fn scanned(text: &str) -> BarcodeEvent {
    BarcodeEvent::Scanned(text.to_string())
}

fn too_long() -> BarcodeEvent {
    BarcodeEvent::Error("Barcode too long".to_string())
}

fn events_equal(got: &[BarcodeEvent], want: &[BarcodeEvent]) -> bool {
    got.len() == want.len()
        && got.iter().zip(want.iter()).all(|(g, w)| match (g, w) {
            (BarcodeEvent::Scanned(a), BarcodeEvent::Scanned(b)) => a == b,
            (BarcodeEvent::Error(a), BarcodeEvent::Error(b)) => a == b,
            _ => false,
        })
}

#[test]
fn two_lines_give_two_scans_in_order() {
    let mut framer = LineFramer::new();
    let events = framer.feed(b"ABC\r\nDEF\n");
    assert!(events_equal(&events, &[scanned("ABC"), scanned("DEF")]));
    assert_eq!(framer.len(), 0);
}

#[test]
fn terminators_alone_give_no_event() {
    let mut framer = LineFramer::new();
    let events = framer.feed(b"\r\n\r\n");
    assert!(events.is_empty());
    assert_eq!(framer.len(), 0);
}

#[test]
fn a_run_of_130_bytes_overflows_exactly_once() {
    let mut framer = LineFramer::new();
    let run = vec![b'A'; 130];
    let events = framer.feed(&run);
    assert!(events_equal(&events, &[too_long()]));
    assert_eq!(framer.len(), 1);
    let events = framer.feed(b"\nDEF\n");
    assert!(events_equal(&events, &[scanned("A"), scanned("DEF")]));
    assert_eq!(framer.len(), 0);
}

#[test]
fn the_overflowing_byte_is_dropped_with_the_buffer() {
    let mut framer = LineFramer::new();
    let run = vec![b'A'; 129];
    let events = framer.feed(&run);
    assert!(events_equal(&events, &[too_long()]));
    assert_eq!(framer.len(), 0);
    let events = framer.feed(b"DEF\n");
    assert!(events_equal(&events, &[scanned("DEF")]));
}

#[test]
fn a_line_of_full_capacity_is_scanned() {
    let mut framer = LineFramer::new();
    let mut stream = vec![b'7'; MAX_CODE_LEN];
    stream.push(b'\r');
    let events = framer.feed(&stream);
    assert!(events_equal(&events, &[scanned(&"7".repeat(128))]));
}

#[test]
fn a_long_run_overflows_once_per_129_bytes() {
    let mut framer = LineFramer::new();
    let run = vec![b'x'; 300];
    let events = framer.feed(&run);
    assert!(events_equal(&events, &[too_long(), too_long()]));
    assert_eq!(framer.len(), 300 % 129);
    assert_eq!(framer.len(), 42);
}

#[test]
fn surrounding_white_space_is_trimmed() {
    let mut framer = LineFramer::new();
    let events = framer.feed(b"  AB C \t\n");
    assert!(events_equal(&events, &[scanned("AB C")]));
}

#[test]
fn a_line_of_spaces_gives_no_event() {
    let mut framer = LineFramer::new();
    let events = framer.feed(b"    \nX\n");
    assert!(events_equal(&events, &[scanned("X")]));
}

#[test]
fn unicode_white_space_is_trimmed() {
    let mut framer = LineFramer::new();
    let events = framer.feed(&[0xc2, 0xa0, b'A', 0xe2, 0x80, 0x83, b'\n']);
    assert!(events_equal(&events, &[scanned("A")]));
}

#[test]
fn malformed_bytes_are_replaced() {
    let mut framer = LineFramer::new();
    let events = framer.feed(&[0xff, b'A', b'\n']);
    assert!(events_equal(&events, &[scanned("\u{fffd}A")]));
}

#[test]
fn push_reports_each_byte() {
    let mut framer = LineFramer::new();
    assert!(framer.push(b'4').is_none());
    assert!(framer.push(b'2').is_none());
    assert_eq!(framer.len(), 2);
    let event = framer.push(b'\n');
    assert!(matches!(event, Some(BarcodeEvent::Scanned(ref s)) if s == "42"));
    assert_eq!(framer.len(), 0);
    assert!(framer.push(b'\r').is_none());
}

#[test]
fn feeding_in_chunks_is_feeding_at_once() {
    let stream = b"12345\r\n  67 \n890";
    let mut whole = LineFramer::new();
    let all = whole.feed(stream);
    for cut in 0..=stream.len() {
        let mut parts = LineFramer::new();
        let mut events = parts.feed(&stream[..cut]);
        events.extend(parts.feed(&stream[cut..]));
        assert!(events_equal(&events, &all));
        assert_eq!(parts.len(), whole.len());
    }
    assert!(events_equal(&all, &[scanned("12345"), scanned("67")]));
    assert_eq!(whole.len(), 3);
}

#[test]
fn the_buffer_never_exceeds_its_capacity() {
    let mut framer = LineFramer::new();
    for i in 0..1000u32 {
        framer.push(b'a' + (i % 26) as u8);
        assert!(framer.len() <= MAX_CODE_LEN);
    }
}
