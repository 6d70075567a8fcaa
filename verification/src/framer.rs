//! Framing of the scanner's byte stream into scan events.
//!
//! The scanner sends each code as a line. A line ends at a carriage return
//! or a line feed. Bytes are gathered in a buffer of at most
//! `MAX_CODE_LEN` bytes; a line that does not fit is discarded and
//! reported.

use crate::text::{
    ascii_text, decode_lossy, is_ascii_bytes, is_white_space, lemma_ascii_decodes, lemma_trimmed,
    lossy_text, trim, trimmed,
};
use vstd::prelude::*;
use vstd::string::StringExecFns;

verus! {

/// The longest line, in bytes, that the framer keeps.
pub const MAX_CODE_LEN: usize = 128;

/// Carriage return.
pub const CR: u8 = 0x0d;

/// Line feed.
pub const LF: u8 = 0x0a;

/// What the scanner worker reports to its consumer.
#[derive(Debug, Clone, PartialEq, Eq)]
pub enum BarcodeEvent {
    /// A scanned code, as text without surrounding white space.
    Scanned(String),
    /// A fault that the worker survived.
    Error(String),
}

/// A `BarcodeEvent` as a mathematical value.
pub enum EventView {
    Scanned(Seq<char>),
    Error(Seq<char>),
}

impl View for BarcodeEvent {
    type V = EventView;

    open spec fn view(&self) -> EventView {
        match self {
            BarcodeEvent::Scanned(s) => EventView::Scanned(s@),
            BarcodeEvent::Error(s) => EventView::Error(s@),
        }
    }
}

/// The view of an event that may be absent.
pub open spec fn event_view(ev: Option<BarcodeEvent>) -> Option<EventView> {
    match ev {
        Some(e) => Some(e@),
        None => None,
    }
}

/// The views of a list of events, in order.
pub open spec fn events_view(evs: Seq<BarcodeEvent>) -> Seq<EventView> {
    evs.map_values(|e: BarcodeEvent| e@)
}

/// Carriage return and line feed end a line.
pub open spec fn is_terminator(b: u8) -> bool {
    b == CR || b == LF
}

/// The report for a line that outgrew the buffer.
pub open spec fn overflow_event() -> EventView {
    EventView::Error("Barcode too long"@)
}

/// What a finished line yields: its text, decoded and trimmed, unless
/// nothing is left of it.
pub open spec fn line_event(line: Seq<u8>) -> Option<EventView> {
    let text = trimmed(lossy_text(line));
    if line.len() > 0 && text.len() > 0 {
        Some(EventView::Scanned(text))
    } else {
        None
    }
}

/// One step of the framer: the buffer after byte `b`, and the event that
/// the byte gives rise to.
pub open spec fn step(line: Seq<u8>, b: u8) -> (Seq<u8>, Option<EventView>) {
    if is_terminator(b) {
        (Seq::empty(), line_event(line))
    } else if line.len() < MAX_CODE_LEN {
        (line.push(b), None)
    } else {
        (Seq::empty(), Some(overflow_event()))
    }
}

/// The framer run over `input`, starting with `line` in the buffer: the
/// buffer at the end, and the events in the order in which they arise.
pub open spec fn run(line: Seq<u8>, input: Seq<u8>) -> (Seq<u8>, Seq<EventView>)
    decreases input.len(),
{
    if input.len() == 0 {
        (line, Seq::empty())
    } else {
        let first = step(line, input[0]);
        let rest = run(first.0, input.drop_first());
        match first.1 {
            Some(ev) => (rest.0, seq![ev] + rest.1),
            None => rest,
        }
    }
}

/// The line buffer of the scanner worker.
pub struct LineFramer {
    line: Vec<u8>,
}

impl View for LineFramer {
    type V = Seq<u8>;

    /// The bytes of the unfinished line.
    closed spec fn view(&self) -> Seq<u8> {
        self.line@
    }
}

impl LineFramer {
    #[verifier::type_invariant]
    spec fn within_capacity(self) -> bool {
        self.line@.len() <= MAX_CODE_LEN
    }

    /// An empty buffer.
    pub fn new() -> (r: Self)
        ensures
            r@ == Seq::<u8>::empty(),
    {
        LineFramer { line: Vec::with_capacity(MAX_CODE_LEN) }
    }

    /// The number of bytes of the unfinished line.
    pub fn len(&self) -> (n: usize)
        ensures
            n == self@.len(),
            n <= MAX_CODE_LEN,
    {
        proof {
            use_type_invariant(self);
        }
        self.line.len()
    }

    /// Takes one byte from the stream.
    pub fn push(&mut self, b: u8) -> (ev: Option<BarcodeEvent>)
        ensures
            final(self)@ == step(old(self)@, b).0,
            event_view(ev) == step(old(self)@, b).1,
            final(self)@.len() <= MAX_CODE_LEN,
    {
        proof {
            use_type_invariant(&*self);
        }
        let mut line: Vec<u8> = Vec::new();
        core::mem::swap(&mut self.line, &mut line);
        let ev = if b == CR || b == LF {
            if line.len() > 0 {
                let text = decode_lossy(line.as_slice());
                let code = trim(text.as_str());
                line.clear();
                if code.unicode_len() > 0 {
                    Some(BarcodeEvent::Scanned(String::from_str(code)))
                } else {
                    None
                }
            } else {
                None
            }
        } else if line.len() < MAX_CODE_LEN {
            line.push(b);
            None
        } else {
            line.clear();
            Some(BarcodeEvent::Error(String::from_str("Barcode too long")))
        };
        self.line = line;
        ev
    }

    /// Takes a chunk of the stream, byte by byte, and returns the events
    /// in the order in which they arise.
    pub fn feed(&mut self, bytes: &[u8]) -> (evs: Vec<BarcodeEvent>)
        ensures
            final(self)@ == run(old(self)@, bytes@).0,
            events_view(evs@) == run(old(self)@, bytes@).1,
            final(self)@.len() <= MAX_CODE_LEN,
    {
        let mut evs: Vec<BarcodeEvent> = Vec::new();
        let mut i: usize = 0;
        proof {
            use_type_invariant(&*self);
            assert(bytes@.subrange(0, 0) =~= Seq::<u8>::empty());
            assert(events_view(evs@) =~= Seq::<EventView>::empty());
        }
        while i < bytes.len()
            invariant
                i <= bytes.len(),
                self@ == run(old(self)@, bytes@.subrange(0, i as int)).0,
                events_view(evs@) == run(old(self)@, bytes@.subrange(0, i as int)).1,
                self@.len() <= MAX_CODE_LEN,
            decreases bytes.len() - i,
        {
            let ghost seen = evs@;
            let ev = self.push(bytes[i]);
            proof {
                lemma_run_push(old(self)@, bytes@.subrange(0, i as int), bytes@[i as int]);
                assert(bytes@.subrange(0, i as int).push(bytes@[i as int]) =~= bytes@.subrange(
                    0,
                    i as int + 1,
                ));
            }
            match ev {
                Some(e) => {
                    evs.push(e);
                    proof {
                        assert(events_view(evs@) =~= events_view(seen).push(e@));
                    }
                },
                None => {},
            }
            i = i + 1;
        }
        proof {
            assert(bytes@.subrange(0, i as int) =~= bytes@);
        }
        evs
    }
}

/// A scan is never empty and neither starts nor ends with white space.
pub proof fn lemma_scan_is_trimmed(line: Seq<u8>, b: u8)
    ensures
        step(line, b).1 matches Some(EventView::Scanned(text)) ==> text.len() > 0
            && !is_white_space(text[0]) && !is_white_space(text.last()),
{
    lemma_trimmed(lossy_text(line));
}

/// Running over `input` and then one more byte is running over `input`
/// and taking one more step.
pub proof fn lemma_run_push(line: Seq<u8>, input: Seq<u8>, b: u8)
    ensures
        run(line, input.push(b)).0 == step(run(line, input).0, b).0,
        run(line, input.push(b)).1 == match step(run(line, input).0, b).1 {
            Some(ev) => run(line, input).1.push(ev),
            None => run(line, input).1,
        },
    decreases input.len(),
{
    if input.len() == 0 {
        assert(input.push(b).drop_first() =~= Seq::<u8>::empty());
        let s = step(line, b);
        assert(run(s.0, Seq::<u8>::empty()) == (s.0, Seq::<EventView>::empty()));
        match s.1 {
            Some(ev) => {
                assert(seq![ev] + Seq::<EventView>::empty() =~= Seq::<EventView>::empty().push(ev));
            },
            None => {},
        }
    } else {
        let first = step(line, input[0]);
        assert(input.push(b).drop_first() =~= input.drop_first().push(b));
        lemma_run_push(first.0, input.drop_first(), b);
        let rest = run(first.0, input.drop_first());
        let last = step(rest.0, b);
        match (first.1, last.1) {
            (Some(e0), Some(e1)) => {
                assert(seq![e0] + rest.1.push(e1) =~= (seq![e0] + rest.1).push(e1));
            },
            _ => {},
        }
    }
}

/// Running over two chunks in turn is running over their concatenation:
/// the framer keeps no state but its buffer.
pub proof fn lemma_run_concat(line: Seq<u8>, a: Seq<u8>, b: Seq<u8>)
    ensures
        run(line, a + b).0 == run(run(line, a).0, b).0,
        run(line, a + b).1 == run(line, a).1 + run(run(line, a).0, b).1,
    decreases b.len(),
{
    let mid = run(line, a);
    if b.len() == 0 {
        assert(a + b =~= a);
        assert(mid.1 + Seq::<EventView>::empty() =~= mid.1);
    } else {
        let front = b.drop_last();
        let x = b.last();
        assert(b =~= front.push(x));
        assert(a + b =~= (a + front).push(x));
        lemma_run_concat(line, a, front);
        lemma_run_push(line, a + front, x);
        lemma_run_push(mid.0, front, x);
        let before = run(mid.0, front);
        match step(before.0, x).1 {
            Some(ev) => {
                assert((mid.1 + before.1).push(ev) =~= mid.1 + before.1.push(ev));
            },
            None => {},
        }
    }
}

/// No byte of `seg` ends a line.
pub open spec fn no_terminator(seg: Seq<u8>) -> bool {
    forall|i: int| 0 <= i < seg.len() ==> !is_terminator(#[trigger] seg[i])
}

/// Bytes that fit are gathered without any event.
pub proof fn lemma_run_gathers(line: Seq<u8>, seg: Seq<u8>)
    requires
        no_terminator(seg),
        line.len() + seg.len() <= MAX_CODE_LEN,
    ensures
        run(line, seg) == (line + seg, Seq::<EventView>::empty()),
    decreases seg.len(),
{
    if seg.len() == 0 {
        assert(line + seg =~= line);
    } else {
        let front = seg.drop_last();
        let x = seg.last();
        assert(seg =~= front.push(x));
        assert(no_terminator(front)) by {
            assert forall|i: int| 0 <= i < front.len() implies !is_terminator(
                #[trigger] front[i],
            ) by {
                assert(front[i] == seg[i]);
            }
        }
        lemma_run_gathers(line, front);
        lemma_run_push(line, front, x);
        assert(!is_terminator(seg[seg.len() - 1]));
        assert((line + front).push(x) =~= line + seg);
    }
}

/// The events of a finished line, as a list of at most one event.
pub open spec fn line_events(seg: Seq<u8>) -> Seq<EventView> {
    match line_event(seg) {
        Some(ev) => seq![ev],
        None => Seq::empty(),
    }
}

/// A line that fits, followed by its terminator, yields the event of that
/// line and leaves the buffer empty.
pub proof fn lemma_run_line(seg: Seq<u8>, t: u8)
    requires
        no_terminator(seg),
        seg.len() <= MAX_CODE_LEN,
        is_terminator(t),
    ensures
        run(Seq::empty(), seg.push(t)) == (Seq::<u8>::empty(), line_events(seg)),
{
    let empty = Seq::<u8>::empty();
    lemma_run_gathers(empty, seg);
    assert(empty + seg =~= seg);
    lemma_run_push(empty, seg, t);
    match line_event(seg) {
        Some(ev) => {
            assert(Seq::<EventView>::empty().push(ev) =~= seq![ev]);
        },
        None => {},
    }
}

/// The stream in which each segment is followed by its terminator.
pub open spec fn joined(segments: Seq<Seq<u8>>, terms: Seq<u8>) -> Seq<u8>
    decreases segments.len(),
{
    if segments.len() == 0 {
        Seq::empty()
    } else {
        segments[0].push(terms[0]) + joined(segments.drop_first(), terms.drop_first())
    }
}

/// The events of the segments' lines, in the order of the segments.
pub open spec fn framed(segments: Seq<Seq<u8>>) -> Seq<EventView>
    decreases segments.len(),
{
    if segments.len() == 0 {
        Seq::empty()
    } else {
        line_events(segments[0]) + framed(segments.drop_first())
    }
}

/// Every segment fits the buffer and holds no terminator, and every
/// segment has a terminator to follow it.
pub open spec fn well_separated(segments: Seq<Seq<u8>>, terms: Seq<u8>) -> bool {
    &&& segments.len() == terms.len()
    &&& forall|i: int| 0 <= i < terms.len() ==> is_terminator(#[trigger] terms[i])
    &&& forall|i: int|
        0 <= i < segments.len() ==> no_terminator(#[trigger] segments[i]) && segments[i].len()
            <= MAX_CODE_LEN
}

/// A stream of lines that fit yields, in input order, exactly the events
/// of its lines, and ends with an empty buffer.
pub proof fn lemma_lines_framed(segments: Seq<Seq<u8>>, terms: Seq<u8>)
    requires
        well_separated(segments, terms),
    ensures
        run(Seq::empty(), joined(segments, terms)) == (Seq::<u8>::empty(), framed(segments)),
    decreases segments.len(),
{
    if segments.len() > 0 {
        let rest = segments.drop_first();
        let rest_terms = terms.drop_first();
        assert(well_separated(rest, rest_terms)) by {
            assert forall|i: int| 0 <= i < rest_terms.len() implies is_terminator(
                #[trigger] rest_terms[i],
            ) by {
                assert(rest_terms[i] == terms[i + 1]);
            }
            assert forall|i: int| 0 <= i < rest.len() implies no_terminator(#[trigger] rest[i])
                && rest[i].len() <= MAX_CODE_LEN by {
                assert(rest[i] == segments[i + 1]);
            }
        }
        lemma_run_line(segments[0], terms[0]);
        lemma_lines_framed(rest, rest_terms);
        lemma_run_concat(
            Seq::empty(),
            segments[0].push(terms[0]),
            joined(rest, rest_terms),
        );
    }
}

/// A printable ASCII byte: a space or a visible character.
pub open spec fn is_printable(b: u8) -> bool {
    0x20 <= b <= 0x7e
}

/// Every byte of `seg` is printable ASCII.
pub open spec fn all_printable(seg: Seq<u8>) -> bool {
    forall|i: int| 0 <= i < seg.len() ==> is_printable(#[trigger] seg[i])
}

/// One scan per segment of which trimming leaves something: the segment's
/// characters without surrounding white space, in the order of the
/// segments.
pub open spec fn scans(segments: Seq<Seq<u8>>) -> Seq<EventView>
    decreases segments.len(),
{
    if segments.len() == 0 {
        Seq::empty()
    } else {
        let text = trimmed(ascii_text(segments[0]));
        let head = if text.len() > 0 {
            seq![EventView::Scanned(text)]
        } else {
            Seq::empty()
        };
        head + scans(segments.drop_first())
    }
}

/// For a stream of printable ASCII segments, each followed by a carriage
/// return or a line feed and none longer than the buffer, the framer
/// emits one scan per segment that is not blank, in input order, with the
/// segment's text trimmed of white space, and nothing else.
pub proof fn lemma_printable_lines_scanned(segments: Seq<Seq<u8>>, terms: Seq<u8>)
    requires
        segments.len() == terms.len(),
        forall|i: int| 0 <= i < terms.len() ==> is_terminator(#[trigger] terms[i]),
        forall|i: int|
            0 <= i < segments.len() ==> all_printable(#[trigger] segments[i]) && segments[i].len()
                <= MAX_CODE_LEN,
    ensures
        run(Seq::empty(), joined(segments, terms)) == (Seq::<u8>::empty(), scans(segments)),
{
    assert(well_separated(segments, terms)) by {
        assert forall|i: int| 0 <= i < segments.len() implies no_terminator(
            #[trigger] segments[i],
        ) && segments[i].len() <= MAX_CODE_LEN by {
            let seg = segments[i];
            assert(all_printable(seg));
            assert forall|j: int| 0 <= j < seg.len() implies !is_terminator(#[trigger] seg[j]) by {
                assert(is_printable(seg[j]));
            }
        }
    }
    lemma_lines_framed(segments, terms);
    lemma_framed_printable(segments);
}

/// On printable ASCII segments the events of the lines are the scans.
proof fn lemma_framed_printable(segments: Seq<Seq<u8>>)
    requires
        forall|i: int| 0 <= i < segments.len() ==> all_printable(#[trigger] segments[i]),
    ensures
        framed(segments) == scans(segments),
    decreases segments.len(),
{
    if segments.len() > 0 {
        let seg = segments[0];
        let rest = segments.drop_first();
        assert forall|i: int| 0 <= i < rest.len() implies all_printable(#[trigger] rest[i]) by {
            assert(rest[i] == segments[i + 1]);
        }
        lemma_framed_printable(rest);
        assert(all_printable(seg));
        assert(is_ascii_bytes(seg)) by {
            assert forall|j: int| 0 <= j < seg.len() implies #[trigger] seg[j] < 0x80 by {
                assert(is_printable(seg[j]));
            }
        }
        lemma_ascii_decodes(seg);
        if seg.len() == 0 {
            assert(ascii_text(seg) =~= Seq::<char>::empty());
        }
    }
}

/// The report of `n` overflows in a row.
pub open spec fn overflows(n: nat) -> Seq<EventView> {
    Seq::new(n, |i: int| overflow_event())
}

/// How often a run of `n` bytes without a terminator overflows the buffer.
pub open spec fn overflow_count(n: nat) -> nat {
    (n as int / (MAX_CODE_LEN as int + 1)) as nat
}

/// How many bytes of such a run are in the buffer at its end.
pub open spec fn kept_count(n: nat) -> int {
    n as int % (MAX_CODE_LEN as int + 1)
}

/// A run of `n` bytes without a terminator, taken into an empty buffer,
/// overflows once for every `MAX_CODE_LEN + 1` bytes and keeps what came
/// after the last overflow: the buffer heals itself and never holds more
/// than `MAX_CODE_LEN` bytes.
pub proof fn lemma_long_line(seg: Seq<u8>)
    requires
        no_terminator(seg),
    ensures
        run(Seq::empty(), seg).0 == seg.subrange(
            seg.len() - kept_count(seg.len()),
            seg.len() as int,
        ),
        run(Seq::empty(), seg).1 == overflows(overflow_count(seg.len())),
    decreases seg.len(),
{
    let empty = Seq::<u8>::empty();
    let n: nat = seg.len();
    if n == 0 {
        assert(seg.subrange(0, 0) =~= empty);
        assert(overflows(0) =~= Seq::<EventView>::empty());
    } else {
        let front = seg.drop_last();
        let x = seg.last();
        let m: nat = front.len();
        assert(seg =~= front.push(x));
        assert(no_terminator(front)) by {
            assert forall|i: int| 0 <= i < front.len() implies !is_terminator(
                #[trigger] front[i],
            ) by {
                assert(front[i] == seg[i]);
            }
        }
        lemma_long_line(front);
        lemma_run_push(empty, front, x);
        assert(!is_terminator(seg[n - 1]));
        let before = run(empty, front);
        assert(before.0.len() == kept_count(m));
        if kept_count(m) < MAX_CODE_LEN {
            assert(kept_count(n) == kept_count(m) + 1);
            assert(overflow_count(n) == overflow_count(m));
            assert(front.subrange(m - kept_count(m), m as int).push(x) =~= seg.subrange(
                n - kept_count(n),
                n as int,
            ));
        } else {
            assert(kept_count(n) == 0);
            assert(overflow_count(n) == overflow_count(m) + 1);
            assert(seg.subrange(n as int, n as int) =~= empty);
            assert(overflows(overflow_count(m)).push(overflow_event()) =~= overflows(
                overflow_count(n),
            ));
        }
    }
}

} // verus!
