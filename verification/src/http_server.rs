//! The control surface: what a request asks of the workers.
//!
//! The surface is a small web form. A request to the settings route
//! carries the blink configuration in its query, and a request to the
//! display route carries a text. Reading a query is done here, on the
//! bytes of the request target; serving pages and persisting the
//! configuration are not.

use crate::blinker::{clamp_period, clamped_period};
use crate::text::{decode_lossy, lossy_text};
use vstd::prelude::*;
use vstd::slice::slice_subrange;

verus! {

/// The blink period of a device that has none stored, in milliseconds.
pub const DEFAULT_PERIOD_MS: u64 = 500;

/// `?`, which starts the query of a request target.
pub const QUESTION: u8 = 0x3f;

/// `&`, which separates the pairs of a query.
pub const AMPERSAND: u8 = 0x26;

/// `=`, which separates key and value of a pair.
pub const EQUALS: u8 = 0x3d;

/// `+`, which stands for a space in a value.
pub const PLUS: u8 = 0x2b;

/// `%`, which starts an escape in a value.
pub const PERCENT: u8 = 0x25;

/// A space.
pub const SPACE: u8 = 0x20;

/// The blink configuration.
#[derive(Clone, Copy, Debug, PartialEq, Eq, Structural)]
pub struct BlinkConfig {
    pub enabled: bool,
    pub period_ms: u64,
}

/// The blink configuration as it is kept in persistent storage.
#[derive(Clone, Copy, Debug, PartialEq, Eq, Structural)]
pub struct StoredConfig {
    pub enabled: u8,
    pub period_ms: u32,
}

/// The configuration that stored values stand for: blinking is on unless
/// a zero is stored, and the period is `DEFAULT_PERIOD_MS` unless one is
/// stored.
pub open spec fn loaded(stored_enabled: Option<u8>, stored_period_ms: Option<u32>) -> BlinkConfig {
    BlinkConfig {
        enabled: match stored_enabled {
            Some(b) => b != 0,
            None => true,
        },
        period_ms: match stored_period_ms {
            Some(p) => p as u64,
            None => DEFAULT_PERIOD_MS,
        },
    }
}

/// The values that are stored for a configuration: one or zero, and the
/// low 32 bits of the period.
pub open spec fn saved(config: BlinkConfig) -> StoredConfig {
    StoredConfig {
        enabled: if config.enabled {
            1
        } else {
            0
        },
        period_ms: (config.period_ms % 0x1_0000_0000) as u32,
    }
}

impl BlinkConfig {
    /// The configuration for what was found in storage; `None` stands for
    /// a value that is missing or could not be read.
    pub fn load(stored_enabled: Option<u8>, stored_period_ms: Option<u32>) -> (r: Self)
        ensures
            r == loaded(stored_enabled, stored_period_ms),
    {
        let enabled = match stored_enabled {
            Some(b) => b != 0,
            None => true,
        };
        let period_ms: u64 = match stored_period_ms {
            Some(p) => p as u64,
            None => DEFAULT_PERIOD_MS,
        };
        BlinkConfig { enabled, period_ms }
    }

    /// The values to put in storage.
    pub fn save(&self) -> (r: StoredConfig)
        ensures
            r == saved(*self),
    {
        StoredConfig {
            enabled: if self.enabled {
                1
            } else {
                0
            },
            period_ms: (self.period_ms % 0x1_0000_0000) as u32,
        }
    }
}

/// What the control surface asks of the rest of the device.
#[derive(Debug, Clone, PartialEq, Eq)]
pub enum ServerEvent {
    /// Blink by this configuration from now on.
    ConfigUpdated(BlinkConfig),
    /// Show this text on the panel.
    DisplayText(String),
}

/// A `ServerEvent` as a mathematical value.
pub enum ServerEventView {
    ConfigUpdated(BlinkConfig),
    DisplayText(Seq<char>),
}

impl View for ServerEvent {
    type V = ServerEventView;

    open spec fn view(&self) -> ServerEventView {
        match self {
            ServerEvent::ConfigUpdated(config) => ServerEventView::ConfigUpdated(*config),
            ServerEvent::DisplayText(text) => ServerEventView::DisplayText(text@),
        }
    }
}

/// The view of an event that may be absent.
pub open spec fn server_event_view(ev: Option<ServerEvent>) -> Option<ServerEventView> {
    match ev {
        Some(e) => Some(e@),
        None => None,
    }
}

/// The index of the first `b` in `s`, or the length of `s` if there is
/// none.
pub open spec fn first_index(s: Seq<u8>, b: u8) -> int
    decreases s.len(),
{
    if s.len() == 0 || s[0] == b {
        0
    } else {
        1 + first_index(s.drop_first(), b)
    }
}

/// `first_index` is the least index that holds `b`.
pub proof fn lemma_first_index(s: Seq<u8>, b: u8)
    ensures
        0 <= first_index(s, b) <= s.len(),
        first_index(s, b) < s.len() ==> s[first_index(s, b)] == b,
        forall|i: int| 0 <= i < first_index(s, b) ==> s[i] != b,
    decreases s.len(),
{
    if s.len() == 0 || s[0] == b {
    } else {
        let rest = s.drop_first();
        lemma_first_index(rest, b);
        assert forall|i: int| 0 <= i < first_index(s, b) implies s[i] != b by {
            if i > 0 {
                assert(s[i] == rest[i - 1]);
            }
        }
    }
}

/// The least index is what `first_index` returns.
pub proof fn lemma_first_index_is(s: Seq<u8>, b: u8, n: int)
    requires
        0 <= n <= s.len(),
        forall|i: int| 0 <= i < n ==> s[i] != b,
        n < s.len() ==> s[n] == b,
    ensures
        first_index(s, b) == n,
    decreases s.len(),
{
    if n == 0 {
    } else {
        assert(s[0] != b);
        let rest = s.drop_first();
        assert forall|i: int| 0 <= i < n - 1 implies rest[i] != b by {
            assert(rest[i] == s[i + 1]);
        }
        lemma_first_index_is(rest, b, n - 1);
    }
}

/// The index of the first `b` in `s`, or the length of `s`.
pub fn find_byte(s: &[u8], b: u8) -> (r: usize)
    ensures
        r == first_index(s@, b),
        r <= s@.len(),
{
    let mut i: usize = 0;
    while i < s.len() && s[i] != b
        invariant
            i <= s.len(),
            forall|j: int| 0 <= j < i ==> s@[j] != b,
        decreases s.len() - i,
    {
        i = i + 1;
    }
    proof {
        lemma_first_index_is(s@, b, i as int);
    }
    i
}

/// What follows the first `b` in `s`: nothing, if there is no `b`.
pub open spec fn after_first(s: Seq<u8>, b: u8) -> Seq<u8> {
    if first_index(s, b) < s.len() {
        s.subrange(first_index(s, b) + 1, s.len() as int)
    } else {
        Seq::empty()
    }
}

/// The query of a request target: what follows its first `?`, if it has
/// one.
pub open spec fn query_of(uri: Seq<u8>) -> Option<Seq<u8>> {
    if first_index(uri, QUESTION) < uri.len() {
        Some(after_first(uri, QUESTION))
    } else {
        None
    }
}

/// The key of a pair: what stands before its first `=`.
pub open spec fn key_of(pair: Seq<u8>) -> Seq<u8> {
    pair.subrange(0, first_index(pair, EQUALS))
}

/// The value of a pair: what follows its first `=`.
pub open spec fn value_of(pair: Seq<u8>) -> Seq<u8> {
    after_first(pair, EQUALS)
}

/// The part of `s` after its first `b`.
fn tail_after(s: &[u8], b: u8) -> (r: &[u8])
    ensures
        r@ == after_first(s@, b),
{
    let i: usize = find_byte(s, b);
    if i < s.len() {
        slice_subrange(s, i + 1, s.len())
    } else {
        slice_subrange(s, 0, 0)
    }
}

/// The query of a request target.
pub fn query_part(uri: &[u8]) -> (r: Option<&[u8]>)
    ensures
        match r {
            Some(q) => query_of(uri@) == Some(q@),
            None => query_of(uri@) is None,
        },
{
    let i: usize = find_byte(uri, QUESTION);
    if i < uri.len() {
        Some(slice_subrange(uri, i + 1, uri.len()))
    } else {
        None
    }
}

/// A decimal digit.
pub open spec fn is_digit(b: u8) -> bool {
    0x30 <= b <= 0x39
}

/// The number that a string of decimal digits writes.
pub open spec fn decimal(digits: Seq<u8>) -> nat
    decreases digits.len(),
{
    if digits.len() == 0 {
        0
    } else {
        decimal(digits.drop_last()) * 10 + (digits.last() - 0x30) as nat
    }
}

/// `s` without a leading `+`.
pub open spec fn unsigned_part(s: Seq<u8>) -> Seq<u8> {
    if s.len() > 0 && s[0] == PLUS {
        s.drop_first()
    } else {
        s
    }
}

/// The number that `s` writes, as the standard library reads an unsigned
/// 64-bit number: an optional `+`, then one or more decimal digits and
/// nothing else, the number no larger than `u64::MAX`.
pub open spec fn parsed_u64(s: Seq<u8>) -> Option<u64> {
    let digits = unsigned_part(s);
    if digits.len() > 0 && (forall|i: int| 0 <= i < digits.len() ==> is_digit(digits[i]))
        && decimal(digits) <= u64::MAX {
        Some(decimal(digits) as u64)
    } else {
        None
    }
}

/// A number is no smaller than the number that a prefix of its digits
/// writes.
proof fn lemma_decimal_prefix(digits: Seq<u8>, n: int)
    requires
        0 <= n <= digits.len(),
        forall|i: int| 0 <= i < digits.len() ==> is_digit(digits[i]),
    ensures
        decimal(digits.subrange(0, n)) <= decimal(digits),
    decreases digits.len() - n,
{
    if n == digits.len() {
        assert(digits.subrange(0, n) =~= digits);
    } else {
        lemma_decimal_prefix(digits, n + 1);
        let longer = digits.subrange(0, n + 1);
        assert(longer.drop_last() =~= digits.subrange(0, n));
        assert(is_digit(digits[n]));
        assert(longer.last() == digits[n]);
    }
}

/// Reads an unsigned 64-bit number.
pub fn parse_u64(s: &[u8]) -> (r: Option<u64>)
    ensures
        r == parsed_u64(s@),
{
    let start: usize = if s.len() > 0 && s[0] == PLUS {
        1
    } else {
        0
    };
    let ghost digits = unsigned_part(s@);
    proof {
        assert(digits =~= s@.subrange(start as int, s@.len() as int));
    }
    if start == s.len() {
        return None;
    }
    let mut value: u64 = 0;
    let mut i: usize = start;
    while i < s.len()
        invariant
            start <= i <= s.len(),
            digits == unsigned_part(s@),
            digits == s@.subrange(start as int, s@.len() as int),
            forall|j: int| 0 <= j < i - start ==> is_digit(digits[j]),
            value == decimal(digits.subrange(0, i - start)),
        decreases s.len() - i,
    {
        let b: u8 = s[i];
        if b < 0x30 || b > 0x39 {
            proof {
                assert(digits[i - start] == b);
                assert(!is_digit(digits[i - start]));
            }
            return None;
        }
        let d: u64 = (b - 0x30) as u64;
        let ghost longer = digits.subrange(0, i - start + 1);
        proof {
            assert(longer.drop_last() =~= digits.subrange(0, i - start));
            assert(longer.last() == b);
            assert(decimal(longer) == value * 10 + d);
        }
        if value > (u64::MAX - d) / 10 {
            proof {
                assert(decimal(longer) > u64::MAX);
                if forall|j: int| 0 <= j < digits.len() ==> is_digit(digits[j]) {
                    lemma_decimal_prefix(digits, i - start + 1);
                }
            }
            return None;
        }
        value = value * 10 + d;
        i = i + 1;
    }
    proof {
        assert(digits.subrange(0, i - start) =~= digits);
    }
    Some(value)
}

/// The key `period`.
pub open spec fn is_period_key(key: Seq<u8>) -> bool {
    key == seq![0x70u8, 0x65u8, 0x72u8, 0x69u8, 0x6fu8, 0x64u8]
}

/// The key `enabled`.
pub open spec fn is_enabled_key(key: Seq<u8>) -> bool {
    key == seq![0x65u8, 0x6eu8, 0x61u8, 0x62u8, 0x6cu8, 0x65u8, 0x64u8]
}

/// The key `text`.
pub open spec fn is_text_key(key: Seq<u8>) -> bool {
    key == seq![0x74u8, 0x65u8, 0x78u8, 0x74u8]
}

/// The value `1`.
pub open spec fn is_one(value: Seq<u8>) -> bool {
    value == seq![0x31u8]
}

/// What a settings query asks for, as far as it has been read.
#[derive(Clone, Copy, Debug, PartialEq, Eq, Structural)]
pub struct SetRequest {
    /// The period asked for, clamped, if a readable one was given.
    pub period_ms: Option<u64>,
    /// Whether blinking was asked for, if the query speaks of it.
    pub enabled: Option<bool>,
}

/// The request after one more pair. A period that cannot be read is
/// passed over. Blinking is asked for by the value `1` and by no other.
pub open spec fn noted(req: SetRequest, pair: Seq<u8>) -> SetRequest {
    if is_period_key(key_of(pair)) {
        match parsed_u64(value_of(pair)) {
            Some(p) => SetRequest { period_ms: Some(clamped_period(p)), enabled: req.enabled },
            None => req,
        }
    } else if is_enabled_key(key_of(pair)) {
        SetRequest { period_ms: req.period_ms, enabled: Some(is_one(value_of(pair))) }
    } else {
        req
    }
}

/// The request after the pairs of `query`, read from left to right: a
/// later pair overrides an earlier one.
pub open spec fn set_request(query: Seq<u8>, req: SetRequest) -> SetRequest
    decreases query.len(),
{
    let i = first_index(query, AMPERSAND);
    let next = noted(req, query.subrange(0, i));
    if 0 <= i < query.len() {
        set_request(query.subrange(i + 1, query.len() as int), next)
    } else {
        next
    }
}

/// The configuration after a request: the period stays unless a new one
/// was given, and blinking is off unless it was asked for.
pub open spec fn configured(current: BlinkConfig, req: SetRequest) -> BlinkConfig {
    BlinkConfig {
        enabled: match req.enabled {
            Some(e) => e,
            None => false,
        },
        period_ms: match req.period_ms {
            Some(p) => p,
            None => current.period_ms,
        },
    }
}

/// What a request to the settings route leads to: with a query, the new
/// configuration; without one, nothing.
pub open spec fn set_event(uri: Seq<u8>, current: BlinkConfig) -> Option<ServerEventView> {
    match query_of(uri) {
        Some(query) => Some(
            ServerEventView::ConfigUpdated(
                configured(
                    current,
                    set_request(query, SetRequest { period_ms: None, enabled: None }),
                ),
            ),
        ),
        None => None,
    }
}

fn is_period(key: &[u8]) -> (r: bool)
    ensures
        r == is_period_key(key@),
{
    let r = key.len() == 6 && key[0] == 0x70 && key[1] == 0x65 && key[2] == 0x72 && key[3] == 0x69
        && key[4] == 0x6f && key[5] == 0x64;
    proof {
        if r {
            assert(key@ =~= seq![0x70u8, 0x65u8, 0x72u8, 0x69u8, 0x6fu8, 0x64u8]);
        }
    }
    r
}

fn is_enabled(key: &[u8]) -> (r: bool)
    ensures
        r == is_enabled_key(key@),
{
    let r = key.len() == 7 && key[0] == 0x65 && key[1] == 0x6e && key[2] == 0x61 && key[3] == 0x62
        && key[4] == 0x6c && key[5] == 0x65 && key[6] == 0x64;
    proof {
        if r {
            assert(key@ =~= seq![0x65u8, 0x6eu8, 0x61u8, 0x62u8, 0x6cu8, 0x65u8, 0x64u8]);
        }
    }
    r
}

fn is_text(key: &[u8]) -> (r: bool)
    ensures
        r == is_text_key(key@),
{
    let r = key.len() == 4 && key[0] == 0x74 && key[1] == 0x65 && key[2] == 0x78 && key[3] == 0x74;
    proof {
        if r {
            assert(key@ =~= seq![0x74u8, 0x65u8, 0x78u8, 0x74u8]);
        }
    }
    r
}

/// The key of a pair.
fn pair_key(pair: &[u8]) -> (r: &[u8])
    ensures
        r@ == key_of(pair@),
{
    let i: usize = find_byte(pair, EQUALS);
    slice_subrange(pair, 0, i)
}

/// Takes one pair of a settings query.
pub fn note_pair(req: SetRequest, pair: &[u8]) -> (r: SetRequest)
    ensures
        r == noted(req, pair@),
{
    let key = pair_key(pair);
    let value = tail_after(pair, EQUALS);
    if is_period(key) {
        match parse_u64(value) {
            Some(p) => SetRequest { period_ms: Some(clamp_period(p)), enabled: req.enabled },
            None => req,
        }
    } else if is_enabled(key) {
        let one = value.len() == 1 && value[0] == 0x31;
        proof {
            if one {
                assert(value@ =~= seq![0x31u8]);
            }
        }
        SetRequest { period_ms: req.period_ms, enabled: Some(one) }
    } else {
        req
    }
}

/// Reads a settings query.
pub fn read_set_query(query: &[u8]) -> (r: SetRequest)
    ensures
        r == set_request(query@, SetRequest { period_ms: None, enabled: None }),
{
    let mut req = SetRequest { period_ms: None, enabled: None };
    let mut rest: &[u8] = query;
    loop
        invariant
            set_request(rest@, req) == set_request(
                query@,
                SetRequest { period_ms: None, enabled: None },
            ),
        ensures
            req == set_request(query@, SetRequest { period_ms: None, enabled: None }),
        decreases rest@.len(),
    {
        let i: usize = find_byte(rest, AMPERSAND);
        req = note_pair(req, slice_subrange(rest, 0, i));
        if i >= rest.len() {
            break ;
        }
        rest = slice_subrange(rest, i + 1, rest.len());
    }
    req
}

/// What a request to the settings route leads to.
pub fn on_set(uri: &[u8], current: BlinkConfig) -> (ev: Option<ServerEvent>)
    ensures
        server_event_view(ev) == set_event(uri@, current),
{
    match query_part(uri) {
        Some(query) => {
            let req = read_set_query(query);
            let enabled = match req.enabled {
                Some(e) => e,
                None => false,
            };
            let period_ms: u64 = match req.period_ms {
                Some(p) => p,
                None => current.period_ms,
            };
            Some(ServerEvent::ConfigUpdated(BlinkConfig { enabled, period_ms }))
        },
        None => None,
    }
}

/// The value of the first pair of `query` whose key is `text`.
pub open spec fn text_value(query: Seq<u8>) -> Option<Seq<u8>>
    decreases query.len(),
{
    let i = first_index(query, AMPERSAND);
    let pair = query.subrange(0, i);
    if is_text_key(key_of(pair)) {
        Some(value_of(pair))
    } else if 0 <= i < query.len() {
        text_value(query.subrange(i + 1, query.len() as int))
    } else {
        None
    }
}

/// `value` with every `+` replaced by a space.
pub open spec fn spaced(value: Seq<u8>) -> Seq<u8> {
    Seq::new(
        value.len(),
        |i: int|
            if value[i] == PLUS {
                SPACE
            } else {
                value[i]
            },
    )
}

/// `s` starts with the escape `%20`.
pub open spec fn starts_with_escape(s: Seq<u8>) -> bool {
    s.len() >= 3 && s[0] == PERCENT && s[1] == 0x32 && s[2] == 0x30
}

/// `s` with every `%20` replaced by a space, from left to right.
pub open spec fn unescaped(s: Seq<u8>) -> Seq<u8>
    decreases s.len(),
{
    if starts_with_escape(s) {
        seq![SPACE] + unescaped(s.subrange(3, s.len() as int))
    } else if s.len() > 0 {
        seq![s[0]] + unescaped(s.drop_first())
    } else {
        Seq::empty()
    }
}

/// The text that a value stands for: `+` and `%20` are spaces, and the
/// bytes are read as UTF-8, lossily.
pub open spec fn value_text(value: Seq<u8>) -> Seq<char> {
    lossy_text(unescaped(spaced(value)))
}

/// What a request to the display route leads to: the text of the first
/// `text` pair of its query, if there is one.
pub open spec fn display_event(uri: Seq<u8>) -> Option<ServerEventView> {
    match query_of(uri) {
        Some(query) => match text_value(query) {
            Some(value) => Some(ServerEventView::DisplayText(value_text(value))),
            None => None,
        },
        None => None,
    }
}

/// The value of the first `text` pair of a query.
pub fn find_text(query: &[u8]) -> (r: Option<&[u8]>)
    ensures
        match r {
            Some(value) => text_value(query@) == Some(value@),
            None => text_value(query@) is None,
        },
{
    let mut rest: &[u8] = query;
    loop
        invariant
            text_value(rest@) == text_value(query@),
        decreases rest@.len(),
    {
        let i: usize = find_byte(rest, AMPERSAND);
        let pair = slice_subrange(rest, 0, i);
        if is_text(pair_key(pair)) {
            return Some(tail_after(pair, EQUALS));
        }
        if i >= rest.len() {
            return None;
        }
        rest = slice_subrange(rest, i + 1, rest.len());
    }
}

/// Replaces every `+` by a space.
pub fn replace_plus(value: &[u8]) -> (r: Vec<u8>)
    ensures
        r@ == spaced(value@),
{
    let mut out: Vec<u8> = Vec::new();
    let mut i: usize = 0;
    while i < value.len()
        invariant
            i <= value.len(),
            out@ == spaced(value@).subrange(0, i as int),
        decreases value.len() - i,
    {
        let b: u8 = value[i];
        out.push(if b == PLUS {
            SPACE
        } else {
            b
        });
        proof {
            assert(out@ =~= spaced(value@).subrange(0, i as int + 1));
        }
        i = i + 1;
    }
    proof {
        assert(out@ =~= spaced(value@));
    }
    out
}

/// Replaces every `%20` by a space.
pub fn replace_escape(s: &[u8]) -> (r: Vec<u8>)
    ensures
        r@ == unescaped(s@),
{
    let mut out: Vec<u8> = Vec::new();
    let mut i: usize = 0;
    proof {
        assert(s@.subrange(0, s@.len() as int) =~= s@);
    }
    while i < s.len()
        invariant
            i <= s.len(),
            out@ + unescaped(s@.subrange(i as int, s@.len() as int)) == unescaped(s@),
        decreases s.len() - i,
    {
        let ghost rest = s@.subrange(i as int, s@.len() as int);
        let ghost before = out@;
        if s.len() - i >= 3 && s[i] == PERCENT && s[i + 1] == 0x32 && s[i + 2] == 0x30 {
            out.push(SPACE);
            proof {
                assert(starts_with_escape(rest));
                assert(rest.subrange(3, rest.len() as int) =~= s@.subrange(
                    i as int + 3,
                    s@.len() as int,
                ));
                assert(out@ + unescaped(s@.subrange(i as int + 3, s@.len() as int)) =~= before + (
                seq![SPACE] + unescaped(rest.subrange(3, rest.len() as int))));
            }
            i = i + 3;
        } else {
            out.push(s[i]);
            proof {
                assert(!starts_with_escape(rest));
                assert(rest.drop_first() =~= s@.subrange(i as int + 1, s@.len() as int));
                assert(out@ + unescaped(s@.subrange(i as int + 1, s@.len() as int)) =~= before + (
                seq![rest[0]] + unescaped(rest.drop_first())));
            }
            i = i + 1;
        }
    }
    proof {
        assert(s@.subrange(i as int, s@.len() as int) =~= Seq::<u8>::empty());
        assert(out@ + Seq::<u8>::empty() =~= out@);
    }
    out
}

/// What a request to the display route leads to.
pub fn on_display(uri: &[u8]) -> (ev: Option<ServerEvent>)
    ensures
        server_event_view(ev) == display_event(uri@),
{
    match query_part(uri) {
        Some(query) => match find_text(query) {
            Some(value) => {
                let with_spaces = replace_plus(value);
                let plain = replace_escape(with_spaces.as_slice());
                Some(ServerEvent::DisplayText(decode_lossy(plain.as_slice())))
            },
            None => None,
        },
        None => None,
    }
}

} // verus!
