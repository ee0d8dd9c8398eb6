//! Points in time and lengths of time.

use vstd::prelude::*;

use crate::text;

verus! {

/// A point in time: seconds since 1970 and the nanoseconds after them.
#[derive(Debug, Clone, Copy, PartialEq, Eq, Structural)]
pub struct Timestamp {
    pub secs: i64,
    pub nanos: u32,
}

impl Timestamp {
    /// Whether this point comes after the other.
    pub open spec fn after_spec(self, other: Timestamp) -> bool {
        self.secs > other.secs || (self.secs == other.secs && self.nanos > other.nanos)
    }

    /// Whether this point comes after the other.
    pub fn after(&self, other: &Timestamp) -> (r: bool)
        ensures
            r == self.after_spec(*other),
    {
        self.secs > other.secs || (self.secs == other.secs && self.nanos > other.nanos)
    }
}

/// The first second of the years that can be written, and the last.
pub const MIN_SECS: i64 = -8_334_601_228_800;

pub const MAX_SECS: i64 = 8_210_266_876_799;

/// The longest length of time that can be added, in seconds.
pub const MAX_SPAN_SECS: i64 = 9_223_372_036_854_775;

/// The point in time that an RFC 3339 text names.
pub uninterp spec fn rfc3339(s: Seq<char>) -> Option<Timestamp>;

/// The RFC 3339 text of a point in time, in UTC.
pub uninterp spec fn rfc3339_text(t: Timestamp) -> Seq<char>;

/// Calls `DateTime::parse_from_rfc3339` of `chrono`; `None` stands for an error.
#[verifier::external_body]
pub(crate) fn parse_rfc3339(s: &str) -> (r: Option<Timestamp>)
    ensures
        r == rfc3339(s@),
{
    match chrono::DateTime::parse_from_rfc3339(s) {
        Ok(t) => Some(Timestamp { secs: t.timestamp(), nanos: t.timestamp_subsec_nanos() }),
        Err(_) => None,
    }
}

/// Calls `DateTime::from_timestamp` and `to_rfc3339` of `chrono`, for a point in
/// the range that `chrono` can hold.
#[verifier::external_body]
pub(crate) fn format_rfc3339(t: Timestamp) -> (r: String)
    requires
        MIN_SECS <= t.secs <= MAX_SECS,
        t.nanos < 1_000_000_000,
    ensures
        r@ == rfc3339_text(t),
{
    chrono::DateTime::from_timestamp(t.secs, t.nanos).expect("in range").to_rfc3339()
}

/// The unit of a length of time.
#[derive(Debug, Clone, Copy, PartialEq, Eq, Structural)]
pub enum Unit {
    Second,
    Minute,
    Hour,
    Day,
}

/// A length of time: a count of units.
#[derive(Debug, Clone, Copy, PartialEq, Eq, Structural)]
pub struct Span {
    pub count: i64,
    pub unit: Unit,
}

/// Why a text is no length of time.
#[derive(Debug, Clone)]
pub enum SpanError {
    Number,
    Unit(String),
}

impl Unit {
    /// The length of the unit in seconds.
    pub open spec fn seconds_spec(self) -> int {
        match self {
            Unit::Second => 1,
            Unit::Minute => 60,
            Unit::Hour => 3600,
            Unit::Day => 86400,
        }
    }
}

impl Span {
    /// The length in seconds.
    pub open spec fn seconds_spec(self) -> int {
        self.count * self.unit.seconds_spec()
    }

    /// The length in seconds.
    pub fn seconds(&self) -> (r: i128)
        ensures
            r == self.seconds_spec(),
    {
        let n: i128 = self.count as i128;
        match self.unit {
            Unit::Second => n,
            Unit::Minute => n * 60,
            Unit::Hour => n * 3600,
            Unit::Day => n * 86400,
        }
    }

    /// Whether the length can be added to the point in time.
    pub open spec fn fits_after(self, now: Timestamp) -> bool {
        &&& -MAX_SPAN_SECS <= self.seconds_spec() <= MAX_SPAN_SECS
        &&& MIN_SECS <= now.secs + self.seconds_spec() <= MAX_SECS
        &&& now.nanos < 1_000_000_000
    }

    /// The point in time this length after `now`.
    pub open spec fn after(self, now: Timestamp) -> Timestamp {
        Timestamp { secs: (now.secs + self.seconds_spec()) as i64, nanos: now.nanos }
    }
}

/// The unit that a text names.
pub open spec fn unit_of(s: Seq<char>) -> Option<Unit> {
    if s == "s"@ {
        Some(Unit::Second)
    } else if s == "m"@ {
        Some(Unit::Minute)
    } else if s == "h"@ {
        Some(Unit::Hour)
    } else if s == "d"@ {
        Some(Unit::Day)
    } else {
        None
    }
}

/// The count and the unit of a text: all but the last character, and that character.
pub open spec fn span_parts(s: Seq<char>) -> (Seq<char>, Seq<char>) {
    let t = text::trim_spec(s);
    if t.len() == 0 {
        (t, t)
    } else {
        (t.drop_last(), seq![t.last()])
    }
}

/// The length of time that a text names.
pub open spec fn span_of(s: Seq<char>) -> Option<Span> {
    let (count, unit) = span_parts(s);
    match text::parse_i64_spec(count) {
        None => None,
        Some(n) => match unit_of(unit) {
            None => None,
            Some(u) => Some(Span { count: n as i64, unit: u }),
        },
    }
}

/// Whether the last character of the trimmed text is ASCII, so that it can be
/// split off as one byte.
pub open spec fn splits_off_last(s: Seq<char>) -> bool {
    let t = text::trim_spec(s);
    t.len() == 0 || (t.last() as u32) < 128
}

/// The length of time that a text such as `90s`, `30m`, `24h` or `7d` names.
pub fn parse_span(s: &str) -> (r: Result<Span, SpanError>)
    requires
        splits_off_last(s@),
    ensures
        match r {
            Ok(span) => span_of(s@) == Some(span),
            Err(SpanError::Number) => text::parse_i64_spec(span_parts(s@).0) is None,
            Err(SpanError::Unit(u)) => text::parse_i64_spec(span_parts(s@).0) is Some && unit_of(
                span_parts(s@).1,
            ) is None && u@ == span_parts(s@).1,
        },
{
    let t = text::trim(s);
    let n: usize = t.unicode_len();
    let cut: usize = if n == 0 {
        0
    } else {
        n - 1
    };
    let count = text::take(t.as_str(), cut);
    let unit = text::skip(t.as_str(), cut);
    assert(count@ == span_parts(s@).0) by {
        if n == 0 {
            assert(count@ =~= t@);
        } else {
            assert(count@ =~= t@.drop_last());
        }
    }
    assert(unit@ == span_parts(s@).1) by {
        if n == 0 {
            assert(unit@ =~= t@);
        } else {
            assert(unit@ =~= seq![t@.last()]);
        }
    }
    match text::parse_i64(count.as_str()) {
        None => Err(SpanError::Number),
        Some(v) => if text::same(unit.as_str(), "s") {
            Ok(Span { count: v, unit: Unit::Second })
        } else if text::same(unit.as_str(), "m") {
            Ok(Span { count: v, unit: Unit::Minute })
        } else if text::same(unit.as_str(), "h") {
            Ok(Span { count: v, unit: Unit::Hour })
        } else if text::same(unit.as_str(), "d") {
            Ok(Span { count: v, unit: Unit::Day })
        } else {
            Err(SpanError::Unit(unit))
        },
    }
}

/// Whether a point in time can be counted from `now` by what a text says.
pub open spec fn countable(s: Seq<char>, now: Timestamp) -> bool {
    &&& splits_off_last(s)
    &&& span_of(s) matches Some(span) ==> span.fits_after(now)
}

/// Whether a point in time can be counted from `now` by what a text says.
pub fn can_expire(s: &str, now: Timestamp) -> (r: bool)
    ensures
        r == countable(s@, now),
{
    let t = text::trim(s);
    let n: usize = t.unicode_len();
    if n > 0 && t.as_str().get_char(n - 1) as u32 >= 128 {
        return false;
    }
    match parse_span(s) {
        Ok(span) => {
            let d: i128 = span.seconds();
            let at: i128 = now.secs as i128 + d;
            -(MAX_SPAN_SECS as i128) <= d && d <= MAX_SPAN_SECS as i128 && MIN_SECS as i128 <= at && at
                <= MAX_SECS as i128 && now.nanos < 1_000_000_000
        },
        Err(_) => true,
    }
}

/// The RFC 3339 text of the point in time a span after `now`.
pub fn span_after(span: &Span, now: Timestamp) -> (r: String)
    requires
        span.fits_after(now),
    ensures
        r@ == rfc3339_text(span.after(now)),
{
    let secs: i128 = now.secs as i128 + span.seconds();
    format_rfc3339(Timestamp { secs: secs as i64, nanos: now.nanos })
}

// ── Laws ────────────────────────────────────────────────────────────

/// A span lasts as long as it says.
pub proof fn law_span_lasts(n: i64, now: Timestamp)
    ensures
        (Span { count: n, unit: Unit::Second }).seconds_spec() == n,
        (Span { count: n, unit: Unit::Minute }).seconds_spec() == 60 * n,
        (Span { count: n, unit: Unit::Hour }).seconds_spec() == 3600 * n,
        (Span { count: n, unit: Unit::Day }).seconds_spec() == 86400 * n,
        forall|s: Span| #[trigger]
            s.fits_after(now) ==> s.after(now).secs == now.secs + s.seconds_spec() && s.after(
                now,
            ).nanos == now.nanos,
{
    assert forall|s: Span| #[trigger] s.fits_after(now) implies s.after(now).secs == now.secs
        + s.seconds_spec() && s.after(now).nanos == now.nanos by {
        assert(MIN_SECS <= now.secs + s.seconds_spec() <= MAX_SECS);
    }
}

/// A span is read as it is written: a number and the letter of its unit.
pub proof fn law_span_read(n: i64)
    ensures
        span_of(text::signed_decimal(n as int).push('s')) == Some(
            Span { count: n, unit: Unit::Second },
        ),
        span_of(text::signed_decimal(n as int).push('m')) == Some(
            Span { count: n, unit: Unit::Minute },
        ),
        span_of(text::signed_decimal(n as int).push('h')) == Some(
            Span { count: n, unit: Unit::Hour },
        ),
        span_of(text::signed_decimal(n as int).push('d')) == Some(
            Span { count: n, unit: Unit::Day },
        ),
{
    reveal_strlit("s");
    reveal_strlit("m");
    reveal_strlit("h");
    reveal_strlit("d");
    assert("s"@ =~= seq!['s'] && "m"@ =~= seq!['m'] && "h"@ =~= seq!['h'] && "d"@ =~= seq!['d']);
    assert(seq!['s'][0] == 's' && seq!['m'][0] == 'm' && seq!['h'][0] == 'h' && seq!['d'][0] == 'd');
    lemma_span_read(n, 's');
    lemma_span_read(n, 'm');
    lemma_span_read(n, 'h');
    lemma_span_read(n, 'd');
}

proof fn lemma_span_read(n: i64, c: char)
    requires
        'a' <= c <= 'z',
    ensures
        span_parts(text::signed_decimal(n as int).push(c)) == (
            text::signed_decimal(n as int),
            seq![c],
        ),
        text::parse_i64_spec(text::signed_decimal(n as int)) == Some(n as int),
{
    let d = text::signed_decimal(n as int);
    let s = d.push(c);
    text::law_signed_read_back(n);
    assert(d.len() > 0);
    assert(d[0] == '-' || ('0' <= d[0] && d[0] <= '9')) by {
        if n >= 0 && d[0] == '+' {
            text::lemma_decimal_value(n as nat);
        }
        if n >= 0 {
            text::lemma_decimal_value(n as nat);
        }
    }
    assert(s[0] == d[0]);
    assert(s.last() == c);
    text::law_trim(' ', s);
    assert(s.drop_last() =~= d);
}

/// Of two times one is after the other, unless they are the same.
pub proof fn law_times_ordered(a: Timestamp, b: Timestamp, c: Timestamp)
    ensures
        !(a.after_spec(b) && b.after_spec(a)),
        a.after_spec(b) || b.after_spec(a) || (a.secs == b.secs && a.nanos == b.nanos),
        a.after_spec(b) && b.after_spec(c) ==> a.after_spec(c),
        a.secs > b.secs ==> a.after_spec(b),
{
}

} // verus!
