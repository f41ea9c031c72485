//! Points in time and time spans.
use std::time::Instant;
use vstd::prelude::*;

verus! {

/// `std::time::Instant`, a reading of the monotonic clock.
#[verifier::external_type_specification]
#[verifier::external_body]
pub struct ExInstant(Instant);

/// `std::time::Instant::now`: a reading of the monotonic clock. Nothing is
/// claimed of the reading.
pub assume_specification[ Instant::now ]() -> Instant;

/// The point on the monotonic clock that a `std::time::Instant` stands for, in
/// nanoseconds from wherever that clock counts.
pub uninterp spec fn reading(i: Instant) -> int;

/// The time span that `std::time::Instant::duration_since` gives from one
/// instant to another.
pub uninterp spec fn span_between(start: Instant, end: Instant) -> Span;

/// The time from one instant to another, in nanoseconds; none where the second
/// is the earlier one.
pub open spec fn nanos_between(start: Instant, end: Instant) -> nat {
    if reading(end) >= reading(start) {
        (reading(end) - reading(start)) as nat
    } else {
        0
    }
}

/// The whole microseconds in `nanos` nanoseconds, at most `u64::MAX`.
pub open spec fn capped_micros_in(nanos: nat) -> nat {
    if nanos / 1000 <= u64::MAX {
        nanos / 1000
    } else {
        u64::MAX as nat
    }
}

/// A point in time, in UTC, counted from the Unix epoch.
#[derive(Debug, Clone, Copy, PartialEq, Eq, Structural)]
pub struct Timestamp {
    pub secs: i64,
    /// Nanoseconds since the last whole second; a leap second reaches up to two
    /// billion.
    pub nanos: u32,
}

impl Timestamp {
    /// Whether the nanoseconds stay within the second, or within a leap second.
    pub open spec fn is_valid(self) -> bool {
        self.nanos < 2_000_000_000
    }
}

/// A time span.
#[derive(Debug, Clone, Copy, PartialEq, Eq, Structural)]
pub struct Span {
    pub secs: u64,
    /// Nanoseconds beyond the whole seconds.
    pub nanos: u32,
}

impl Span {
    /// The length of a time span in nanoseconds.
    pub open spec fn total_nanos(self) -> nat {
        (self.secs * 1_000_000_000 + self.nanos) as nat
    }

    /// The whole microseconds of a time span, at most `u64::MAX`.
    pub open spec fn capped(self) -> nat {
        capped_micros_in(self.total_nanos())
    }

    /// The whole microseconds of a time span, at most `u64::MAX`.
    pub fn capped_micros(&self) -> (us: u64)
        ensures
            us == self.capped(),
    {
        let us: u128 = (self.secs as u128) * 1_000_000 + (self.nanos / 1000) as u128;
        if us <= u64::MAX as u128 {
            us as u64
        } else {
            u64::MAX
        }
    }
}

/// `std::time::Instant::duration_since`: the time from `start` to `end`, or no
/// time where `start` is the later one, as whole seconds and the nanoseconds
/// beyond them, which are less than a second.
#[verifier::external_body]
fn duration_since(end: &Instant, start: &Instant) -> (s: Span)
    ensures
        s == span_between(*start, *end),
        s.total_nanos() == (if reading(*end) >= reading(*start) {
            reading(*end) - reading(*start)
        } else {
            0
        }),
        s.nanos < 1_000_000_000,
{
    let d = end.duration_since(*start);
    Span { secs: d.as_secs(), nanos: d.subsec_nanos() }
}

/// The time from `start` until now.
pub(crate) fn elapsed(start: &Instant) -> (s: Span)
    ensures
        exists|now: Instant|
            {
                &&& s == #[trigger] span_between(*start, now)
                &&& s.total_nanos() == nanos_between(*start, now)
            },
        s.nanos < 1_000_000_000,
{
    let now: Instant = Instant::now();
    duration_since(&now, start)
}

/// `chrono::Utc::now`: the current date and time, as seconds since the Unix
/// epoch and the nanoseconds beyond them, which are less than two seconds.
/// Which time it is is not claimed.
#[verifier::external_body]
pub(crate) fn utc_now() -> (t: Timestamp)
    ensures
        t.is_valid(),
{
    let t = chrono::Utc::now();
    Timestamp { secs: t.timestamp(), nanos: t.timestamp_subsec_nanos() }
}

/// Microseconds are whole ones, and never more than there were.
pub proof fn law_capped_micros(nanos: nat)
    ensures
        capped_micros_in(nanos) <= 18_446_744_073_709_551_615,
        1000 * capped_micros_in(nanos) <= nanos,
        capped_micros_in(nanos) < 18_446_744_073_709_551_615 ==> nanos < 1000 * capped_micros_in(nanos) + 1000,
{
}

/// The length of a span, from its parts.
pub proof fn law_span(s: Span)
    ensures
        s.total_nanos() == 1_000_000_000 * s.secs + s.nanos,
        s.capped() == capped_micros_in(s.total_nanos()),
{
}

} // verus!
