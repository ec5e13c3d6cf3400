//! Absolute points in time.

use vstd::prelude::*;
use crate::duration::{Duration, Span, NANOS_PER_MONTH, NANOS_PER_SECOND, NANOS_PER_YEAR};
use crate::error::Error;

verus! {

/// Nanoseconds since the epoch at the earliest second that 64 bits count.
pub const EARLIEST_NAMED_NANOS: i128 = -9_223_372_036_854_775_808_000_000_000;

/// Nanoseconds since the epoch at the end of the latest second that 64 bits count.
pub const LATEST_NAMED_NANOS: i128 = 9_223_372_036_854_775_807_999_999_999;

/// A point on the time line. An ordinary moment is `nanos` nanoseconds
/// after the Unix epoch (1970-01-01 00:00:00 UTC), and its `leap` is zero.
/// A moment in a leap second, the second that calendars number 60, has
/// `nanos` at the last nanosecond before that second and `leap` one more
/// than the nanoseconds of the leap second that have gone by. So a leap
/// second lies after all of the second before it and before all of the
/// second after it.
pub ghost struct Moment {
    pub nanos: int,
    pub leap: int,
}

impl Moment {
    /// The ordinary moment `nanos` nanoseconds after the epoch.
    pub open spec fn at(nanos: int) -> Moment {
        Moment { nanos, leap: 0 }
    }

    /// The moment that whole seconds since the epoch and nanoseconds past
    /// the second name. A sub-second part of a second or more is that much,
    /// less a second, into the leap second after the second named.
    pub open spec fn of_parts(secs: int, subsec_nanos: int) -> Moment {
        if subsec_nanos < NANOS_PER_SECOND {
            Moment::at(secs * NANOS_PER_SECOND + subsec_nanos)
        } else {
            Moment {
                nanos: secs * NANOS_PER_SECOND + NANOS_PER_SECOND - 1,
                leap: subsec_nanos - NANOS_PER_SECOND + 1,
            }
        }
    }

    /// Whether this moment is earlier than `other`.
    pub open spec fn is_before(self, other: Moment) -> bool {
        self.nanos < other.nanos || (self.nanos == other.nanos && self.leap < other.leap)
    }

    /// Whether whole seconds in 64 bits and a sub-second part can name the
    /// moment: a calendar reads no others.
    pub open spec fn is_nameable(self) -> bool {
        &&& EARLIEST_NAMED_NANOS <= self.nanos <= LATEST_NAMED_NANOS
        &&& 0 <= self.leap <= NANOS_PER_SECOND
    }
}

/// An absolute point in time, to the nanosecond. Two instants are equal
/// exactly when they are the same moment; a moment in a leap second is
/// none of the moments of the seconds around it.
#[derive(Clone, Copy, Debug, PartialEq, Eq, Structural)]
pub struct Instant {
    nanos: i128,
    leap: u32,
}

impl View for Instant {
    type V = Moment;

    /// The instant as a point on the time line.
    closed spec fn view(&self) -> Moment {
        Moment { nanos: self.nanos as int, leap: self.leap as int }
    }
}

/// The moment that lies `span` after the moment `t`, where an instant can
/// hold it. The elapsed part of the span is added with 30 days for each
/// month and 365 days for each year. A leap second is not counted in the
/// sum: from a moment in a leap second, a span that leads out of it forward
/// is added to the same fraction of the second before, and one that leads
/// back a second or more to the same fraction of the second after. A span
/// of less than a second that stays in the leap second, or leads back out
/// of it, is added as it is.
pub open spec fn shifted(t: Moment, span: Span) -> Option<Moment> {
    let d = span.total_nanos();
    let moved = if t.leap == 0 {
        Moment::at(t.nanos + d)
    } else if d >= NANOS_PER_SECOND || (d > 0 && t.leap - 1 + d >= NANOS_PER_SECOND) {
        Moment::at(t.nanos + t.leap - NANOS_PER_SECOND + d)
    } else if d > -NANOS_PER_SECOND && t.leap - 1 + d >= 0 {
        Moment { nanos: t.nanos, leap: t.leap + d }
    } else {
        Moment::at(t.nanos + t.leap + d)
    };
    if i128::MIN <= moved.nanos <= i128::MAX {
        Some(moved)
    } else {
        None
    }
}

impl Instant {
    /// The ordinary instant `nanos` nanoseconds after the epoch (before it,
    /// if negative).
    pub fn from_unix_nanos(nanos: i128) -> (r: Instant)
        ensures
            r@ == Moment::at(nanos as int),
    {
        Instant { nanos, leap: 0 }
    }

    /// The instant `secs` whole seconds and `subsec_nanos` nanoseconds after
    /// the epoch. A sub-second part of a second or more, as calendars write
    /// a leap second, is held apart as a moment of that leap second; one of
    /// two seconds or more names nothing.
    pub fn from_parts(secs: i64, subsec_nanos: u32) -> (r: Option<Instant>)
        ensures
            match r {
                Some(t) => subsec_nanos < 2 * NANOS_PER_SECOND && t@ == Moment::of_parts(
                    secs as int,
                    subsec_nanos as int,
                ) && t@.is_nameable(),
                None => subsec_nanos >= 2 * NANOS_PER_SECOND,
            },
    {
        let whole: i128 = secs as i128 * NANOS_PER_SECOND;
        if subsec_nanos < 1_000_000_000 {
            Some(Instant { nanos: whole + subsec_nanos as i128, leap: 0 })
        } else if subsec_nanos < 2_000_000_000 {
            Some(Instant { nanos: whole + 999_999_999, leap: subsec_nanos - 999_999_999 })
        } else {
            None
        }
    }

    /// Nanoseconds since the epoch; for a moment in a leap second, those of
    /// the last nanosecond before it.
    pub fn unix_nanos(&self) -> (r: i128)
        ensures
            r == self@.nanos,
    {
        self.nanos
    }

    /// Zero for an ordinary instant; in a leap second, one more than the
    /// nanoseconds of it that have gone by.
    pub fn leap(&self) -> (r: u32)
        ensures
            r == self@.leap,
    {
        self.leap
    }

    /// Whether this instant is earlier than `other`.
    pub fn is_before(&self, other: &Instant) -> (r: bool)
        ensures
            r == self@.is_before(other@),
    {
        self.nanos < other.nanos || (self.nanos == other.nanos && self.leap < other.leap)
    }

    /// The instant that lies `duration` after this one, as [`shifted`] has
    /// it. It is an `ArithmeticOverflow` exactly when that instant is out of
    /// range. A duration of nothing gives the instant itself.
    pub fn offset_by(&self, duration: &Duration) -> (r: Result<Instant, Error>)
        ensures
            match r {
                Ok(t) => shifted(self@, duration@) == Some(t@),
                Err(e) => shifted(self@, duration@) is None && e == Error::ArithmeticOverflow,
            },
            duration@ == Span::zero() ==> r == Ok::<Instant, Error>(*self),
    {
        let months: i128 = duration.months() as i128;
        let years: i128 = duration.years() as i128;
        assert(-0x8000_0000_0000_0000 * NANOS_PER_MONTH <= months * NANOS_PER_MONTH
            <= 0x8000_0000_0000_0000 * NANOS_PER_MONTH) by (nonlinear_arith)
            requires
                -0x8000_0000_0000_0000 <= months <= 0x8000_0000_0000_0000,
        ;
        assert(-0x8000_0000_0000_0000 * NANOS_PER_YEAR <= years * NANOS_PER_YEAR
            <= 0x8000_0000_0000_0000 * NANOS_PER_YEAR) by (nonlinear_arith)
            requires
                -0x8000_0000_0000_0000 <= years <= 0x8000_0000_0000_0000,
        ;
        let calendar: i128 = months * NANOS_PER_MONTH + years * NANOS_PER_YEAR;
        let elapsed: i128 = duration.nanos();
        let leap: i128 = self.leap as i128;
        let moved: Option<i128> = if self.leap == 0 {
            sum_of_three(self.nanos, elapsed, calendar)
        } else {
            match elapsed.checked_add(calendar) {
                Some(d) => {
                    if d >= NANOS_PER_SECOND || (d > 0 && leap - 1 + d >= NANOS_PER_SECOND) {
                        sum_of_three(self.nanos, leap - NANOS_PER_SECOND, d)
                    } else if d > -NANOS_PER_SECOND && leap - 1 + d >= 0 {
                        return Ok(Instant { nanos: self.nanos, leap: (leap + d) as u32 });
                    } else {
                        sum_of_three(self.nanos, leap, d)
                    }
                },
                None => {
                    if elapsed > 0 {
                        sum_of_three(self.nanos, elapsed, calendar + (leap - NANOS_PER_SECOND))
                    } else {
                        sum_of_three(self.nanos, elapsed, calendar + leap)
                    }
                },
            }
        };
        match moved {
            Some(nanos) => Ok(Instant { nanos, leap: 0 }),
            None => Err(Error::ArithmeticOverflow),
        }
    }
}

/// The sum of three numbers, or `None` exactly when the sum is out of
/// range. A partial sum that leaves the range does not count: where two of
/// the numbers differ in sign, those two are added first.
fn sum_of_three(x: i128, y: i128, z: i128) -> (r: Option<i128>)
    ensures
        match r {
            Some(s) => s == x + y + z,
            None => !(i128::MIN <= x + y + z <= i128::MAX),
        },
{
    if (x >= 0) != (y >= 0) {
        (x + y).checked_add(z)
    } else if (x >= 0) != (z >= 0) {
        (x + z).checked_add(y)
    } else {
        match x.checked_add(y) {
            Some(partial) => partial.checked_add(z),
            None => None,
        }
    }
}

/// A duration of nothing moves no instant.
pub proof fn law_zero_duration_is_identity(t: Instant)
    ensures
        shifted(t@, Span::zero()) == Some(t@),
{
}

/// A span of no more than ten to the power 38 nanoseconds, either way,
/// moves every moment that a calendar reads to a moment that an instant
/// holds.
pub proof fn lemma_moderate_span_applies(t: Moment, span: Span)
    requires
        t.is_nameable(),
        span.is_moderate(),
    ensures
        shifted(t, span) is Some,
{
}

} // verus!
