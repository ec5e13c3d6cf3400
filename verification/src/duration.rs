//! Signed spans of time: units, magnitudes and their sums.

use vstd::prelude::*;

verus! {

pub const NANOS_PER_MICROSECOND: i128 = 1_000;

pub const NANOS_PER_MILLISECOND: i128 = 1_000_000;

pub const NANOS_PER_SECOND: i128 = 1_000_000_000;

pub const NANOS_PER_MINUTE: i128 = 60_000_000_000;

pub const NANOS_PER_HOUR: i128 = 3_600_000_000_000;

pub const NANOS_PER_DAY: i128 = 86_400_000_000_000;

pub const NANOS_PER_WEEK: i128 = 604_800_000_000_000;

/// The length at which a month is counted when a duration is applied: 30 days.
pub const NANOS_PER_MONTH: i128 = 2_592_000_000_000_000;

/// The length at which a year is counted when a duration is applied: 365 days.
pub const NANOS_PER_YEAR: i128 = 31_536_000_000_000_000;

/// A unit of time. Nanoseconds to weeks have a fixed length; months and
/// years are calendar units and are counted, not measured.
#[derive(Clone, Copy, Debug, PartialEq, Eq, Structural)]
pub enum Unit {
    Nanosecond,
    Microsecond,
    Millisecond,
    Second,
    Minute,
    Hour,
    Day,
    Week,
    Month,
    Year,
}

impl Unit {
    /// Whether the unit is a calendar unit: a month or a year.
    pub open spec fn is_calendar(self) -> bool {
        self == Unit::Month || self == Unit::Year
    }

    /// The length of one unit in nanoseconds; for a calendar unit, the
    /// length at which it is counted when a duration is applied.
    pub open spec fn nanos(self) -> int {
        match self {
            Unit::Nanosecond => 1,
            Unit::Microsecond => NANOS_PER_MICROSECOND as int,
            Unit::Millisecond => NANOS_PER_MILLISECOND as int,
            Unit::Second => NANOS_PER_SECOND as int,
            Unit::Minute => NANOS_PER_MINUTE as int,
            Unit::Hour => NANOS_PER_HOUR as int,
            Unit::Day => NANOS_PER_DAY as int,
            Unit::Week => NANOS_PER_WEEK as int,
            Unit::Month => NANOS_PER_MONTH as int,
            Unit::Year => NANOS_PER_YEAR as int,
        }
    }

    /// Whether the unit is a month or a year.
    pub fn calendar(self) -> (r: bool)
        ensures
            r == self.is_calendar(),
    {
        match self {
            Unit::Month => true,
            Unit::Year => true,
            _ => false,
        }
    }

    /// Nanoseconds in one unit, a month taken as 30 days and a year as 365.
    pub fn length_nanos(self) -> (r: i128)
        ensures
            r == self.nanos(),
            0 < r <= NANOS_PER_YEAR,
            !self.is_calendar() ==> r <= NANOS_PER_WEEK,
    {
        match self {
            Unit::Nanosecond => 1,
            Unit::Microsecond => NANOS_PER_MICROSECOND,
            Unit::Millisecond => NANOS_PER_MILLISECOND,
            Unit::Second => NANOS_PER_SECOND,
            Unit::Minute => NANOS_PER_MINUTE,
            Unit::Hour => NANOS_PER_HOUR,
            Unit::Day => NANOS_PER_DAY,
            Unit::Week => NANOS_PER_WEEK,
            Unit::Month => NANOS_PER_MONTH,
            Unit::Year => NANOS_PER_YEAR,
        }
    }
}

/// A span of time as mathematics has it: an elapsed part in nanoseconds and
/// two calendar counts, all three signed and unbounded.
pub ghost struct Span {
    pub nanos: int,
    pub months: int,
    pub years: int,
}

impl Span {
    /// The empty span.
    pub open spec fn zero() -> Span {
        Span { nanos: 0, months: 0, years: 0 }
    }

    /// One unit: its length in nanoseconds for a fixed-length unit, one on
    /// the matching counter for a calendar unit.
    pub open spec fn one(unit: Unit) -> Span {
        match unit {
            Unit::Month => Span { nanos: 0, months: 1, years: 0 },
            Unit::Year => Span { nanos: 0, months: 0, years: 1 },
            _ => Span { nanos: unit.nanos(), months: 0, years: 0 },
        }
    }

    /// The sum, part by part.
    pub open spec fn plus(self, other: Span) -> Span {
        Span {
            nanos: self.nanos + other.nanos,
            months: self.months + other.months,
            years: self.years + other.years,
        }
    }

    /// Whether a [`Duration`] can hold the span.
    pub open spec fn fits(self) -> bool {
        &&& i128::MIN <= self.nanos <= i128::MAX
        &&& i64::MIN <= self.months <= i64::MAX
        &&& i64::MIN <= self.years <= i64::MAX
    }

    /// The nanoseconds by which the span moves an instant: the elapsed part,
    /// with 30 days for each month and 365 days for each year.
    pub open spec fn total_nanos(self) -> int {
        self.nanos + self.months * NANOS_PER_MONTH + self.years * NANOS_PER_YEAR
    }

    /// Whether the span moves an instant by no more than ten to the power
    /// 38 nanoseconds, either way: some three thousand times a billion
    /// billion years.
    pub open spec fn is_moderate(self) -> bool {
        -100_000_000_000_000_000_000_000_000_000_000_000_000 <= self.total_nanos()
            <= 100_000_000_000_000_000_000_000_000_000_000_000_000
    }
}

/// A signed span of time: elapsed nanoseconds, and separate counts of months
/// and years, which have no fixed length. The calendar counts are turned
/// into elapsed time only where the duration is applied to an instant, a
/// month as 30 days and a year as 365 days.
#[derive(Clone, Copy, Debug, PartialEq, Eq, Structural)]
pub struct Duration {
    nanos: i128,
    months: i64,
    years: i64,
}

impl View for Duration {
    type V = Span;

    closed spec fn view(&self) -> Span {
        Span { nanos: self.nanos as int, months: self.months as int, years: self.years as int }
    }
}

impl Duration {
    /// A duration of `nanos` elapsed nanoseconds, `months` months and `years` years.
    pub fn new(nanos: i128, months: i64, years: i64) -> (r: Duration)
        ensures
            r@ == (Span { nanos: nanos as int, months: months as int, years: years as int }),
    {
        Duration { nanos, months, years }
    }

    /// The duration that moves nothing.
    pub fn zero() -> (r: Duration)
        ensures
            r@ == Span::zero(),
    {
        Duration { nanos: 0, months: 0, years: 0 }
    }

    /// The elapsed part, in nanoseconds.
    pub fn nanos(&self) -> (r: i128)
        ensures
            r == self@.nanos,
    {
        self.nanos
    }

    /// The count of months.
    pub fn months(&self) -> (r: i64)
        ensures
            r == self@.months,
    {
        self.months
    }

    /// The count of years.
    pub fn years(&self) -> (r: i64)
        ensures
            r == self@.years,
    {
        self.years
    }

    /// Whether the duration moves nothing: all three parts are zero.
    pub fn is_zero(&self) -> (r: bool)
        ensures
            r == (self@ == Span::zero()),
    {
        self.nanos == 0 && self.months == 0 && self.years == 0
    }

    /// The sum of two durations, part by part; `None` exactly when a part of
    /// the sum cannot be held.
    pub fn checked_add(&self, other: &Duration) -> (r: Option<Duration>)
        ensures
            match r {
                Some(d) => self@.plus(other@).fits() && d@ == self@.plus(other@),
                None => !self@.plus(other@).fits(),
            },
    {
        let nanos: i128 = match self.nanos.checked_add(other.nanos) {
            Some(n) => n,
            None => { return None; },
        };
        let months: i64 = match self.months.checked_add(other.months) {
            Some(n) => n,
            None => { return None; },
        };
        let years: i64 = match self.years.checked_add(other.years) {
            Some(n) => n,
            None => { return None; },
        };
        Some(Duration { nanos, months, years })
    }
}

} // verus!
