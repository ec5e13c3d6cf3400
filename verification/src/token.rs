//! The pairs of magnitude and unit that a duration is written in.

use vstd::prelude::*;
use vstd::arithmetic::div_mod::{lemma_basic_div, lemma_div_denominator, lemma_small_div_converse};
use crate::duration::{Duration, Span, Unit, NANOS_PER_WEEK};
use crate::error::Error;

verus! {

/// Ten to the power `n`.
pub open spec fn pow10(n: nat) -> nat
    decreases n,
{
    if n == 0 {
        1
    } else {
        10 * pow10((n - 1) as nat)
    }
}

/// Powers of ten are positive and grow with the exponent.
pub proof fn lemma_pow10_grows(m: nat, n: nat)
    requires
        m <= n,
    ensures
        0 < pow10(m) <= pow10(n),
    decreases n,
{
    if n == 0 {
    } else if m == n {
        lemma_pow10_grows((m - 1) as nat, (n - 1) as nat);
    } else {
        lemma_pow10_grows(m, (n - 1) as nat);
    }
}

/// What `digits` divided by ten to the power `scale`, negated if
/// `negative`, contributes when counted in `unit`. For a fixed-length unit,
/// the number times the unit's length, cut off toward zero at the
/// nanosecond; for a calendar unit, `digits` with its sign on the unit's
/// counter.
pub open spec fn span_of(unit: Unit, negative: bool, digits: nat, scale: nat) -> Span {
    match unit {
        Unit::Month => Span { nanos: 0, months: with_sign(negative, digits as int), years: 0 },
        Unit::Year => Span { nanos: 0, months: 0, years: with_sign(negative, digits as int) },
        _ => Span {
            nanos: with_sign(negative, (digits * unit.nanos()) / (pow10(scale) as int)),
            months: 0,
            years: 0,
        },
    }
}

/// `n`, negated if `negative`.
pub open spec fn with_sign(negative: bool, n: int) -> int {
    if negative {
        -n
    } else {
        n
    }
}

/// A signed decimal number: the value is `digits` divided by ten to the
/// power `scale`, negated if `negative`. So `-1.25` has digits 125 and
/// scale 2, and `15` has digits 15 and scale 0.
#[derive(Clone, Copy, Debug, PartialEq, Eq, Structural)]
pub struct Magnitude {
    pub negative: bool,
    pub digits: u64,
    pub scale: usize,
}

impl Magnitude {
    /// Whether the magnitude is written without a fractional part.
    pub open spec fn is_whole(self) -> bool {
        self.scale == 0
    }
}

/// A magnitude and the unit it counts.
#[derive(Clone, Copy, Debug, PartialEq, Eq, Structural)]
pub struct UnitToken {
    pub magnitude: Magnitude,
    pub unit: Unit,
}

impl UnitToken {
    /// Whether the pair means anything: a calendar unit is counted in whole
    /// numbers only.
    pub open spec fn is_well_formed(self) -> bool {
        self.unit.is_calendar() ==> self.magnitude.is_whole()
    }

    /// What the token contributes: see [`span_of`].
    pub open spec fn span(self) -> Span {
        span_of(
            self.unit,
            self.magnitude.negative,
            self.magnitude.digits as nat,
            self.magnitude.scale as nat,
        )
    }

    /// The token as a duration. A fraction of a month or a year is refused
    /// as bad syntax; a count that a duration cannot hold is an overflow.
    pub fn to_duration(&self) -> (r: Result<Duration, Error>)
        ensures
            match r {
                Ok(d) => self.is_well_formed() && self.span().fits() && d@ == self.span(),
                Err(e) => if self.is_well_formed() {
                    !self.span().fits() && e == Error::ArithmeticOverflow
                } else {
                    e == Error::InvalidDurationSyntax
                },
            },
    {
        let m = self.magnitude;
        if self.unit.calendar() {
            if m.scale > 0 {
                return Err(Error::InvalidDurationSyntax);
            }
            let wide: i128 = if m.negative {
                -(m.digits as i128)
            } else {
                m.digits as i128
            };
            if wide < i64::MIN as i128 || wide > i64::MAX as i128 {
                return Err(Error::ArithmeticOverflow);
            }
            let count: i64 = wide as i64;
            match self.unit {
                Unit::Month => Ok(Duration::new(0, count, 0)),
                _ => Ok(Duration::new(0, 0, count)),
            }
        } else {
            let length: i128 = self.unit.length_nanos();
            assert(m.digits * length <= 0xffff_ffff_ffff_ffff * NANOS_PER_WEEK) by (nonlinear_arith)
                requires
                    0 <= m.digits <= 0xffff_ffff_ffff_ffff,
                    0 < length <= NANOS_PER_WEEK,
            ;
            assert(0 <= m.digits * length) by (nonlinear_arith)
                requires
                    0 <= m.digits,
                    0 < length,
            ;
            let product: u128 = m.digits as u128 * length as u128;
            let quotient: u128 = scale_down(product, m.scale);
            proof {
                lemma_pow10_grows(0, m.scale as nat);
                vstd::arithmetic::div_mod::lemma_div_nonincreasing(
                    product as int,
                    pow10(m.scale as nat) as int,
                );
            }
            let nanos: i128 = if m.negative {
                -(quotient as i128)
            } else {
                quotient as i128
            };
            Ok(Duration::new(nanos, 0, 0))
        }
    }
}

/// `p` divided by ten to the power `scale`, fractions dropped.
fn scale_down(p: u128, scale: usize) -> (q: u128)
    ensures
        q == (p as int) / (pow10(scale as nat) as int),
{
    let mut q: u128 = p;
    let mut k: usize = 0;
    assert(pow10(0) == 1);
    while k < scale && q > 0
        invariant
            k <= scale,
            q == (p as int) / (pow10(k as nat) as int),
        decreases scale - k,
    {
        proof {
            lemma_pow10_grows(0, k as nat);
            lemma_div_denominator(p as int, pow10(k as nat) as int, 10);
            assert(pow10((k + 1) as nat) == 10 * pow10(k as nat));
            assert(pow10(k as nat) as int * 10 == pow10((k + 1) as nat) as int);
        }
        q = q / 10;
        k = k + 1;
    }
    proof {
        if k < scale {
            lemma_pow10_grows(k as nat, scale as nat);
            lemma_small_div_converse(p as int, pow10(k as nat) as int);
            lemma_basic_div(p as int, pow10(scale as nat) as int);
        }
    }
    q
}

} // verus!
