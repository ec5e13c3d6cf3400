//! The five relations between a sample instant and a reference instant.

use vstd::prelude::*;
use crate::instant::{Instant, Moment};

verus! {

/// A relation that a sample may bear to the reference.
#[derive(Clone, Copy, Debug, PartialEq, Eq, Structural)]
pub enum Comparator {
    /// The sample is later than the reference.
    Gt,
    /// The sample is earlier than the reference.
    Lt,
    /// The sample is the very same instant as the reference.
    Eq,
    /// The sample is the reference or later.
    Ge,
    /// The sample is the reference or earlier.
    Le,
}

impl Comparator {
    /// Whether the relation holds between two points on the time line.
    pub open spec fn holds(self, sample: Moment, reference: Moment) -> bool {
        match self {
            Comparator::Gt => reference.is_before(sample),
            Comparator::Lt => sample.is_before(reference),
            Comparator::Eq => sample == reference,
            Comparator::Ge => !sample.is_before(reference),
            Comparator::Le => !reference.is_before(sample),
        }
    }
}

/// Decides whether `sample` stands in relation `op` to `reference`.
pub fn compare(sample: Instant, reference: Instant, op: Comparator) -> (r: bool)
    ensures
        r == op.holds(sample@, reference@),
{
    match op {
        Comparator::Gt => reference.is_before(&sample),
        Comparator::Lt => sample.is_before(&reference),
        Comparator::Eq => !sample.is_before(&reference) && !reference.is_before(&sample),
        Comparator::Ge => !sample.is_before(&reference),
        Comparator::Le => !reference.is_before(&sample),
    }
}

/// Of later, same and earlier, exactly one holds between any two instants.
pub proof fn law_trichotomy(a: Instant, b: Instant)
    ensures
        Comparator::Gt.holds(a@, b@) || Comparator::Eq.holds(a@, b@) || Comparator::Lt.holds(a@, b@),
        !(Comparator::Gt.holds(a@, b@) && Comparator::Eq.holds(a@, b@)),
        !(Comparator::Gt.holds(a@, b@) && Comparator::Lt.holds(a@, b@)),
        !(Comparator::Eq.holds(a@, b@) && Comparator::Lt.holds(a@, b@)),
{
}

/// "Same or later" is the union of "later" and "same".
pub proof fn law_ge_is_gt_or_eq(a: Instant, b: Instant)
    ensures
        Comparator::Ge.holds(a@, b@) == (Comparator::Gt.holds(a@, b@) || Comparator::Eq.holds(a@, b@)),
{
}

/// "Same or earlier" is the union of "earlier" and "same".
pub proof fn law_le_is_lt_or_eq(a: Instant, b: Instant)
    ensures
        Comparator::Le.holds(a@, b@) == (Comparator::Lt.holds(a@, b@) || Comparator::Eq.holds(a@, b@)),
{
}

/// Against itself an instant is the same, and neither later nor earlier.
pub proof fn law_self_comparison(a: Instant)
    ensures
        Comparator::Eq.holds(a@, a@),
        !Comparator::Gt.holds(a@, a@),
        !Comparator::Lt.holds(a@, a@),
{
}

} // verus!
