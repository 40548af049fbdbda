//! Percentages held exactly, as the ratio of two decimals.

use crate::amount::Amount;
use crate::decimal::{lemma_decimal_order, pow10, Decimal};
use vstd::prelude::*;

verus! {

/// The number `part / whole`, for a positive `whole`.
pub struct Ratio {
    pub part: Decimal,
    pub whole: Decimal,
}

impl Ratio {
    /// The divisor is positive, so the ratio is a number.
    pub open spec fn wf(self) -> bool {
        self.whole.is_positive()
    }

    /// The ratio one: a hundred percent.
    pub open spec fn full() -> Ratio {
        Ratio { part: Decimal { unscaled: 1, scale: 0 }, whole: Decimal { unscaled: 1, scale: 0 } }
    }

    /// The ratio zero.
    pub open spec fn zero() -> Ratio {
        Ratio { part: Decimal { unscaled: 0, scale: 0 }, whole: Decimal { unscaled: 1, scale: 0 } }
    }

    /// `self == 1`: the part is all of the whole.
    pub open spec fn is_full(self) -> bool {
        self.part.same(self.whole)
    }

    /// `self == 0`.
    pub open spec fn is_zero(self) -> bool {
        self.part.is_zero()
    }

    /// `self >= other`, as numbers: compared crosswise, which is division
    /// without a remainder to lose.
    pub open spec fn ge(self, other: Ratio) -> bool {
        other.part.times(self.whole).le(self.part.times(other.whole))
    }

    /// `0 <= self <= 1`.
    pub open spec fn within_unit(self) -> bool {
        !self.part.is_negative() && self.part.le(self.whole)
    }
}

/// A percentage: one hundred times `part / whole`.
///
/// The two decimals are kept as they are, so nothing is rounded: 2 of 3 is
/// held as `2 / 3` and not as `66.7`.
#[derive(Clone, Copy, Debug, PartialEq, Eq, Structural)]
pub struct Percent {
    pub part: Amount,
    pub whole: Amount,
}

impl View for Percent {
    type V = Ratio;

    open spec fn view(&self) -> Ratio {
        Ratio { part: self.part@, whole: self.whole@ }
    }
}

impl Percent {
    /// A hundred percent.
    pub fn full() -> (p: Percent)
        ensures
            p@ == Ratio::full(),
    {
        Percent { part: Amount::from_integer(1), whole: Amount::from_integer(1) }
    }

    /// Zero percent.
    pub fn zero() -> (p: Percent)
        ensures
            p@ == Ratio::zero(),
    {
        Percent { part: Amount::from_integer(0), whole: Amount::from_integer(1) }
    }

    /// `part` as a percentage of `whole`.
    pub fn of(part: Amount, whole: Amount) -> (p: Percent)
        requires
            whole@.is_positive(),
        ensures
            p@ == (Ratio { part: part@, whole: whole@ }),
            p@.wf(),
    {
        Percent { part, whole }
    }
}

/// Over one positive divisor, the greater part gives the greater ratio.
pub proof fn lemma_ratio_grows_with_part(small: Decimal, large: Decimal, whole: Decimal)
    requires
        whole.is_positive(),
        small.le(large),
    ensures
        (Ratio { part: large, whole }).ge(Ratio { part: small, whole }),
{
    let m = small.joint_scale(large);
    let x = small.times(whole);
    let y = large.times(whole);
    let j = x.joint_scale(y);
    assert(j == m + whole.scale);
    let ps = pow10((m - small.scale) as nat);
    let pl = pow10((m - large.scale) as nat);
    assert(x.lifted(j) == (small.unscaled * whole.unscaled) * ps);
    assert(y.lifted(j) == (large.unscaled * whole.unscaled) * pl);
    let a = small.unscaled;
    let b = large.unscaled;
    let w = whole.unscaled;
    assert(a * ps <= b * pl);
    assert((a * w) * ps <= (b * w) * pl) by (nonlinear_arith)
        requires
            a * ps <= b * pl,
            w > 0,
    ;
}

/// A ratio is at least itself, the full ratio is at least zero, and zero is
/// at least zero.
pub proof fn lemma_ratio_ge_basics(r: Ratio)
    ensures
        r.ge(r),
        Ratio::full().ge(Ratio::zero()),
        Ratio::full().is_full(),
        Ratio::zero().is_zero(),
        Ratio::full().within_unit(),
        Ratio::zero().within_unit(),
        Ratio::full().wf(),
        Ratio::zero().wf(),
{
    let x = r.part.times(r.whole);
    lemma_decimal_order(x, x, x);
    assert(x.same(x) ==> x.le(x));
    let unit = pow10(0);
    assert(unit == 1);
    let one = Decimal { unscaled: 1, scale: 0 };
    let nought = Decimal { unscaled: 0, scale: 0 };
    assert(1 * unit == 1 && 0 * unit == 0 && (1 * 1) * unit == 1 && (0 * 1) * unit == 0)
        by (nonlinear_arith)
        requires
            unit == 1,
    ;
    assert(one.lifted(0) == 1);
    assert(nought.times(one).lifted(0) == 0);
    assert(one.times(one).lifted(0) == 1);
}

} // verus!
