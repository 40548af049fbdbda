//! The mathematical model of a decimal number and of its order.

use vstd::prelude::*;

verus! {

/// Ten to the power `e`.
pub open spec fn pow10(e: nat) -> nat
    decreases e,
{
    if e == 0 {
        1
    } else {
        10 * pow10((e - 1) as nat)
    }
}

/// A decimal number: `unscaled` times ten to the power `-scale`.
///
/// Two decimals with different fields may stand for the same number
/// (`10 / 10^1` and `1 / 10^0`); [`Decimal::same`] is equality of numbers.
pub struct Decimal {
    pub unscaled: int,
    pub scale: int,
}

impl Decimal {
    /// The number times ten to the power `s`, an integer whenever `s` is at
    /// least `self.scale`.
    pub open spec fn lifted(self, s: int) -> int
        recommends
            self.scale <= s,
    {
        self.unscaled * pow10((s - self.scale) as nat)
    }

    /// The smallest scale at which both `self` and `other` are integers.
    pub open spec fn joint_scale(self, other: Decimal) -> int {
        if self.scale >= other.scale {
            self.scale
        } else {
            other.scale
        }
    }

    /// `self < other`, as numbers.
    pub open spec fn lt(self, other: Decimal) -> bool {
        self.lifted(self.joint_scale(other)) < other.lifted(self.joint_scale(other))
    }

    /// `self <= other`, as numbers.
    pub open spec fn le(self, other: Decimal) -> bool {
        self.lifted(self.joint_scale(other)) <= other.lifted(self.joint_scale(other))
    }

    /// `self == other`, as numbers.
    pub open spec fn same(self, other: Decimal) -> bool {
        self.lifted(self.joint_scale(other)) == other.lifted(self.joint_scale(other))
    }

    /// `self > 0`.
    pub open spec fn is_positive(self) -> bool {
        self.unscaled > 0
    }

    /// `self == 0`.
    pub open spec fn is_zero(self) -> bool {
        self.unscaled == 0
    }

    /// `self < 0`.
    pub open spec fn is_negative(self) -> bool {
        self.unscaled < 0
    }

    /// The product of two numbers.
    pub open spec fn times(self, other: Decimal) -> Decimal {
        Decimal { unscaled: self.unscaled * other.unscaled, scale: self.scale + other.scale }
    }
}

/// Powers of ten are positive.
pub proof fn lemma_pow10_positive(e: nat)
    ensures
        pow10(e) >= 1,
    decreases e,
{
    if e > 0 {
        lemma_pow10_positive((e - 1) as nat);
    }
}

/// Exponents add up under multiplication.
pub proof fn lemma_pow10_adds(a: nat, b: nat)
    ensures
        pow10(a + b) == pow10(a) * pow10(b),
    decreases a,
{
    if a == 0 {
        assert(pow10(0) == 1);
        assert(1 * pow10(b) == pow10(b));
    } else {
        lemma_pow10_adds((a - 1) as nat, b);
        assert(pow10(a + b) == 10 * pow10((a - 1 + b) as nat));
        assert(10 * (pow10((a - 1) as nat) * pow10(b)) == (10 * pow10((a - 1) as nat)) * pow10(b))
            by (nonlinear_arith);
    }
}

/// Lifting further multiplies by the power of ten in between.
pub proof fn lemma_lifted_further(d: Decimal, s: int, t: int)
    requires
        d.scale <= s <= t,
    ensures
        d.lifted(t) == d.lifted(s) * pow10((t - s) as nat),
{
    let a = (s - d.scale) as nat;
    let b = (t - s) as nat;
    lemma_pow10_adds(a, b);
    assert(a + b == (t - d.scale) as nat);
    assert(d.unscaled * (pow10(a) * pow10(b)) == (d.unscaled * pow10(a)) * pow10(b))
        by (nonlinear_arith);
}

/// At any scale that both numbers reach, the order of two decimals is the
/// order of their lifted integers.
pub proof fn lemma_order_at_scale(a: Decimal, b: Decimal, s: int)
    requires
        a.scale <= s,
        b.scale <= s,
    ensures
        a.lt(b) <==> a.lifted(s) < b.lifted(s),
        a.le(b) <==> a.lifted(s) <= b.lifted(s),
        a.same(b) <==> a.lifted(s) == b.lifted(s),
{
    let m = a.joint_scale(b);
    let p = pow10((s - m) as nat);
    lemma_lifted_further(a, m, s);
    lemma_lifted_further(b, m, s);
    lemma_pow10_positive((s - m) as nat);
    let x = a.lifted(m);
    let y = b.lifted(m);
    assert(x < y <==> x * p < y * p) by (nonlinear_arith)
        requires
            p >= 1,
    ;
    assert(x == y <==> x * p == y * p) by (nonlinear_arith)
        requires
            p >= 1,
    ;
}

/// The order of decimals is a total preorder whose equivalence is
/// [`Decimal::same`]: what holds of any three of them.
pub proof fn lemma_decimal_order(a: Decimal, b: Decimal, c: Decimal)
    ensures
        a.same(a),
        a.same(b) <==> b.same(a),
        a.le(b) <==> !b.lt(a),
        a.le(b) <==> a.lt(b) || a.same(b),
        a.same(b) <==> a.le(b) && b.le(a),
        a.le(b) && b.le(c) ==> a.le(c),
        a.lt(b) && b.le(c) ==> a.lt(c),
        a.le(b) && b.lt(c) ==> a.lt(c),
        a.same(b) && b.same(c) ==> a.same(c),
{
    let ab = a.joint_scale(b);
    let s = if ab >= c.scale {
        ab
    } else {
        c.scale
    };
    lemma_order_at_scale(a, b, s);
    lemma_order_at_scale(b, a, s);
    lemma_order_at_scale(b, c, s);
    lemma_order_at_scale(c, b, s);
    lemma_order_at_scale(a, c, s);
    lemma_order_at_scale(a, a, s);
}

} // verus!
