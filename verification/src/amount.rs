//! Decimal amounts as the machine holds them, and their comparison.

use crate::decimal::{lemma_pow10_adds, lemma_pow10_positive, pow10, Decimal};
use vstd::prelude::*;

verus! {

/// A decimal amount: `unscaled` times ten to the power `-scale`.
///
/// `==` compares the two fields; [`Amount::same_value`] compares the numbers,
/// so that `1.0` and `1.00` are the same value.
#[derive(Clone, Copy, Debug, PartialEq, Eq, Structural)]
pub struct Amount {
    pub unscaled: i128,
    pub scale: i64,
}

impl View for Amount {
    type V = Decimal;

    open spec fn view(&self) -> Decimal {
        Decimal { unscaled: self.unscaled as int, scale: self.scale as int }
    }
}

/// How one number stands to another.
#[derive(Clone, Copy, Debug, PartialEq, Eq, Structural)]
pub enum Sign {
    Negative,
    Zero,
    Positive,
}

impl Sign {
    /// The sign of an integer.
    pub open spec fn of(x: int) -> Sign {
        if x < 0 {
            Sign::Negative
        } else if x == 0 {
            Sign::Zero
        } else {
            Sign::Positive
        }
    }

    /// The sign of the negated number.
    pub open spec fn opposite(self) -> Sign {
        match self {
            Sign::Negative => Sign::Positive,
            Sign::Zero => Sign::Zero,
            Sign::Positive => Sign::Negative,
        }
    }

    /// The sign of the negated number.
    pub fn flipped(self) -> (r: Sign)
        ensures
            r == self.opposite(),
    {
        match self {
            Sign::Negative => Sign::Positive,
            Sign::Zero => Sign::Zero,
            Sign::Positive => Sign::Negative,
        }
    }
}

/// The sign of `x * 10^d - y`, for positive `x` and `y`.
///
/// The product is never formed beyond `y`: the loop stops as soon as the
/// running power exceeds it, after at most 39 rounds.
fn sign_of_scaled_difference(x: u128, d: u128, y: u128) -> (s: Sign)
    requires
        x >= 1,
        y >= 1,
    ensures
        s == Sign::of(x * pow10(d as nat) - y),
{
    if x > y {
        proof {
            lemma_pow10_positive(d as nat);
            let p = pow10(d as nat);
            assert(x * p >= x) by (nonlinear_arith)
                requires
                    p >= 1,
                    x >= 1,
            ;
        }
        return Sign::Positive;
    }
    let mut acc: u128 = x;
    let mut k: u128 = 0;
    assert(x * pow10(0) == x) by (nonlinear_arith)
        requires
            pow10(0) == 1,
    ;
    while k < d
        invariant
            k <= d,
            x >= 1,
            acc == x * pow10(k as nat),
            1 <= acc <= y,
        decreases d - k,
    {
        if acc > y / 10 {
            proof {
                let rest = (d - k - 1) as nat;
                lemma_pow10_adds((k + 1) as nat, rest);
                lemma_pow10_positive(rest);
                let p = pow10(k as nat);
                let q = pow10(rest);
                assert(pow10((k + 1) as nat) == 10 * p);
                assert((k + 1) as nat + rest == d as nat);
                assert(x * ((10 * p) * q) >= (x * p) * 10) by (nonlinear_arith)
                    requires
                        q >= 1,
                        x >= 1,
                        p >= 0,
                ;
            }
            return Sign::Positive;
        }
        proof {
            let p = pow10(k as nat);
            assert(pow10((k + 1) as nat) == 10 * p);
            assert(x * (10 * p) == (x * p) * 10) by (nonlinear_arith);
        }
        acc = acc * 10;
        k = k + 1;
    }
    if acc < y {
        Sign::Negative
    } else {
        Sign::Zero
    }
}

/// The absolute value of a negative number.
fn magnitude_of_negative(x: i128) -> (m: u128)
    requires
        x < 0,
    ensures
        m == -x,
{
    let below: i128 = -(x + 1);
    below as u128 + 1
}

impl Amount {
    /// The amount `unscaled * 10^(-scale)`.
    pub fn new(unscaled: i128, scale: i64) -> (a: Amount)
        ensures
            a == (Amount { unscaled, scale }),
    {
        Amount { unscaled, scale }
    }

    /// A whole number of units.
    pub fn from_integer(units: i128) -> (a: Amount)
        ensures
            a == (Amount { unscaled: units, scale: 0 }),
    {
        Amount { unscaled: units, scale: 0 }
    }

    /// How `self` stands to `other`: the sign of `self - other`.
    pub fn compare(&self, other: &Amount) -> (s: Sign)
        ensures
            (s == Sign::Negative) == self@.lt(other@),
            (s == Sign::Zero) == self@.same(other@),
            (s == Sign::Positive) == other@.lt(self@),
    {
        let a = self.unscaled;
        let b = other.unscaled;
        let ghost j = self@.joint_scale(other@);
        let ghost p = pow10((j - self.scale) as nat);
        let ghost q = pow10((j - other.scale) as nat);
        proof {
            lemma_pow10_positive((j - self.scale) as nat);
            lemma_pow10_positive((j - other.scale) as nat);
            assert(other@.joint_scale(self@) == j);
            assert(self@.lifted(j) == a * p);
            assert(other@.lifted(j) == b * q);
            assert(a > 0 ==> a * p > 0) by (nonlinear_arith)
                requires
                    p >= 1,
            ;
            assert(a < 0 ==> a * p < 0) by (nonlinear_arith)
                requires
                    p >= 1,
            ;
            assert(a == 0 ==> a * p == 0) by (nonlinear_arith);
            assert(b > 0 ==> b * q > 0) by (nonlinear_arith)
                requires
                    q >= 1,
            ;
            assert(b < 0 ==> b * q < 0) by (nonlinear_arith)
                requires
                    q >= 1,
            ;
            assert(b == 0 ==> b * q == 0) by (nonlinear_arith);
        }
        if a == 0 || b == 0 || (a < 0) != (b < 0) {
            // The signs alone decide.
            return if a < b {
                Sign::Negative
            } else if a == b {
                Sign::Zero
            } else {
                Sign::Positive
            };
        }
        let negative = a < 0;
        let x: u128 = if negative {
            magnitude_of_negative(a)
        } else {
            a as u128
        };
        let y: u128 = if negative {
            magnitude_of_negative(b)
        } else {
            b as u128
        };
        // `toward` is the sign of |self| - |other|.
        let toward = if self.scale <= other.scale {
            let d: u128 = (other.scale as i128 - self.scale as i128) as u128;
            proof {
                assert(pow10(d as nat) == p);
                assert(b * q == b) by (nonlinear_arith)
                    requires
                        q == 1,
                ;
                assert((-a) * p == -(a * p)) by (nonlinear_arith);
            }
            sign_of_scaled_difference(x, d, y)
        } else {
            let d: u128 = (self.scale as i128 - other.scale as i128) as u128;
            proof {
                assert(pow10(d as nat) == q);
                assert(a * p == a) by (nonlinear_arith)
                    requires
                        p == 1,
                ;
                assert((-b) * q == -(b * q)) by (nonlinear_arith);
            }
            sign_of_scaled_difference(y, d, x).flipped()
        };
        if negative {
            toward.flipped()
        } else {
            toward
        }
    }

    /// `self < other`, as numbers.
    pub fn lt(&self, other: &Amount) -> (r: bool)
        ensures
            r == self@.lt(other@),
    {
        self.compare(other) == Sign::Negative
    }

    /// `self <= other`, as numbers.
    pub fn le(&self, other: &Amount) -> (r: bool)
        ensures
            r == self@.le(other@),
    {
        self.compare(other) != Sign::Positive
    }

    /// Whether `self` and `other` are the same number.
    pub fn same_value(&self, other: &Amount) -> (r: bool)
        ensures
            r == self@.same(other@),
    {
        self.compare(other) == Sign::Zero
    }

    /// `self > 0`.
    pub fn is_positive(&self) -> (r: bool)
        ensures
            r == self@.is_positive(),
    {
        self.unscaled > 0
    }

    /// `self == 0`.
    pub fn is_zero(&self) -> (r: bool)
        ensures
            r == self@.is_zero(),
    {
        self.unscaled == 0
    }

    /// `self < 0`.
    pub fn is_negative(&self) -> (r: bool)
        ensures
            r == self@.is_negative(),
    {
        self.unscaled < 0
    }
}

} // verus!
