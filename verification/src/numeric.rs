//! Fixed-point and rational arithmetic used throughout the crate.
//!
//! Monetary amounts are integers scaled by [`AMOUNT_SCALE`] (a value of
//! `1.5` is stored as `1_500_000_000_000`), while rates and discount factors
//! use the finer [`RATE_SCALE`].  Discount factors and year fractions are
//! exact rationals.  All multiplications truncate toward zero, and every
//! executable operation is specified exactly by the spec functions below.

use vstd::prelude::*;

verus! {

/// Scale of monetary amounts: one currency unit is `10^12` ticks.
pub const AMOUNT_SCALE: i128 = 1_000_000_000_000;

/// Scale of rates and discount factors: `1.0` is `10^15` ticks.
pub const RATE_SCALE: i128 = 1_000_000_000_000_000;

/// Largest admissible magnitude of a scaled amount (10^22 ticks, ten
/// billion currency units).  Bounded so that the product with a
/// discount-factor numerator stays inside `i128`.
pub const AMOUNT_ABS_MAX: i128 = 10_000_000_000_000_000_000_000;

/// Largest admissible numerator of a discount factor: 12 * RATE_SCALE.
pub const FACTOR_NUM_MAX: i128 = 12_000_000_000_000_000;

/// `v * p / q` truncated toward zero, for `p >= 0 < q`.
pub open spec fn mul_div_trunc(v: int, p: int, q: int) -> int {
    if v >= 0 {
        (v * p) / q
    } else {
        -(((-v) * p) / q)
    }
}

/// An exact rational number; `den` is always positive.
#[derive(Clone, Copy, Debug)]
pub struct Rational {
    pub num: i128,
    pub den: i128,
}

impl Rational {
    /// The rational is well formed: positive denominator.
    pub open spec fn wf(self) -> bool {
        self.den > 0
    }

    /// `self <= other` as rational numbers.
    pub open spec fn le(self, other: Rational) -> bool {
        self.num * other.den <= other.num * self.den
    }

    /// `self < other` as rational numbers.
    pub open spec fn lt(self, other: Rational) -> bool {
        self.num * other.den < other.num * self.den
    }

    /// `self == other` as rational numbers (cross multiplication).
    pub open spec fn eqv(self, other: Rational) -> bool {
        self.num * other.den == other.num * self.den
    }

    /// The rational equals the integer `i`.
    pub open spec fn eq_int(self, i: int) -> bool {
        self.num == i * self.den
    }

    pub fn new(num: i128, den: i128) -> (r: Rational)
        requires
            den > 0,
        ensures
            r.num == num,
            r.den == den,
            r.wf(),
    {
        Rational { num, den }
    }
}

/// Truncating multiplication of a scaled amount by a non-negative rational:
/// returns `v * p / q` rounded toward zero.  The bounds keep `v * p`
/// inside `i128`.
pub fn mul_rat_trunc(v: i128, p: i128, q: i128) -> (r: i128)
    requires
        -AMOUNT_ABS_MAX <= v <= AMOUNT_ABS_MAX,
        0 <= p <= FACTOR_NUM_MAX,
        0 < q,
    ensures
        r == mul_div_trunc(v as int, p as int, q as int),
        -AMOUNT_ABS_MAX * FACTOR_NUM_MAX <= r <= AMOUNT_ABS_MAX * FACTOR_NUM_MAX,
{
    proof {
        assert(v * p <= AMOUNT_ABS_MAX * FACTOR_NUM_MAX && -(AMOUNT_ABS_MAX * FACTOR_NUM_MAX)
            <= v * p && (-v) * p <= AMOUNT_ABS_MAX * FACTOR_NUM_MAX && -(AMOUNT_ABS_MAX
            * FACTOR_NUM_MAX) <= (-v) * p) by (nonlinear_arith)
            requires
                -AMOUNT_ABS_MAX <= v <= AMOUNT_ABS_MAX,
                0 <= p <= FACTOR_NUM_MAX,
        ;
        if v >= 0 {
            vstd::arithmetic::div_mod::lemma_div_basics_5(v * p, q as int);
        } else {
            vstd::arithmetic::div_mod::lemma_div_basics_5((-v) * p, q as int);
        }
    }
    if v >= 0 {
        (v * p) / q
    } else {
        -(((-v) * p) / q)
    }
}

/// `v * p / q` truncated toward zero, for a possibly negative `p`.
pub open spec fn mul_div_trunc_signed(v: int, p: int, q: int) -> int {
    if p >= 0 {
        mul_div_trunc(v, p, q)
    } else {
        -mul_div_trunc(v, -p, q)
    }
}

/// Truncating multiplication by a rational whose numerator may be
/// negative.
pub fn mul_rat_trunc_signed(v: i128, p: i128, q: i128) -> (r: i128)
    requires
        -AMOUNT_ABS_MAX <= v <= AMOUNT_ABS_MAX,
        -FACTOR_NUM_MAX <= p <= FACTOR_NUM_MAX,
        0 < q,
    ensures
        r == mul_div_trunc_signed(v as int, p as int, q as int),
        -AMOUNT_ABS_MAX * FACTOR_NUM_MAX <= r <= AMOUNT_ABS_MAX * FACTOR_NUM_MAX,
{
    if p >= 0 {
        mul_rat_trunc(v, p, q)
    } else {
        -mul_rat_trunc(v, -p, q)
    }
}

} // verus!
