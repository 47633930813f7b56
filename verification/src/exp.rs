//! Fixed-point exponential and logarithm kernels.
//!
//! Discount factors for compounded conventions reduce to `e^(-x)` for an
//! exponent `x` scaled by [`RATE_SCALE`].  The kernel computes the Taylor
//! series of `e^x` in fixed point, truncating every intermediate result
//! toward zero, and the discount factor is then the exact rational
//! `RATE_SCALE / series` (or `series / RATE_SCALE` for negative
//! exponents).  The spec functions below define each truncated recurrence
//! exactly; the executable code returns precisely their values.

use vstd::prelude::*;
use vstd::arithmetic::div_mod::lemma_div_is_ordered;
use crate::numeric::RATE_SCALE;
use crate::numeric::FACTOR_NUM_MAX;

verus! {

/// Largest admissible magnitude of an exponent: `2 * RATE_SCALE`, that
/// is, a rate-times-time product of two.
pub const EXP_ARG_MAX: i128 = 2_000_000_000_000_000;

/// Number of Taylor terms after the constant one; for exponents up to
/// [`EXP_ARG_MAX`] every later term truncates to zero.
pub const EXP_TERMS: u32 = 40;

/// Term `k` of the truncated Taylor series of `e^(x / RATE_SCALE)`,
/// scaled by `RATE_SCALE`: term 0 is `RATE_SCALE`, and each term is the
/// previous one times `x / (k * RATE_SCALE)`, truncated.
pub open spec fn spec_exp_term(x: int, k: nat) -> int
    decreases k,
{
    if k == 0 {
        RATE_SCALE as int
    } else {
        spec_exp_term(x, (k - 1) as nat) * x / (k * RATE_SCALE)
    }
}

/// Sum of the truncated Taylor terms 0 through `n`.
pub open spec fn spec_exp_sum(x: int, n: nat) -> int
    decreases n,
{
    if n == 0 {
        spec_exp_term(x, 0)
    } else {
        spec_exp_sum(x, (n - 1) as nat) + spec_exp_term(x, n)
    }
}

/// The fixed-point series for `e^(x / RATE_SCALE)`, scaled by
/// `RATE_SCALE`: the sum of terms 0 through [`EXP_TERMS`].
pub open spec fn spec_exp_series(x: int) -> int {
    spec_exp_sum(x, EXP_TERMS as nat)
}

/// Every Taylor term of a non-negative exponent is non-negative.
pub proof fn lemma_exp_term_nonneg(x: int, k: nat)
    requires
        0 <= x,
    ensures
        0 <= spec_exp_term(x, k),
    decreases k,
{
    if k > 0 {
        lemma_exp_term_nonneg(x, (k - 1) as nat);
        let prev = spec_exp_term(x, (k - 1) as nat);
        assert(0 <= prev * x) by (nonlinear_arith)
            requires
                0 <= prev,
                0 <= x,
        ;
        lemma_div_is_ordered(0, prev * x, k as int * RATE_SCALE);
    }
}

/// Taylor terms grow with the exponent.
pub proof fn lemma_exp_term_monotone(x1: int, x2: int, k: nat)
    requires
        0 <= x1 <= x2,
    ensures
        spec_exp_term(x1, k) <= spec_exp_term(x2, k),
    decreases k,
{
    if k > 0 {
        lemma_exp_term_monotone(x1, x2, (k - 1) as nat);
        lemma_exp_term_nonneg(x1, (k - 1) as nat);
        let p1 = spec_exp_term(x1, (k - 1) as nat);
        let p2 = spec_exp_term(x2, (k - 1) as nat);
        assert(p1 * x1 <= p2 * x2) by (nonlinear_arith)
            requires
                0 <= p1 <= p2,
                0 <= x1 <= x2,
        ;
        lemma_div_is_ordered(p1 * x1, p2 * x2, k as int * RATE_SCALE);
    }
}

/// Partial sums grow with the exponent, by at least the difference of
/// the exponents themselves (term 1 is the exponent, exactly).
pub proof fn lemma_exp_sum_monotone(x1: int, x2: int, n: nat)
    requires
        0 <= x1 <= x2,
        1 <= n,
    ensures
        spec_exp_sum(x1, n) + (x2 - x1) <= spec_exp_sum(x2, n),
    decreases n,
{
    assert(spec_exp_term(x1, 0) == RATE_SCALE as int);
    assert(spec_exp_term(x2, 0) == RATE_SCALE as int);
    assert(spec_exp_term(x1, 1) == RATE_SCALE as int * x1 / (1 * RATE_SCALE as int));
    assert(spec_exp_term(x2, 1) == RATE_SCALE as int * x2 / (1 * RATE_SCALE as int));
    assert(RATE_SCALE as int * x1 / (1 * RATE_SCALE as int) == x1 && RATE_SCALE as int * x2 / (1
        * RATE_SCALE as int) == x2) by (nonlinear_arith)
        requires
            0 <= x1 <= x2,
    ;
    if n == 1 {
        assert(spec_exp_sum(x1, 1) == spec_exp_sum(x1, 0) + spec_exp_term(x1, 1));
        assert(spec_exp_sum(x2, 1) == spec_exp_sum(x2, 0) + spec_exp_term(x2, 1));
        assert(spec_exp_sum(x1, 0) == spec_exp_term(x1, 0));
        assert(spec_exp_sum(x2, 0) == spec_exp_term(x2, 0));
    } else {
        lemma_exp_sum_monotone(x1, x2, (n - 1) as nat);
        lemma_exp_term_monotone(x1, x2, n);
    }
}

/// The series of exponent zero is exactly one: every term after the
/// constant one vanishes.
pub proof fn lemma_exp_sum_at_zero(n: nat)
    ensures
        spec_exp_sum(0, n) == RATE_SCALE as int,
    decreases n,
{
    if n > 0 {
        lemma_exp_sum_at_zero((n - 1) as nat);
        lemma_exp_term_at_zero(n);
    }
}

/// Every term after the constant one vanishes at exponent zero.
proof fn lemma_exp_term_at_zero(k: nat)
    requires
        1 <= k,
    ensures
        spec_exp_term(0, k) == 0,
    decreases k,
{
    if k > 1 {
        lemma_exp_term_at_zero((k - 1) as nat);
    }
}

/// The series is at least `RATE_SCALE` plus the exponent.
pub proof fn lemma_exp_series_lower(x: int)
    requires
        0 <= x,
    ensures
        RATE_SCALE + x <= spec_exp_series(x),
{
    lemma_exp_sum_at_zero(EXP_TERMS as nat);
    lemma_exp_sum_monotone(0, x, EXP_TERMS as nat);
}

/// Every Taylor term of an exponent within range is at most `2 * RATE_SCALE`.
pub proof fn lemma_exp_term_upper(x: int, k: nat)
    requires
        0 <= x <= 2 * RATE_SCALE,
    ensures
        0 <= spec_exp_term(x, k) <= 2 * RATE_SCALE,
    decreases k,
{
    lemma_exp_term_nonneg(x, k);
    if k == 0 {
    } else if k == 1 {
        assert(spec_exp_term(x, 0) * x / (1 * RATE_SCALE as int) == x) by (nonlinear_arith)
            requires
                spec_exp_term(x, 0) == RATE_SCALE as int,
                0 <= x,
        ;
    } else {
        lemma_exp_term_upper(x, (k - 1) as nat);
        lemma_exp_term_le_prev(x, k);
    }
}

/// From the second term on, terms are non-increasing for exponents in
/// range.
pub proof fn lemma_exp_term_le_prev(x: int, k: nat)
    requires
        0 <= x <= 2 * RATE_SCALE,
        2 <= k,
    ensures
        spec_exp_term(x, k) <= spec_exp_term(x, (k - 1) as nat),
{
    lemma_exp_term_nonneg(x, (k - 1) as nat);
    let prev = spec_exp_term(x, (k - 1) as nat);
    assert(prev * x <= (k * RATE_SCALE) * prev) by (nonlinear_arith)
        requires
            0 <= prev,
            0 <= x <= 2 * RATE_SCALE,
            2 <= k,
    ;
    lemma_div_is_ordered(prev * x, (k * RATE_SCALE) * prev, k as int * RATE_SCALE);
    vstd::arithmetic::div_mod::lemma_div_multiples_vanish(prev, k as int * RATE_SCALE);
}

/// From the fourth term on, each term is at most half the previous one.
proof fn lemma_exp_term_halves(x: int, k: nat)
    requires
        0 <= x <= 2 * RATE_SCALE,
        4 <= k,
    ensures
        2 * spec_exp_term(x, k) <= spec_exp_term(x, (k - 1) as nat),
{
    lemma_exp_term_nonneg(x, (k - 1) as nat);
    let prev = spec_exp_term(x, (k - 1) as nat);
    assert(prev * x * 2 <= (k * RATE_SCALE) * prev) by (nonlinear_arith)
        requires
            0 <= prev,
            0 <= x <= 2 * RATE_SCALE,
            4 <= k,
    ;
    lemma_two_divs(prev * x, prev, k as int * RATE_SCALE);
}

/// The partial sums plus twice the running term stay below twelve.
pub proof fn lemma_exp_sum_upper(x: int, n: nat)
    requires
        0 <= x <= 2 * RATE_SCALE,
        3 <= n,
    ensures
        spec_exp_sum(x, n) + 2 * spec_exp_term(x, n) <= 12 * RATE_SCALE,
        spec_exp_sum(x, n) <= 12 * RATE_SCALE,
    decreases n,
{
    if n == 3 {
        reveal_with_fuel(spec_exp_sum, 5);
        assert(spec_exp_sum(x, 3) == spec_exp_term(x, 0) + spec_exp_term(x, 1) + spec_exp_term(
            x,
            2,
        ) + spec_exp_term(x, 3));
        lemma_exp_term_upper(x, 1);
        lemma_exp_term_upper(x, 2);
        lemma_exp_term_upper(x, 3);
    } else {
        lemma_exp_sum_upper(x, (n - 1) as nat);
        lemma_exp_term_halves(x, n);
        lemma_exp_term_nonneg(x, n);
    }
}

/// The series of an exponent within range lies between one and twelve,
/// in scale units.
pub proof fn lemma_exp_series_bounds(x: int)
    requires
        0 <= x <= 2 * RATE_SCALE,
    ensures
        RATE_SCALE <= spec_exp_series(x) <= 12 * RATE_SCALE,
{
    lemma_exp_series_lower(x);
    lemma_exp_sum_upper(x, EXP_TERMS as nat);
}

/// The truncated Taylor series of `e^(x / RATE_SCALE)`, scaled by
/// `RATE_SCALE`.  For exponents up to [`EXP_ARG_MAX`] the result stays
/// between `RATE_SCALE` and [`FACTOR_NUM_MAX`].
pub fn exp_series(x: i128) -> (r: i128)
    requires
        0 <= x <= EXP_ARG_MAX,
    ensures
        r == spec_exp_series(x as int),
        RATE_SCALE <= r <= FACTOR_NUM_MAX,
{
    let mut term: i128 = RATE_SCALE;
    let mut sum: i128 = RATE_SCALE;
    let mut k: u32 = 1;
    proof {
        lemma_exp_series_lower(x as int);
    }
    while k <= EXP_TERMS
        invariant
            1 <= k <= EXP_TERMS + 1,
            0 <= x <= EXP_ARG_MAX,
            term == spec_exp_term(x as int, (k - 1) as nat),
            sum == spec_exp_sum(x as int, (k - 1) as nat),
            0 <= term <= 2 * RATE_SCALE,
            RATE_SCALE <= sum,
            k <= 3 ==> sum <= (2 * k - 1) * RATE_SCALE,
            k >= 4 ==> sum + 2 * term <= 12 * RATE_SCALE,
        decreases EXP_TERMS + 1 - k,
    {
        let kk: i128 = k as i128;
        let ghost prev = term as int;
        proof {
            assert(0 <= prev * x <= 2 * RATE_SCALE * (2 * RATE_SCALE)) by (nonlinear_arith)
                requires
                    0 <= prev <= 2 * RATE_SCALE,
                    0 <= x <= 2 * RATE_SCALE,
            ;
        }
        let next = term * x / (kk * RATE_SCALE);
        proof {
            lemma_div_is_ordered(0, prev * x, kk as int * RATE_SCALE);
            if k == 1 {
                // term one is the exponent itself
                assert(prev * x / (1int * RATE_SCALE) == x) by (nonlinear_arith)
                    requires
                        prev == RATE_SCALE,
                        0 <= x,
                ;
            } else {
                // for k >= 2 the factor x / (k * S) is at most one
                assert(prev * x <= (kk as int * RATE_SCALE) * prev) by (nonlinear_arith)
                    requires
                        0 <= prev,
                        0 <= x <= 2 * RATE_SCALE,
                        kk as int >= 2,
                ;
                lemma_div_is_ordered(prev * x, (kk as int * RATE_SCALE) * prev, kk as int
                    * RATE_SCALE);
                vstd::arithmetic::div_mod::lemma_div_multiples_vanish(prev, kk as int * RATE_SCALE);
            }
            if k >= 4 {
                // from the fourth step on, each term at most halves
                assert(prev * x * 2 <= (kk as int * RATE_SCALE) * prev) by (nonlinear_arith)
                    requires
                        0 <= prev,
                        0 <= x <= 2 * RATE_SCALE,
                        kk as int >= 4,
                ;
                lemma_two_divs(prev * x, prev, kk as int * RATE_SCALE);
            }
        }
        sum = sum + next;
        term = next;
        k = k + 1;
    }
    sum
}

/// If twice `a` is at most `p * d`, then `a / d` is at most half of `p`.
proof fn lemma_two_divs(a: int, p: int, d: int)
    requires
        0 <= a,
        0 < d,
        0 <= p,
        a * 2 <= d * p,
    ensures
        2 * (a / d) <= p,
{
    let q = a / d;
    vstd::arithmetic::div_mod::lemma_fundamental_div_mod(a, d);
    assert(2 * (d * q) <= d * p) by (nonlinear_arith)
        requires
            d * q <= a,
            a * 2 <= d * p,
            0 < d,
    ;
    assert(2 * q <= p) by (nonlinear_arith)
        requires
            2 * (d * q) <= d * p,
            0 < d,
    ;
}

/// The reduced argument of the logarithm series:
/// `z = w * RATE_SCALE / (2 * RATE_SCALE + w)`.
pub open spec fn spec_atanh_z(w: int) -> int {
    (w * RATE_SCALE) / (2 * RATE_SCALE + w)
}

/// Odd power `2j + 1` of `z / RATE_SCALE`, scaled by `RATE_SCALE` and
/// truncated at each step; `u` is the truncated square of `z`.
pub open spec fn spec_atanh_pow(z: int, u: int, j: nat) -> int
    decreases j,
{
    if j == 0 {
        z
    } else {
        spec_atanh_pow(z, u, (j - 1) as nat) * u / (RATE_SCALE as int)
    }
}

/// Partial sum of the series `atanh(z / RATE_SCALE) = z + z^3/3 + ...`,
/// scaled by `RATE_SCALE`, truncating every summand.
pub open spec fn spec_atanh_sum(z: int, u: int, j: nat) -> int
    decreases j,
{
    if j == 0 {
        z
    } else {
        spec_atanh_sum(z, u, (j - 1) as nat) + spec_atanh_pow(z, u, j) / (2 * j + 1) as int
    }
}

/// Number of odd powers summed for the logarithm; later powers truncate
/// to zero for arguments up to `2 * RATE_SCALE`.
pub const ATANH_TERMS: u32 = 20;

/// Fixed-point `ln(1 + w / RATE_SCALE)`, scaled by `RATE_SCALE`: twice
/// the truncated series of `atanh(w / (2 + w))`.
pub open spec fn spec_ln1p(w: int) -> int {
    let z = spec_atanh_z(w);
    let u = z * z / (RATE_SCALE as int);
    2 * spec_atanh_sum(z, u, ATANH_TERMS as nat)
}

/// Every power in the logarithm series is between zero and `z`.
proof fn lemma_atanh_pow_bounds(z: int, u: int, j: nat)
    requires
        0 <= z,
        0 <= u <= RATE_SCALE,
    ensures
        0 <= spec_atanh_pow(z, u, j) <= z,
    decreases j,
{
    if j > 0 {
        lemma_atanh_pow_bounds(z, u, (j - 1) as nat);
        let prev = spec_atanh_pow(z, u, (j - 1) as nat);
        assert(0 <= prev * u) by (nonlinear_arith)
            requires
                0 <= prev,
                0 <= u,
        ;
        lemma_div_is_ordered(0, prev * u, RATE_SCALE as int);
        assert(prev * u <= RATE_SCALE * prev) by (nonlinear_arith)
            requires
                0 <= prev,
                u <= RATE_SCALE,
        ;
        lemma_div_is_ordered(prev * u, RATE_SCALE * prev, RATE_SCALE as int);
        vstd::arithmetic::div_mod::lemma_div_multiples_vanish(prev, RATE_SCALE as int);
    }
}

/// The partial logarithm sums are between zero and `(j + 1) * z`.
pub proof fn lemma_atanh_sum_bounds(z: int, u: int, j: nat)
    requires
        0 <= z,
        0 <= u <= RATE_SCALE,
    ensures
        0 <= spec_atanh_sum(z, u, j) <= (j + 1) * z,
    decreases j,
{
    if j == 0 {
        assert((j + 1) * z == z) by (nonlinear_arith)
            requires
                j == 0,
        ;
    } else {
        lemma_atanh_sum_bounds(z, u, (j - 1) as nat);
        lemma_atanh_pow_bounds(z, u, j);
        vstd::arithmetic::div_mod::lemma_div_basics_5(spec_atanh_pow(z, u, j), (2 * j + 1) as int);
        assert((j + 1) * z == ((j - 1) as nat + 1) * z + z) by (nonlinear_arith)
            requires
                j >= 1,
        ;
    }
}

/// Multiplying a truncated quotient back by the divisor stays below the
/// dividend.
proof fn lemma_div_mul_le(a: int, d: int)
    requires
        0 <= a,
        0 < d,
    ensures
        d * (a / d) <= a,
{
    vstd::arithmetic::div_mod::lemma_fundamental_div_mod(a, d);
    vstd::arithmetic::div_mod::lemma_mod_bound(a, d);
}

/// Scaling a truncated quotient: if `c * a <= d * p` then
/// `c * (a / d) <= p`.
proof fn lemma_scaled_div_le(a: int, p: int, d: int, c: int)
    requires
        0 <= a,
        0 < d,
        0 <= p,
        0 < c,
        a * c <= d * p,
    ensures
        c * (a / d) <= p,
{
    let q = a / d;
    lemma_div_mul_le(a, d);
    assert(c * q <= p) by (nonlinear_arith)
        requires
            d * q <= a,
            a * c <= d * p,
            0 < d,
            0 < c,
            0 <= a,
    ;
}

/// From the first odd power on, each power is at most a quarter of the
/// one before.
proof fn lemma_atanh_pow_quarter(z: int, u: int, j: nat)
    requires
        0 <= z,
        0 <= u,
        4 * u <= RATE_SCALE,
        1 <= j,
    ensures
        4 * spec_atanh_pow(z, u, j) <= spec_atanh_pow(z, u, (j - 1) as nat),
{
    lemma_atanh_pow_bounds(z, u, (j - 1) as nat);
    let prev = spec_atanh_pow(z, u, (j - 1) as nat);
    assert(0 <= prev * u && (prev * u) * 4 <= RATE_SCALE * prev) by (nonlinear_arith)
        requires
            0 <= prev,
            0 <= u,
            4 * u <= RATE_SCALE,
    ;
    lemma_scaled_div_le(prev * u, prev, RATE_SCALE as int, 4);
}

/// Three times a partial logarithm sum, plus the running power, never
/// exceeds four times the series argument.
proof fn lemma_atanh_sum_tight(z: int, u: int, j: nat)
    requires
        0 <= z,
        0 <= u,
        4 * u <= RATE_SCALE,
    ensures
        3 * spec_atanh_sum(z, u, j) + spec_atanh_pow(z, u, j) <= 4 * z,
    decreases j,
{
    if j == 0 {
    } else {
        lemma_atanh_sum_tight(z, u, (j - 1) as nat);
        lemma_atanh_pow_quarter(z, u, j);
        lemma_atanh_pow_bounds(z, u, j);
        let p = spec_atanh_pow(z, u, j);
        // the summand is at most a third of the power
        assert(0 <= p * 3 && p * 3 <= (2 * j + 1) as int * p) by (nonlinear_arith)
            requires
                0 <= p,
                1 <= j,
        ;
        lemma_scaled_div_le(p, p, (2 * j + 1) as int, 3);
    }
}

/// The fixed-point logarithm is at most four thirds of its argument:
/// `3 * ln(1 + w) <= 4 * w` in scale units.
pub proof fn lemma_ln1p_le(w: int)
    requires
        0 <= w <= 2 * RATE_SCALE,
    ensures
        3 * spec_ln1p(w) <= 4 * w,
{
    let z = spec_atanh_z(w);
    let u = z * z / (RATE_SCALE as int);
    assert(0 <= w * RATE_SCALE) by (nonlinear_arith)
        requires
            0 <= w,
    ;
    lemma_div_is_ordered(0, w * RATE_SCALE, 2 * RATE_SCALE + w);
    // twice the reduced argument stays below the argument and the scale
    assert((w * RATE_SCALE) * 2 <= (2 * RATE_SCALE + w) * w && (w * RATE_SCALE) * 2 <= (2
        * RATE_SCALE + w) * RATE_SCALE) by (nonlinear_arith)
        requires
            0 <= w <= 2 * RATE_SCALE,
    ;
    lemma_scaled_div_le(w * RATE_SCALE, w, 2 * RATE_SCALE + w, 2);
    lemma_scaled_div_le(w * RATE_SCALE, RATE_SCALE as int, 2 * RATE_SCALE + w, 2);
    // the squared term is at most a quarter of the scale
    assert(0 <= z * z && (z * z) * 4 <= RATE_SCALE * RATE_SCALE) by (nonlinear_arith)
        requires
            0 <= 2 * z <= RATE_SCALE,
    ;
    lemma_div_is_ordered(0, z * z, RATE_SCALE as int);
    lemma_scaled_div_le(z * z, RATE_SCALE as int, RATE_SCALE as int, 4);
    lemma_atanh_sum_tight(z, u, ATANH_TERMS as nat);
    lemma_atanh_pow_bounds(z, u, ATANH_TERMS as nat);
}

/// The fixed-point logarithm of one plus a non-negative argument is
/// non-negative.
pub proof fn lemma_ln1p_nonneg(w: int)
    requires
        0 <= w,
    ensures
        0 <= spec_ln1p(w),
{
    let z = spec_atanh_z(w);
    let u = z * z / (RATE_SCALE as int);
    assert(0 <= w * RATE_SCALE) by (nonlinear_arith)
        requires
            0 <= w,
    ;
    lemma_div_is_ordered(0, w * RATE_SCALE, 2 * RATE_SCALE + w);
    assert(w * RATE_SCALE <= (2 * RATE_SCALE + w) * RATE_SCALE) by (nonlinear_arith)
        requires
            0 <= w,
    ;
    lemma_div_is_ordered(w * RATE_SCALE, (2 * RATE_SCALE + w) * RATE_SCALE, 2 * RATE_SCALE + w);
    vstd::arithmetic::div_mod::lemma_div_multiples_vanish(RATE_SCALE as int, 2 * RATE_SCALE + w);
    assert(0 <= z * z && z * z <= RATE_SCALE * RATE_SCALE) by (nonlinear_arith)
        requires
            0 <= z <= RATE_SCALE,
    ;
    lemma_div_is_ordered(0, z * z, RATE_SCALE as int);
    lemma_div_is_ordered(z * z, RATE_SCALE * RATE_SCALE, RATE_SCALE as int);
    vstd::arithmetic::div_mod::lemma_div_multiples_vanish(RATE_SCALE as int, RATE_SCALE as int);
    lemma_atanh_sum_bounds(z, u, ATANH_TERMS as nat);
}

/// Fixed-point `ln(1 + w / RATE_SCALE)` for `0 <= w <= 2 * RATE_SCALE`,
/// scaled by `RATE_SCALE`.
pub fn ln1p_fixed(w: i128) -> (r: i128)
    requires
        0 <= w <= 2 * RATE_SCALE,
    ensures
        r == spec_ln1p(w as int),
        0 <= r <= 21 * RATE_SCALE,
{
    proof {
        assert(0 <= w as int * RATE_SCALE) by (nonlinear_arith)
            requires
                0 <= w as int,
        ;
    }
    let z: i128 = (w * RATE_SCALE) / (2 * RATE_SCALE + w);
    proof {
        lemma_div_is_ordered(0, w as int * RATE_SCALE, 2 * RATE_SCALE + w as int);
        // z is at most half of the scale
        assert((w as int * RATE_SCALE) * 2 <= (2 * RATE_SCALE + w as int) * RATE_SCALE)
            by (nonlinear_arith)
            requires
                0 <= w as int <= 2 * RATE_SCALE,
        ;
        lemma_two_divs(w as int * RATE_SCALE, RATE_SCALE as int, 2 * RATE_SCALE + w as int);
        assert(0 <= z as int * z as int <= RATE_SCALE * RATE_SCALE) by (nonlinear_arith)
            requires
                0 <= z as int <= RATE_SCALE,
        ;
    }
    let u: i128 = z * z / RATE_SCALE;
    proof {
        lemma_div_is_ordered(0, z as int * z as int, RATE_SCALE as int);
        lemma_div_is_ordered(z as int * z as int, RATE_SCALE * RATE_SCALE, RATE_SCALE as int);
        vstd::arithmetic::div_mod::lemma_div_multiples_vanish(RATE_SCALE as int, RATE_SCALE as int);
    }
    let mut pow: i128 = z;
    let mut sum: i128 = z;
    let mut j: u32 = 1;
    while j <= ATANH_TERMS
        invariant
            1 <= j <= ATANH_TERMS + 1,
            0 <= z <= RATE_SCALE / 2,
            0 <= u <= RATE_SCALE,
            pow == spec_atanh_pow(z as int, u as int, (j - 1) as nat),
            sum == spec_atanh_sum(z as int, u as int, (j - 1) as nat),
            0 <= pow <= z,
            0 <= sum <= (j as int) * z,
        decreases ATANH_TERMS + 1 - j,
    {
        proof {
            lemma_atanh_pow_bounds(z as int, u as int, j as nat);
            lemma_atanh_sum_bounds(z as int, u as int, j as nat);
            assert(0 <= pow * u && pow * u <= RATE_SCALE * pow) by (nonlinear_arith)
                requires
                    0 <= pow,
                    0 <= u <= RATE_SCALE,
            ;
            lemma_div_is_ordered(0, pow as int * u as int, RATE_SCALE as int);
        }
        let next = pow * u / RATE_SCALE;
        proof {
            assert(next == spec_atanh_pow(z as int, u as int, j as nat));
            vstd::arithmetic::div_mod::lemma_div_basics_5(next as int, 2 * j as int + 1);
            assert((j as int + 1) * z == j as int * z + z) by (nonlinear_arith);
            assert(j as int * z <= 21 * (RATE_SCALE / 2)) by (nonlinear_arith)
                requires
                    0 <= j as int <= 21,
                    0 <= z as int <= RATE_SCALE / 2,
            ;
        }
        sum = sum + next / (2 * j as i128 + 1);
        pow = next;
        j = j + 1;
    }
    proof {
        assert(sum <= 21 * (z as int));
        assert(21 * (z as int) <= 21 * (RATE_SCALE / 2)) by (nonlinear_arith)
            requires
                0 <= z as int <= RATE_SCALE / 2,
        ;
    }
    2 * sum
}

} // verus!
