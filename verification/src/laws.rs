//! Laws of discounting, stated over the models of the public contracts
//! and proved once for every admissible input.

use vstd::prelude::*;
use vstd::arithmetic::div_mod::lemma_div_basics;
use vstd::arithmetic::div_mod::lemma_div_is_ordered;
use vstd::arithmetic::div_mod::lemma_div_multiples_vanish_quotient;
use vstd::arithmetic::div_mod::lemma_div_plus_one;
use vstd::arithmetic::div_mod::lemma_div_pos_is_pos;
use crate::cash_flow::CashFlow;
use crate::dates::Date;
use crate::day_count::spec_year_fraction_plain;
use crate::exp::EXP_ARG_MAX;
use crate::exp::EXP_TERMS;
use crate::exp::lemma_exp_series_bounds;
use crate::exp::lemma_exp_series_lower;
use crate::exp::lemma_exp_sum_at_zero;
use crate::exp::lemma_exp_sum_monotone;
use crate::exp::lemma_ln1p_le;
use crate::exp::lemma_ln1p_nonneg;
use crate::exp::spec_exp_series;
use crate::numeric::RATE_SCALE;
use crate::numeric::Rational;
use crate::numeric::mul_div_trunc_signed;
use crate::rates::Compounding;
use crate::rates::Discounter;
use crate::rates::FlatRate;
use crate::rates::RATE_MAX;
use crate::rates::spec_discount_factor;
use crate::rates::spec_discounted;
use crate::rates::spec_effective_rate;
use crate::rates::spec_exponent;
use crate::rates::spec_exponent_ok;
use crate::rates::spec_flow_pairs;
use crate::rates::spec_sum_discounted;

verus! {

/// Zero elapsed time means no discounting: for every flat rate and every
/// compounding convention, the discount factor from a date to the same
/// date is the rational one, exactly.
pub proof fn lemma_discount_factor_at_valuation(fr: FlatRate, d: Date)
    ensures
        fr.spec_factor(d, d).num == fr.spec_factor(d, d).den,
{
    let yf = spec_year_fraction_plain(fr.day_count_conv, d, d);
    assert(yf.num == 0);
    lemma_exponent_of_zero_fraction(fr.compounding, fr.rate as int, yf);
    lemma_exp_sum_at_zero(EXP_TERMS as nat);
}

/// A year fraction with numerator zero gives exponent zero.
proof fn lemma_exponent_of_zero_fraction(c: Compounding, rate: int, yf: Rational)
    requires
        yf.num == 0,
        yf.den > 0,
    ensures
        spec_exponent(c, rate, yf) == 0,
{
    let eff = spec_effective_rate(c, rate);
    lemma_div_basics(yf.den as int);
    if eff >= 0 {
        assert(eff * 0 == 0) by (nonlinear_arith);
    } else {
        assert((-eff) * 0 == 0) by (nonlinear_arith);
    }
}

/// For a non-negative rate, a larger year fraction never gives a larger
/// discount factor, under any compounding convention.
pub proof fn lemma_discount_factor_monotone(c: Compounding, rate: int, yf1: Rational, yf2: Rational)
    requires
        0 <= rate <= RATE_MAX,
        yf1.wf(),
        yf2.wf(),
        yf1.le(yf2),
        spec_exponent_ok(c, rate, yf1),
        spec_exponent_ok(c, rate, yf2),
    ensures
        spec_discount_factor(c, rate, yf2).le(spec_discount_factor(c, rate, yf1)),
{
    lemma_exponent_monotone(c, rate, yf1, yf2);
    let x1 = spec_exponent(c, rate, yf1);
    let x2 = spec_exponent(c, rate, yf2);
    if x1 == x2 {
        assert(spec_discount_factor(c, rate, yf2) == spec_discount_factor(c, rate, yf1));
        let f = spec_discount_factor(c, rate, yf1);
        assert(f.num * f.den <= f.num * f.den) by (nonlinear_arith);
    } else {
        lemma_discount_factor_decreases_in_exponent(c, rate, yf1, yf2);
    }
}

/// For a positive rate, the discount factor strictly decreases as the
/// year fraction grows, whenever the fixed-point exponents of the two
/// year fractions differ.  (Year fractions so close together that they
/// truncate to the same fixed-point exponent share one factor.)
pub proof fn lemma_discount_factor_strictly_decreasing(
    c: Compounding,
    rate: int,
    yf1: Rational,
    yf2: Rational,
)
    requires
        0 < rate <= RATE_MAX,
        yf1.wf(),
        yf2.wf(),
        yf1.lt(yf2),
        spec_exponent_ok(c, rate, yf1),
        spec_exponent_ok(c, rate, yf2),
        spec_exponent(c, rate, yf1) != spec_exponent(c, rate, yf2),
    ensures
        spec_discount_factor(c, rate, yf2).lt(spec_discount_factor(c, rate, yf1)),
{
    lemma_exponent_monotone(c, rate, yf1, yf2);
    lemma_discount_factor_decreases_in_exponent(c, rate, yf1, yf2);
}

/// The discount factor strictly decreases from `yf1` to `yf2` when the
/// exponent strictly increases.
proof fn lemma_discount_factor_decreases_in_exponent(
    c: Compounding,
    rate: int,
    yf1: Rational,
    yf2: Rational,
)
    requires
        spec_exponent_ok(c, rate, yf1),
        spec_exponent_ok(c, rate, yf2),
        spec_exponent(c, rate, yf1) < spec_exponent(c, rate, yf2),
    ensures
        spec_discount_factor(c, rate, yf2).lt(spec_discount_factor(c, rate, yf1)),
{
    let x1 = spec_exponent(c, rate, yf1);
    let x2 = spec_exponent(c, rate, yf2);
    match c {
        Compounding::Simple => {
            let f1 = spec_discount_factor(c, rate, yf1);
            let f2 = spec_discount_factor(c, rate, yf2);
            assert(f1.den == RATE_SCALE + x1 && f2.den == RATE_SCALE + x2);
            assert(RATE_SCALE as int * (RATE_SCALE + x1) < RATE_SCALE as int * (RATE_SCALE + x2))
                by (nonlinear_arith)
                requires
                    x1 < x2,
                    RATE_SCALE as int > 0,
            ;
            assert(f2.lt(f1));
        },
        _ => {
            if 0 <= x1 {
                lemma_exp_series_bounds(x1);
                lemma_exp_series_bounds(x2);
                lemma_exp_sum_monotone(x1, x2, EXP_TERMS as nat);
                assert(RATE_SCALE as int * spec_exp_series(x1) < RATE_SCALE as int
                    * spec_exp_series(x2)) by (nonlinear_arith)
                    requires
                        spec_exp_series(x1) < spec_exp_series(x2),
                ;
                assert(spec_discount_factor(c, rate, yf2).lt(spec_discount_factor(c, rate, yf1)));
            } else if x2 < 0 {
                lemma_exp_series_bounds(-x1);
                lemma_exp_series_bounds(-x2);
                lemma_exp_sum_monotone(-x2, -x1, EXP_TERMS as nat);
                assert(spec_exp_series(-x2) * (RATE_SCALE as int) < spec_exp_series(-x1) * (
                RATE_SCALE as int)) by (nonlinear_arith)
                    requires
                        spec_exp_series(-x2) < spec_exp_series(-x1),
                ;
                assert(spec_discount_factor(c, rate, yf2).lt(spec_discount_factor(c, rate, yf1)));
            } else {
                // x1 < 0 < x2: the factor crosses one
                lemma_exp_series_bounds(-x1);
                lemma_exp_series_bounds(x2);
                lemma_exp_series_lower(-x1);
                lemma_exp_series_lower(x2);
                assert(RATE_SCALE as int * RATE_SCALE < spec_exp_series(-x1) * spec_exp_series(x2))
                    by (nonlinear_arith)
                    requires
                        spec_exp_series(-x1) >= RATE_SCALE + (-x1),
                        spec_exp_series(x2) >= RATE_SCALE as int,
                        x1 < 0,
                        RATE_SCALE as int > 0,
                ;
                assert(spec_discount_factor(c, rate, yf2).lt(spec_discount_factor(c, rate, yf1)));
            }
        },
    }
}

/// For a non-negative rate, the fixed-point exponent grows with the year
/// fraction.
pub proof fn lemma_exponent_monotone(c: Compounding, rate: int, yf1: Rational, yf2: Rational)
    requires
        0 <= rate <= RATE_MAX,
        yf1.wf(),
        yf2.wf(),
        yf1.le(yf2),
    ensures
        spec_exponent(c, rate, yf1) <= spec_exponent(c, rate, yf2),
{
    lemma_effective_rate_nonneg(c, rate);
    let eff = spec_effective_rate(c, rate);
    lemma_trunc_scale_monotone(eff, yf1.num as int, yf1.den as int, yf2.num as int, yf2.den as int);
}

/// The effective continuous rate of a non-negative rate is non-negative.
proof fn lemma_effective_rate_nonneg(c: Compounding, rate: int)
    requires
        0 <= rate,
    ensures
        0 <= spec_effective_rate(c, rate),
{
    match c {
        Compounding::Simple => {
        },
        Compounding::Continuous => {
        },
        Compounding::Annual => {
            lemma_ln1p_nonneg(rate);
        },
        Compounding::SemiAnnual => {
            lemma_ln1p_nonneg(rate / 2);
        },
        Compounding::Quarterly => {
            lemma_ln1p_nonneg(rate / 4);
        },
        Compounding::Monthly => {
            lemma_ln1p_nonneg(rate / 12);
        },
    }
}

/// Scaling a non-negative value by a larger rational gives a larger
/// truncated result.
proof fn lemma_trunc_scale_monotone(v: int, n1: int, d1: int, n2: int, d2: int)
    requires
        0 <= v,
        0 < d1,
        0 < d2,
        n1 * d2 <= n2 * d1,
    ensures
        mul_div_trunc_signed(v, n1, d1) <= mul_div_trunc_signed(v, n2, d2),
{
    if n1 >= 0 {
        assert(0 <= n2) by (nonlinear_arith)
            requires
                n1 * d2 <= n2 * d1,
                0 <= n1,
                0 < d1,
                0 < d2,
        ;
        assert((v * n1) * d2 <= (v * n2) * d1 && 0 <= v * n1) by (nonlinear_arith)
            requires
                n1 * d2 <= n2 * d1,
                0 <= v,
                0 <= n1,
        ;
        lemma_cross_div_le(v * n1, d1, v * n2, d2);
    } else if n2 >= 0 {
        assert(0 <= v * (-n1) && 0 <= v * n2) by (nonlinear_arith)
            requires
                0 <= v,
                n1 < 0,
                0 <= n2,
        ;
        lemma_div_pos_is_pos(v * (-n1), d1);
        lemma_div_pos_is_pos(v * n2, d2);
    } else {
        assert((v * (-n2)) * d1 <= (v * (-n1)) * d2 && 0 <= v * (-n2)) by (nonlinear_arith)
            requires
                n1 * d2 <= n2 * d1,
                0 <= v,
                n1 < 0,
                n2 < 0,
        ;
        lemma_cross_div_le(v * (-n2), d2, v * (-n1), d1);
    }
}

/// Division respects the rational order: `a / b <= c / d` when
/// `a * d <= c * b` for non-negative numerators and positive divisors.
proof fn lemma_cross_div_le(a: int, b: int, c: int, d: int)
    requires
        0 <= a,
        0 < b,
        0 < d,
        a * d <= c * b,
    ensures
        a / b <= c / d,
{
    assert(0 <= c) by (nonlinear_arith)
        requires
            a * d <= c * b,
            0 <= a,
            0 < b,
            0 < d,
    ;
    lemma_div_multiples_vanish_quotient(d, a, b);
    lemma_div_multiples_vanish_quotient(b, c, d);
    assert(d * a == a * d && b * c == c * b && 0 < d * b && d * b == b * d) by (nonlinear_arith)
        requires
            0 < b,
            0 < d,
    ;
    lemma_div_is_ordered(d * a, b * c, d * b);
}

/// The effective continuous rate is at most four thirds of the plain
/// rate: `3 * rho <= 4 * r` for every compounding convention.
proof fn lemma_effective_rate_le(c: Compounding, rate: int)
    requires
        0 <= rate <= RATE_MAX,
    ensures
        3 * spec_effective_rate(c, rate) <= 4 * rate,
{
    match c {
        Compounding::Simple => {
        },
        Compounding::Continuous => {
        },
        Compounding::Annual => {
            lemma_ln1p_le(rate);
        },
        Compounding::SemiAnnual => {
            lemma_ln1p_le(rate / 2);
            lemma_div_mul_back(rate, 2);
        },
        Compounding::Quarterly => {
            lemma_ln1p_le(rate / 4);
            lemma_div_mul_back(rate, 4);
        },
        Compounding::Monthly => {
            lemma_ln1p_le(rate / 12);
            lemma_div_mul_back(rate, 12);
        },
    }
}

/// Multiplying a truncated quotient back by the divisor stays below the
/// dividend, and the quotient keeps the dividend's bounds.
proof fn lemma_div_mul_back(rate: int, m: int)
    requires
        0 <= rate <= RATE_MAX,
        0 < m,
    ensures
        m * (rate / m) <= rate,
        0 <= rate / m <= RATE_MAX,
{
    vstd::arithmetic::div_mod::lemma_fundamental_div_mod(rate, m);
    vstd::arithmetic::div_mod::lemma_mod_bound(rate, m);
    vstd::arithmetic::div_mod::lemma_div_pos_is_pos(rate, m);
    vstd::arithmetic::div_mod::lemma_div_basics_5(rate, m);
}

/// A sufficient condition for the fixed-point domain of the discount
/// factor, checkable from the rate and the year fraction alone: for a
/// flow paying on or after the valuation date, the domain holds
/// whenever twice rate-times-year-fraction is at most the exponent
/// bound — at a rate `r` this admits every maturity up to about
/// `1 / r` years, and the exponent is then non-negative.
pub proof fn lemma_exponent_ok_for_future(c: Compounding, rate: int, yf: Rational)
    requires
        0 <= rate <= RATE_MAX,
        yf.wf(),
        0 <= yf.num,
        2 * rate * yf.num <= EXP_ARG_MAX * yf.den,
    ensures
        spec_exponent_ok(c, rate, yf),
        0 <= spec_exponent(c, rate, yf),
{
    lemma_effective_rate_nonneg(c, rate);
    lemma_effective_rate_le(c, rate);
    let eff = spec_effective_rate(c, rate);
    let n = yf.num as int;
    let d = yf.den as int;
    let x = spec_exponent(c, rate, yf);
    assert(0 <= eff * n) by (nonlinear_arith)
        requires
            0 <= eff,
            0 <= n,
    ;
    lemma_div_pos_is_pos(eff * n, d);
    vstd::arithmetic::div_mod::lemma_fundamental_div_mod(eff * n, d);
    vstd::arithmetic::div_mod::lemma_mod_bound(eff * n, d);
    assert(3 * (d * x) <= 3 * (eff * n) <= 4 * (rate * n)) by (nonlinear_arith)
        requires
            d * x <= eff * n,
            3 * eff <= 4 * rate,
            0 <= n,
            0 <= eff,
    ;
    assert(2 * (rate * n) <= EXP_ARG_MAX * d) by (nonlinear_arith)
        requires
            2 * rate * n <= EXP_ARG_MAX * d,
    ;
    assert(x <= EXP_ARG_MAX) by (nonlinear_arith)
        requires
            3 * (d * x) <= 4 * (rate * n),
            2 * (rate * n) <= EXP_ARG_MAX * d,
            0 <= rate * n,
            0 < d,
    ;
}

/// The flat-rate domain condition, at the level of dates: a pay date on
/// or after the valuation date whose year fraction satisfies the bound
/// of `lemma_exponent_ok_for_future` is in the discounter's domain.
pub proof fn lemma_flat_rate_factor_ok(fr: FlatRate, today: Date, pay_date: Date)
    requires
        fr.rate_wf(),
        ({
            let yf = spec_year_fraction_plain(fr.day_count_conv, today, pay_date);
            &&& yf.wf()
            &&& 0 <= yf.num
            &&& 2 * fr.rate * yf.num <= EXP_ARG_MAX * yf.den
        }),
    ensures
        fr.factor_ok(today, pay_date),
{
    lemma_exponent_ok_for_future(
        fr.compounding,
        fr.rate as int,
        spec_year_fraction_plain(fr.day_count_conv, today, pay_date),
    );
}

/// The fixed-point truncation never identifies two year fractions over
/// a common denominator whose numerators differ, as long as the
/// effective rate is at least one tick per denominator unit — for
/// day-count denominators of a few million ticks, any real rate.  So
/// two distinct non-negative year fractions of the same convention give
/// strictly ordered exponents, and with them strictly ordered discount
/// factors.
pub proof fn lemma_exponent_separates_numerators(
    c: Compounding,
    rate: int,
    yf1: Rational,
    yf2: Rational,
)
    requires
        yf1.den == yf2.den,
        0 < yf1.den,
        0 <= yf1.num < yf2.num,
        spec_effective_rate(c, rate) >= yf1.den,
    ensures
        spec_exponent(c, rate, yf1) < spec_exponent(c, rate, yf2),
{
    let eff = spec_effective_rate(c, rate);
    let d = yf1.den as int;
    let n1 = yf1.num as int;
    let n2 = yf2.num as int;
    assert(eff * n1 + d <= eff * n2 && 0 <= eff * n1) by (nonlinear_arith)
        requires
            0 <= n1 < n2,
            eff >= d,
            0 < d,
    ;
    lemma_div_plus_one(eff * n1, d);
    lemma_div_is_ordered(d + eff * n1, eff * n2, d);
}

/// Discounting a stream that holds one single flow gives exactly the
/// directly discounted flow: the round trip between the single-flow and
/// the stream operation is exact.
pub proof fn lemma_single_flow_stream_round_trip<D: Discounter>(d: &D, cf: CashFlow, today: Date)
    ensures
        spec_sum_discounted(spec_flow_pairs(seq![cf], |dt: Date| d.spec_factor(today, dt)))
            == spec_discounted(cf.amount.amount as int, d.spec_factor(today, cf.date)),
{
    let pairs = spec_flow_pairs(seq![cf], |dt: Date| d.spec_factor(today, dt));
    assert(pairs.len() == 1);
    assert(pairs[0] == (cf.amount.amount as int, d.spec_factor(today, cf.date)));
    assert(pairs.drop_first() =~= Seq::<(int, Rational)>::empty());
    assert(spec_sum_discounted(Seq::<(int, Rational)>::empty()) == 0);
    assert(spec_sum_discounted(pairs) == spec_discounted(pairs[0].0, pairs[0].1)
        + spec_sum_discounted(pairs.drop_first()));
}

} // verus!
