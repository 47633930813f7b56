//! Discounting: compounding conventions, the `Discounter` capability,
//! and the flat-rate strategy.
//!
//! A discount factor is an exact rational.  For `Simple` compounding it
//! is `1 / (1 + r * t)` computed exactly from the fixed-point exponent
//! `x = trunc(r * t)`.  Every other convention reduces to the continuous
//! form `e^(-x)` with `x = trunc(rho * t)`, where `rho` is the effective
//! continuous rate of the convention (`r` itself for `Continuous`,
//! `m * ln(1 + r / m)` for compounding `m` times a year), evaluated by
//! the fixed-point kernels of [`crate::exp`].

use vstd::prelude::*;
use crate::cash_flow::CashAmount;
use crate::cash_flow::CashFlow;
use crate::currency::Currency;
use crate::dates::Date;
use crate::day_count::DayCountConv;
use crate::day_count::spec_year_fraction_plain;
use crate::exp::EXP_ARG_MAX;
use crate::exp::exp_series;
use crate::exp::ln1p_fixed;
use crate::exp::spec_exp_series;
use crate::exp::spec_ln1p;
use crate::numeric::AMOUNT_ABS_MAX;
use crate::numeric::FACTOR_NUM_MAX;
use crate::numeric::RATE_SCALE;
use crate::numeric::Rational;
use crate::numeric::mul_div_trunc;
use crate::numeric::mul_div_trunc_signed;
use crate::numeric::mul_rat_trunc;
use crate::numeric::mul_rat_trunc_signed;

verus! {

/// Methods for compounding interest rates.
#[derive(Debug, Clone, Copy, PartialEq, Eq, Structural)]
pub enum Compounding {
    Simple,
    Annual,
    SemiAnnual,
    Quarterly,
    Monthly,
    Continuous,
}

/// Discounting failed: the cash flow's currency does not match the
/// discounter's currency.
#[derive(Debug, Clone, Copy, PartialEq, Eq, Structural)]
pub struct DiscountError;

impl DiscountError {
    /// A human-readable description of the failure.
    pub fn message(&self) -> (r: String)
        ensures
            r@ == "discount error: the cash flow currency does not match the discounter currency"@,
    {
        String::from_str(
            "discount error: the cash flow currency does not match the discounter currency",
        )
    }
}

/// Largest admissible rate: two, that is, two hundred percent a year.
pub const RATE_MAX: i128 = 2_000_000_000_000_000;

/// Largest admissible exponent of the simple-compounding formula.
pub const SIMPLE_EXP_MAX: i128 = 150_000_000_000_000_000_000_000_000_000_000_000_000;

/// The effective continuous rate of a compounding convention: the `rho`
/// with `e^(-rho * t) = discount factor at rate `r``.  `Simple` keeps the
/// plain rate, which the simple formula uses directly.
pub open spec fn spec_effective_rate(c: Compounding, rate: int) -> int {
    match c {
        Compounding::Simple => rate,
        Compounding::Continuous => rate,
        Compounding::Annual => spec_ln1p(rate),
        Compounding::SemiAnnual => 2 * spec_ln1p(rate / 2),
        Compounding::Quarterly => 4 * spec_ln1p(rate / 4),
        Compounding::Monthly => 12 * spec_ln1p(rate / 12),
    }
}

/// The fixed-point exponent of the discount factor: the effective rate
/// times the year fraction, truncated toward zero.
pub open spec fn spec_exponent(c: Compounding, rate: int, yf: Rational) -> int {
    mul_div_trunc_signed(spec_effective_rate(c, rate), yf.num as int, yf.den as int)
}

/// The exponent lies in the domain of the fixed-point kernels: within
/// [`EXP_ARG_MAX`] for the exponential conventions, and for `Simple` far
/// enough above minus one that the factor stays at most twelve.
pub open spec fn spec_exponent_ok(c: Compounding, rate: int, yf: Rational) -> bool {
    let x = spec_exponent(c, rate, yf);
    match c {
        Compounding::Simple => 12 * (RATE_SCALE + x) >= RATE_SCALE && x <= SIMPLE_EXP_MAX,
        _ => -EXP_ARG_MAX <= x <= EXP_ARG_MAX,
    }
}

/// The discount factor as an exact rational, from the fixed-point
/// exponent `x`: `RATE_SCALE / (RATE_SCALE + x)` for `Simple`, and the
/// exponential series otherwise.
pub open spec fn spec_discount_factor(c: Compounding, rate: int, yf: Rational) -> Rational {
    let x = spec_exponent(c, rate, yf);
    match c {
        Compounding::Simple => Rational { num: RATE_SCALE, den: (RATE_SCALE + x) as i128 },
        _ => {
            if x >= 0 {
                Rational { num: RATE_SCALE, den: spec_exp_series(x) as i128 }
            } else {
                Rational { num: spec_exp_series(-x) as i128, den: RATE_SCALE }
            }
        },
    }
}

/// Bounds every discount factor satisfies: positive, with a numerator of
/// at most [`FACTOR_NUM_MAX`] and a value of at most twelve.
pub open spec fn factor_bounded(r: Rational) -> bool {
    &&& 0 < r.den
    &&& 0 < r.num <= FACTOR_NUM_MAX
    &&& r.num <= 12 * r.den
}

/// The effective continuous rate of the convention, in fixed point.
pub fn effective_rate(c: Compounding, rate: i128) -> (r: i128)
    requires
        0 <= rate <= RATE_MAX,
    ensures
        r == spec_effective_rate(c, rate as int),
        -AMOUNT_ABS_MAX <= r <= AMOUNT_ABS_MAX,
{
    match c {
        Compounding::Simple => rate,
        Compounding::Continuous => rate,
        Compounding::Annual => ln1p_fixed(rate),
        Compounding::SemiAnnual => 2 * ln1p_fixed(rate / 2),
        Compounding::Quarterly => 4 * ln1p_fixed(rate / 4),
        Compounding::Monthly => 12 * ln1p_fixed(rate / 12),
    }
}

/// The amount of a single discounted cash flow: the flow's amount scaled
/// by the discount factor `f`, truncated toward zero.
pub open spec fn spec_discounted(amount: int, f: Rational) -> int {
    mul_div_trunc(amount, f.num as int, f.den as int)
}

/// The sum of discounted amounts over a sequence of pairs of a flow's
/// amount and its discount factor.
pub open spec fn spec_sum_discounted(pairs: Seq<(int, Rational)>) -> int
    decreases pairs.len(),
{
    if pairs.len() == 0 {
        0int
    } else {
        spec_discounted(pairs[0].0, pairs[0].1) + spec_sum_discounted(pairs.drop_first())
    }
}

/// The amount-and-factor pairs of a stream of flows under a fixed
/// assignment of factors to dates.
pub open spec fn spec_flow_pairs(
    flows: Seq<CashFlow>,
    factor_of: spec_fn(Date) -> Rational,
) -> Seq<(int, Rational)> {
    flows.map_values(|cf: CashFlow| (cf.amount.amount as int, factor_of(cf.date)))
}

/// A discounted amount is at most twelve times the flow's amount in
/// magnitude.
proof fn lemma_discounted_amount_bound(v: int, f: Rational)
    requires
        -AMOUNT_ABS_MAX <= v <= AMOUNT_ABS_MAX,
        factor_bounded(f),
    ensures
        -12 * AMOUNT_ABS_MAX <= mul_div_trunc(v, f.num as int, f.den as int) <= 12
            * AMOUNT_ABS_MAX,
{
    let p = f.num as int;
    let q = f.den as int;
    if v >= 0 {
        assert(v * p <= (12 * v) * q) by (nonlinear_arith)
            requires
                0 <= v,
                0 < q,
                p <= 12 * q,
        ;
        vstd::arithmetic::div_mod::lemma_div_is_ordered(v * p, (12 * v) * q, q);
        vstd::arithmetic::div_mod::lemma_div_multiples_vanish(12 * v, q);
        vstd::arithmetic::div_mod::lemma_div_basics_4(v * p, q);
        assert(0 <= v * p) by (nonlinear_arith)
            requires
                0 <= v,
                0 <= p,
        ;
    } else {
        assert((-v) * p <= (12 * (-v)) * q) by (nonlinear_arith)
            requires
                v < 0,
                0 < q,
                0 <= p <= 12 * q,
        ;
        vstd::arithmetic::div_mod::lemma_div_is_ordered((-v) * p, (12 * (-v)) * q, q);
        vstd::arithmetic::div_mod::lemma_div_multiples_vanish(12 * (-v), q);
        vstd::arithmetic::div_mod::lemma_div_basics_4((-v) * p, q);
        assert(0 <= (-v) * p) by (nonlinear_arith)
            requires
                v < 0,
                0 <= p,
        ;
    }
}

/// A capability that discounts future cash flows to a valuation date.
/// Each discounter belongs to one currency; only flows in that currency
/// can be discounted directly.  Flat rates implement it here; curve-based
/// strategies can implement the same capability without touching the
/// aggregate operations below.
pub trait Discounter: Sized {
    /// The currency of the discounter in the model.
    spec fn spec_currency(&self) -> Currency;

    /// The factor for this pair of dates lies in the domain of the
    /// fixed-point kernels.
    spec fn factor_ok(&self, today: Date, pay_date: Date) -> bool;

    /// The discount factor in the model.
    spec fn spec_factor(&self, today: Date, pay_date: Date) -> Rational;

    /// The currency of the discounter: only cash flows in this currency
    /// can be discounted.
    fn currency(&self) -> (c: Currency)
        ensures
            c == self.spec_currency(),
    ;

    /// The factor that discounts a payment at `pay_date` to `today`, as
    /// an exact rational.
    fn discount_factor(&self, today: Date, pay_date: Date) -> (r: Rational)
        requires
            today.wf(),
            pay_date.wf(),
            self.factor_ok(today, pay_date),
        ensures
            r == self.spec_factor(today, pay_date),
            factor_bounded(r),
    ;

    /// Discount one cash flow to `today`.  Fails exactly when the flow's
    /// currency differs from the discounter's; on success the result is
    /// the flow's amount scaled by the discount factor, in the flow's
    /// own currency.
    fn discount_cash_flow(&self, cf: &CashFlow, today: Date) -> (r: Result<
        CashAmount,
        DiscountError,
    >)
        requires
            cf.wf(),
            today.wf(),
            self.factor_ok(today, cf.date),
        ensures
            r is Ok <==> cf.amount.currency.same_code(self.spec_currency()),
            r is Ok ==> r->Ok_0.currency == cf.amount.currency && r->Ok_0.amount
                == spec_discounted(cf.amount.amount as int, self.spec_factor(today, cf.date)),
            r is Err ==> r->Err_0 == DiscountError,
    {
        let c = self.currency();
        if c.iso_code.matches_code(&cf.amount.currency.iso_code) {
            let f = self.discount_factor(today, cf.date);
            let amount = mul_rat_trunc(cf.amount.amount, f.num, f.den);
            Ok(CashAmount { amount, currency: cf.amount.currency })
        } else {
            Err(DiscountError)
        }
    }

    /// Discount a whole stream of cash flows to `today` and sum the
    /// results.  Fails atomically on the first flow whose currency
    /// differs from the discounter's: no partial sum is ever returned.
    fn discount_cash_flow_stream(&self, cf_stream: &[CashFlow], today: Date) -> (r: Result<
        CashAmount,
        DiscountError,
    >)
        requires
            today.wf(),
            cf_stream@.len() <= 1_000_000_000_000,
            forall|i: int|
                0 <= i < cf_stream@.len() ==> (#[trigger] cf_stream@[i]).wf() && self.factor_ok(
                    today,
                    cf_stream@[i].date,
                ),
        ensures
            r is Ok <==> (forall|i: int|
                0 <= i < cf_stream@.len() ==> (#[trigger] cf_stream@[i]).amount.currency.same_code(
                    self.spec_currency(),
                )),
            r is Ok ==> r->Ok_0.currency == self.spec_currency() && r->Ok_0.amount
                == spec_sum_discounted(
                spec_flow_pairs(cf_stream@, |d: Date| self.spec_factor(today, d)),
            ),
            r is Err ==> (exists|i: int|
                0 <= i < cf_stream@.len() && !(#[trigger] cf_stream@[i]).amount.currency.same_code(
                    self.spec_currency(),
                )) && r->Err_0 == DiscountError,
    {
        let my_currency = self.currency();
        let mut sum: i128 = 0;
        let mut i: usize = 0;
        let n = cf_stream.len();
        let ghost pairs = spec_flow_pairs(cf_stream@, |d: Date| self.spec_factor(today, d));
        proof {
            assert(pairs.skip(0) =~= pairs);
        }
        while i < n
            invariant
                0 <= i <= n,
                n == cf_stream@.len(),
                n <= 1_000_000_000_000,
                today.wf(),
                my_currency == self.spec_currency(),
                forall|j: int|
                    0 <= j < cf_stream@.len() ==> (#[trigger] cf_stream@[j]).wf()
                        && self.factor_ok(today, cf_stream@[j].date),
                forall|j: int|
                    0 <= j < i ==> (#[trigger] cf_stream@[j]).amount.currency.same_code(
                        self.spec_currency(),
                    ),
                pairs == spec_flow_pairs(cf_stream@, |d: Date| self.spec_factor(today, d)),
                sum + spec_sum_discounted(pairs.skip(i as int)) == spec_sum_discounted(pairs),
                -12 * AMOUNT_ABS_MAX * (i as int) <= sum <= 12 * AMOUNT_ABS_MAX * (i as int),
            decreases n - i,
        {
            let cf = &cf_stream[i];
            proof {
                assert(pairs[i as int] == (
                    cf_stream@[i as int].amount.amount as int,
                    self.spec_factor(today, cf_stream@[i as int].date),
                ));
                assert(pairs.skip(i as int)[0] == pairs[i as int]);
                assert(pairs.skip(i as int).drop_first() =~= pairs.skip(i as int + 1));
            }
            if my_currency.iso_code.matches_code(&cf.amount.currency.iso_code) {
                let f = self.discount_factor(today, cf.date);
                let term = mul_rat_trunc(cf.amount.amount, f.num, f.den);
                proof {
                    lemma_discounted_amount_bound(cf.amount.amount as int, f);
                    assert(-12 * AMOUNT_ABS_MAX <= term <= 12 * AMOUNT_ABS_MAX);
                    assert((-12 * AMOUNT_ABS_MAX * (i as int + 1) <= sum + term <= 12
                        * AMOUNT_ABS_MAX * (i as int + 1)) && (12 * AMOUNT_ABS_MAX * (i as int + 1)
                        <= 12 * AMOUNT_ABS_MAX * 1_000_000_000_000int)) by (nonlinear_arith)
                        requires
                            -12 * AMOUNT_ABS_MAX * (i as int) <= sum <= 12 * AMOUNT_ABS_MAX * (
                            i as int),
                            -12 * AMOUNT_ABS_MAX <= term <= 12 * AMOUNT_ABS_MAX,
                            0 <= i as int,
                            i as int + 1 <= 1_000_000_000_000int,
                    ;
                }
                sum = sum + term;
            } else {
                return Err(DiscountError);
            }
            i = i + 1;
        }
        proof {
            assert(pairs.skip(n as int) =~= Seq::<(int, Rational)>::empty());
        }
        Ok(CashAmount { amount: sum, currency: my_currency })
    }
}

/// A flat-rate discounter: one constant rate for all maturities, with a
/// day-count convention, a compounding convention, and a currency.
#[derive(Debug, Clone, Copy)]
pub struct FlatRate {
    /// The annualized rate, scaled by [`RATE_SCALE`].
    pub rate: i128,
    pub day_count_conv: DayCountConv,
    pub compounding: Compounding,
    pub currency: Currency,
}

impl FlatRate {
    /// Build a flat-rate discounter.  The rate is scaled by
    /// [`RATE_SCALE`] and must lie between zero and [`RATE_MAX`].
    pub fn new(
        rate: i128,
        day_count_conv: DayCountConv,
        compounding: Compounding,
        currency: Currency,
    ) -> (r: FlatRate)
        requires
            0 <= rate <= RATE_MAX,
        ensures
            r == (FlatRate { rate, day_count_conv, compounding, currency }),
    {
        FlatRate { rate, day_count_conv, compounding, currency }
    }

    /// The rate is within the fixed-point domain.
    pub open spec fn rate_wf(self) -> bool {
        0 <= self.rate <= RATE_MAX
    }
}

impl Discounter for FlatRate {
    open spec fn spec_currency(&self) -> Currency {
        self.currency
    }

    open spec fn factor_ok(&self, today: Date, pay_date: Date) -> bool {
        &&& self.rate_wf()
        &&& spec_exponent_ok(
            self.compounding,
            self.rate as int,
            spec_year_fraction_plain(self.day_count_conv, today, pay_date),
        )
    }

    open spec fn spec_factor(&self, today: Date, pay_date: Date) -> Rational {
        spec_discount_factor(
            self.compounding,
            self.rate as int,
            spec_year_fraction_plain(self.day_count_conv, today, pay_date),
        )
    }

    fn currency(&self) -> (c: Currency) {
        self.currency
    }

    fn discount_factor(&self, today: Date, pay_date: Date) -> (r: Rational) {
        let yf = match self.day_count_conv.year_fraction(today, pay_date, None, None) {
            Ok(yf) => yf,
            Err(_) => {
                proof {
                    assert(false);
                }
                vstd::pervasive::unreached()
            },
        };
        let eff = effective_rate(self.compounding, self.rate);
        let x = mul_rat_trunc_signed(eff, yf.num, yf.den);
        match self.compounding {
            Compounding::Simple => Rational::new(RATE_SCALE, RATE_SCALE + x),
            _ => {
                if x >= 0 {
                    let s = exp_series(x);
                    Rational::new(RATE_SCALE, s)
                } else {
                    let s = exp_series(-x);
                    Rational::new(s, RATE_SCALE)
                }
            },
        }
    }
}

} // verus!
