//! The instrument rollout engine: expanding a fixed-income instrument's
//! terms into its concrete, dated sequence of cash flows.
//!
//! The coupon schedule steps toward maturity at the configured
//! frequency, anchored at the issue date, or at the marked first coupon
//! date when the instrument has an irregular first period.  Each coupon
//! pays `notional * unit * rate * year_fraction(period)`; the final flow
//! at maturity carries the last coupon (over a possibly irregular short
//! period) plus the full principal redemption.  Each call recomputes the
//! sequence from scratch: the engine holds no state.
//!
//! The whole outcome — the flows on success, and which error comes on
//! which terms — is the value of the spec function [`spec_rollout`]: the
//! contract of [`rollout_cash_flows`] equates the two, so nothing about
//! the result is left open.

use vstd::prelude::*;
use crate::cash_flow::CashAmount;
use crate::cash_flow::CashFlow;
use crate::currency::Currency;
use crate::dates::Date;
use crate::dates::spec_add_months;
use crate::day_count::DayCountConv;
use crate::day_count::spec_year_fraction_plain;
use crate::numeric::AMOUNT_ABS_MAX;
use crate::numeric::AMOUNT_SCALE;
use crate::numeric::FACTOR_NUM_MAX;
use crate::numeric::RATE_SCALE;
use crate::numeric::mul_div_trunc;
use crate::numeric::mul_div_trunc_signed;
use crate::numeric::mul_rat_trunc;
use crate::numeric::mul_rat_trunc_signed;
use crate::rates::RATE_MAX;

verus! {

/// The structural terms of a fixed-income instrument.  The rollout
/// engine borrows them; it never stores them.
#[derive(Debug, Clone, Copy)]
pub struct InstrumentTerms {
    /// Face value per unit, scaled by [`AMOUNT_SCALE`].
    pub notional: i128,
    /// Annualized coupon rate, scaled by [`RATE_SCALE`].
    pub coupon_rate: i128,
    /// Day-count convention of the coupon accrual periods.
    pub day_count: DayCountConv,
    /// Months between two coupon payments.
    pub frequency_months: u32,
    pub issue_date: Date,
    pub maturity_date: Date,
    /// Marker of an irregular first period: when set, the first coupon
    /// pays on this date (accruing from the issue date over a stub
    /// period of any length) and the regular schedule is anchored here
    /// instead of at the issue date.
    pub first_coupon_date: Option<Date>,
}

/// Errors of the rollout engine.
#[derive(Debug, Clone, Copy, PartialEq, Eq, Structural)]
pub enum RolloutError {
    /// The maturity date does not lie strictly after the issue date.
    MaturityNotAfterIssue,
    /// The coupon frequency is zero.
    NonPositiveFrequency,
    /// The coupon schedule left the supported calendar or failed to
    /// advance.
    ScheduleOutOfRange,
    /// A computed amount left the supported fixed-point range.
    AmountOutOfRange,
}

/// The position: notional times unit multiplier, truncated to the
/// amount scale.
pub open spec fn spec_position(notional: int, unit_multiplier: int) -> int {
    mul_div_trunc(notional, unit_multiplier, AMOUNT_SCALE as int)
}

/// The coupon paid for the accrual period from `from` to `to`:
/// `position * rate`, scaled by the period's year fraction, each product
/// truncated toward zero.
#[verifier::opaque]
pub open spec fn spec_coupon_amount(
    position: int,
    rate: int,
    dcc: DayCountConv,
    from: Date,
    to: Date,
) -> int {
    let base = mul_div_trunc(position, rate, RATE_SCALE as int);
    let yf = spec_year_fraction_plain(dcc, from, to);
    mul_div_trunc_signed(base, yf.num as int, yf.den as int)
}

/// The date the regular schedule is anchored at: the marked first
/// coupon date, or the issue date.
pub open spec fn spec_schedule_anchor(terms: InstrumentTerms) -> Date {
    match terms.first_coupon_date {
        Some(d) => d,
        None => terms.issue_date,
    }
}

/// Months from the schedule anchor to grid point `k`: with a marked
/// first coupon the anchor itself is grid point one.
pub open spec fn spec_grid_months(terms: InstrumentTerms, k: int) -> int {
    match terms.first_coupon_date {
        Some(_) => (k - 1) * terms.frequency_months,
        None => k * terms.frequency_months,
    }
}

/// The `k`-th point of the coupon grid: the schedule anchor stepped
/// forward by [`spec_grid_months`] months.
#[verifier::opaque]
pub open spec fn spec_grid_date(terms: InstrumentTerms, k: int) -> Date {
    let anchor = spec_schedule_anchor(terms);
    let months = spec_grid_months(terms, k);
    let (y, m, d) = spec_add_months(
        anchor.year as int,
        anchor.month as int,
        anchor.day as int,
        months,
    );
    Date { year: y as i32, month: m as u8, day: d as u8 }
}

/// The `k`-th grid point exists: the step count is in range and the
/// resulting year is on the supported calendar.
#[verifier::opaque]
pub open spec fn spec_grid_ok(terms: InstrumentTerms, k: int) -> bool {
    let anchor = spec_schedule_anchor(terms);
    let months = spec_grid_months(terms, k);
    let (y, m, d) = spec_add_months(
        anchor.year as int,
        anchor.month as int,
        anchor.day as int,
        months,
    );
    &&& months <= 120_000
    &&& 1 <= y <= 9999
}

/// The date a flow of the rollout accrues from: the previous flow's
/// date, or the issue date for the first flow.
pub open spec fn spec_accrual_start(terms: InstrumentTerms, flows: Seq<CashFlow>, i: int) -> Date {
    if i == 0 {
        terms.issue_date
    } else {
        flows[i - 1].date
    }
}

/// A prefix of produced flows followed by the outcome of the remaining
/// schedule: flows concatenate on success, an error swallows the prefix
/// (nothing partial is returned).
pub open spec fn spec_prefixed(acc: Seq<CashFlow>, rest: Result<Seq<CashFlow>, RolloutError>) -> Result<
    Seq<CashFlow>,
    RolloutError,
> {
    match rest {
        Ok(flows) => Ok(acc + flows),
        Err(e) => Err(e),
    }
}

/// The remaining schedule from accrual start `prev` and grid index `k`
/// on: one coupon flow per grid point strictly before maturity, then the
/// final flow at maturity with the principal.  A grid point that does
/// not advance past `prev` is a schedule error, a coupon outside the
/// fixed-point range an amount error; at most 119999 coupons are paid.
/// This is the exact value `rollout_cash_flows` computes.
#[verifier::opaque]
pub open spec fn spec_rollout_from(
    terms: InstrumentTerms,
    position: int,
    currency: Currency,
    prev: Date,
    k: int,
) -> Result<Seq<CashFlow>, RolloutError>
    decreases 120_000 - k,
{
    let d = spec_grid_date(terms, k);
    if spec_grid_ok(terms, k) && d.lt(terms.maturity_date) {
        if !prev.lt(d) {
            Err(RolloutError::ScheduleOutOfRange)
        } else {
            let coupon = spec_coupon_amount(position, terms.coupon_rate as int, terms.day_count, prev, d);
            if !(-AMOUNT_ABS_MAX <= coupon <= AMOUNT_ABS_MAX) {
                Err(RolloutError::AmountOutOfRange)
            } else if k >= 120_000 {
                Err(RolloutError::ScheduleOutOfRange)
            } else {
                spec_prefixed(
                    seq![
                        CashFlow {
                            amount: CashAmount { amount: coupon as i128, currency },
                            date: d,
                        },
                    ],
                    spec_rollout_from(terms, position, currency, d, k + 1),
                )
            }
        }
    } else {
        let coupon = spec_coupon_amount(
            position,
            terms.coupon_rate as int,
            terms.day_count,
            prev,
            terms.maturity_date,
        );
        if coupon > AMOUNT_ABS_MAX - position || coupon < -AMOUNT_ABS_MAX - position {
            Err(RolloutError::AmountOutOfRange)
        } else {
            Ok(
                seq![
                    CashFlow {
                        amount: CashAmount { amount: (coupon + position) as i128, currency },
                        date: terms.maturity_date,
                    },
                ],
            )
        }
    }
}

/// The rollout's whole outcome: the two consistency checks, the range
/// checks on position and rate-scaled position, then the schedule walk
/// of [`spec_rollout_from`] starting at the issue date.
pub open spec fn spec_rollout(terms: InstrumentTerms, unit_multiplier: int, currency: Currency) -> Result<
    Seq<CashFlow>,
    RolloutError,
> {
    let position = spec_position(terms.notional as int, unit_multiplier);
    let base = mul_div_trunc(position, terms.coupon_rate as int, RATE_SCALE as int);
    if !terms.issue_date.lt(terms.maturity_date) {
        Err(RolloutError::MaturityNotAfterIssue)
    } else if terms.frequency_months == 0 {
        Err(RolloutError::NonPositiveFrequency)
    } else if !(-AMOUNT_ABS_MAX <= position <= AMOUNT_ABS_MAX) {
        Err(RolloutError::AmountOutOfRange)
    } else if !(-AMOUNT_ABS_MAX <= base <= AMOUNT_ABS_MAX) {
        Err(RolloutError::AmountOutOfRange)
    } else {
        spec_rollout_from(terms, position, currency, terms.issue_date, 1)
    }
}

/// Expand the instrument's terms into the ordered sequence of cash flows
/// it pays: one coupon per period, stepped at the configured frequency
/// from the issue date (or from the marked first coupon date, giving an
/// irregular first period), and a final flow at maturity carrying the
/// last coupon plus the principal.  The result is strictly ascending by
/// date.  The outcome — success, flows, or the exact error — equals
/// [`spec_rollout`] on the same terms, so success is owed exactly when
/// the terms are consistent, the schedule stays on the supported
/// calendar and advances, and every amount stays in the fixed-point
/// range.
#[verifier::rlimit(100)]
#[verifier::spinoff_prover]
pub fn rollout_cash_flows(terms: &InstrumentTerms, unit_multiplier: i128, currency: Currency) -> (r:
    Result<Vec<CashFlow>, RolloutError>)
    requires
        terms.issue_date.wf(),
        terms.maturity_date.wf(),
        terms.first_coupon_date matches Some(d) ==> d.wf(),
        0 <= terms.coupon_rate <= RATE_MAX,
        -AMOUNT_ABS_MAX <= terms.notional <= AMOUNT_ABS_MAX,
        0 <= unit_multiplier <= FACTOR_NUM_MAX,
        terms.frequency_months <= 1200,
    ensures
        ({
            let position = spec_position(terms.notional as int, unit_multiplier as int);
            let outcome = spec_rollout(*terms, unit_multiplier as int, currency);
            &&& (r matches Ok(flows) ==> outcome == Ok::<Seq<CashFlow>, RolloutError>(flows@))
            &&& (r matches Err(e) ==> outcome == Err::<Seq<CashFlow>, RolloutError>(e))
            &&& (r is Ok <==> outcome is Ok)
            &&& (r == Err::<Vec<CashFlow>, RolloutError>(RolloutError::MaturityNotAfterIssue)
                <==> !terms.issue_date.lt(terms.maturity_date))
            &&& (r == Err::<Vec<CashFlow>, RolloutError>(RolloutError::NonPositiveFrequency)
                <==> terms.issue_date.lt(terms.maturity_date) && terms.frequency_months == 0)
            &&& (r matches Ok(flows) ==> {
                let s = flows@;
                let n = s.len() as int;
                &&& n >= 1
                &&& (forall|i: int| 0 <= i < n ==> (#[trigger] s[i]).amount.currency == currency)
                &&& (forall|i: int| 0 <= i < n ==> (#[trigger] s[i]).wf())
                &&& (forall|i: int, j: int|
                    0 <= i < j < n ==> (#[trigger] s[i]).date.spec_dn() < (
                    #[trigger] s[j]).date.spec_dn())
                &&& s[n - 1].date == terms.maturity_date
                &&& (forall|i: int|
                    0 <= i < n - 1 ==> (#[trigger] s[i]).date == spec_grid_date(*terms, i + 1)
                        && spec_grid_ok(*terms, i + 1) && s[i].date.lt(terms.maturity_date))
                &&& !(spec_grid_ok(*terms, n) && spec_grid_date(*terms, n).lt(terms.maturity_date))
                &&& (forall|i: int|
                    0 <= i < n ==> (#[trigger] s[i]).amount.amount == spec_coupon_amount(
                        position,
                        terms.coupon_rate as int,
                        terms.day_count,
                        spec_accrual_start(*terms, s, i),
                        s[i].date,
                    ) + if i == n - 1 {
                        position
                    } else {
                        0int
                    })
            })
        }),
{
    if !terms.issue_date.before(&terms.maturity_date) {
        return Err(RolloutError::MaturityNotAfterIssue);
    }
    if terms.frequency_months == 0 {
        return Err(RolloutError::NonPositiveFrequency);
    }
    let position = mul_rat_trunc(terms.notional, unit_multiplier, AMOUNT_SCALE);
    if position > AMOUNT_ABS_MAX || position < -AMOUNT_ABS_MAX {
        return Err(RolloutError::AmountOutOfRange);
    }
    let base = mul_rat_trunc(position, terms.coupon_rate, RATE_SCALE);
    if base > AMOUNT_ABS_MAX || base < -AMOUNT_ABS_MAX {
        return Err(RolloutError::AmountOutOfRange);
    }
    let f = terms.frequency_months;
    let anchor = match terms.first_coupon_date {
        Some(fc) => fc,
        None => terms.issue_date,
    };
    let mut flows: Vec<CashFlow> = Vec::new();
    let mut prev: Date = terms.issue_date;
    let mut k: u32 = 1;
    proof {
        assert(flows@ =~= Seq::<CashFlow>::empty());
        let rf = spec_rollout_from(*terms, position as int, currency, terms.issue_date, 1);
        if rf is Ok {
            assert(flows@ + rf->Ok_0 =~= rf->Ok_0);
        }
        assert(spec_rollout(*terms, unit_multiplier as int, currency) == spec_prefixed(flows@, rf));
    }
    loop
        invariant
            terms.issue_date.wf(),
            terms.maturity_date.wf(),
            terms.issue_date.lt(terms.maturity_date),
            terms.first_coupon_date matches Some(d) ==> d.wf(),
            anchor == spec_schedule_anchor(*terms),
            anchor.wf(),
            0 <= terms.coupon_rate <= RATE_MAX,
            1 <= f <= 1200,
            f == terms.frequency_months,
            -AMOUNT_ABS_MAX <= position <= AMOUNT_ABS_MAX,
            position == spec_position(terms.notional as int, unit_multiplier as int),
            base == mul_div_trunc(position as int, terms.coupon_rate as int, RATE_SCALE as int),
            -AMOUNT_ABS_MAX <= base <= AMOUNT_ABS_MAX,
            1 <= k <= 120_001,
            flows@.len() == k - 1,
            prev.wf(),
            prev.lt(terms.maturity_date),
            prev == spec_accrual_start(*terms, flows@, flows@.len() as int),
            spec_rollout(*terms, unit_multiplier as int, currency) == spec_prefixed(
                flows@,
                spec_rollout_from(*terms, position as int, currency, prev, k as int),
            ),
            forall|i: int|
                0 <= i < flows@.len() ==> (#[trigger] flows@[i]).amount.currency == currency,
            forall|i: int| 0 <= i < flows@.len() ==> (#[trigger] flows@[i]).wf(),
            forall|i: int|
                0 <= i < flows@.len() - 1 ==> (#[trigger] flows@[i]).date.spec_dn() < flows@[i
                    + 1].date.spec_dn(),
            forall|i: int|
                0 <= i < flows@.len() ==> (#[trigger] flows@[i]).date == spec_grid_date(
                    *terms,
                    i + 1,
                ) && spec_grid_ok(*terms, i + 1) && flows@[i].date.lt(terms.maturity_date),
            forall|i: int|
                0 <= i < flows@.len() ==> (#[trigger] flows@[i]).amount.amount
                    == spec_coupon_amount(
                    position as int,
                    terms.coupon_rate as int,
                    terms.day_count,
                    spec_accrual_start(*terms, flows@, i),
                    flows@[i].date,
                ),
            forall|i: int|
                0 <= i < flows@.len() ==> (#[trigger] flows@[i]).date.spec_dn() <= prev.spec_dn(),
        decreases 120_001 - k,
    {
        proof {
            assert(k as int * f as int <= 120_001 * 1200 && (k as int - 1) * f as int <= 120_001
                * 1200 && 0 <= (k as int - 1) * f as int) by (nonlinear_arith)
                requires
                    1 <= k as int <= 120_001,
                    1 <= f as int <= 1200,
            ;
        }
        let months: u32 = match terms.first_coupon_date {
            Some(_) => (k - 1) * f,
            None => k * f,
        };
        let step = if months <= 120_000 {
            anchor.add_months(months)
        } else {
            Err(crate::dates::DateError::InvalidDate)
        };
        let within = match step {
            Ok(d) => {
                if d.before(&terms.maturity_date) {
                    Some(d)
                } else {
                    None
                }
            },
            Err(_) => None,
        };
        let ghost rf_here = spec_rollout_from(*terms, position as int, currency, prev, k as int);
        match within {
            Some(d) => {
                proof {
                    assert(d == spec_grid_date(*terms, k as int) && spec_grid_ok(
                        *terms,
                        k as int,
                    )) by {
                        reveal(spec_grid_date);
                        reveal(spec_grid_ok);
                    }
                }
                if !prev.before(&d) {
                    proof {
                        assert(rf_here == Err::<Seq<CashFlow>, RolloutError>(
                            RolloutError::ScheduleOutOfRange,
                        )) by {
                            reveal(spec_rollout_from);
                        }
                    }
                    return Err(RolloutError::ScheduleOutOfRange);
                }
                let coupon = coupon_amount(base, terms.day_count, prev, d);
                proof {
                    assert(coupon == spec_coupon_amount(
                        position as int,
                        terms.coupon_rate as int,
                        terms.day_count,
                        prev,
                        d,
                    )) by {
                        reveal(spec_coupon_amount);
                    }
                }
                if coupon > AMOUNT_ABS_MAX || coupon < -AMOUNT_ABS_MAX {
                    proof {
                        assert(rf_here == Err::<Seq<CashFlow>, RolloutError>(
                            RolloutError::AmountOutOfRange,
                        )) by {
                            reveal(spec_rollout_from);
                        }
                    }
                    return Err(RolloutError::AmountOutOfRange);
                }
                if k >= 120_000 {
                    proof {
                        assert(rf_here == Err::<Seq<CashFlow>, RolloutError>(
                            RolloutError::ScheduleOutOfRange,
                        )) by {
                            reveal(spec_rollout_from);
                        }
                    }
                    return Err(RolloutError::ScheduleOutOfRange);
                }
                let flow = CashFlow { amount: CashAmount { amount: coupon, currency }, date: d };
                let ghost rf_next = spec_rollout_from(
                    *terms,
                    position as int,
                    currency,
                    d,
                    k as int + 1,
                );
                proof {
                    assert(rf_here == spec_prefixed(seq![flow], rf_next)) by {
                        reveal(spec_rollout_from);
                    }
                }
                let ghost old_flows = flows@;
                flows.push(flow);
                proof {
                    assert(forall|i: int|
                        0 <= i < old_flows.len() ==> #[trigger] flows@[i] == old_flows[i]);
                    assert(forall|i: int|
                        0 <= i < old_flows.len() ==> spec_accrual_start(*terms, flows@, i)
                            == spec_accrual_start(*terms, old_flows, i));
                    if rf_next is Ok {
                        assert(old_flows + (seq![flow] + rf_next->Ok_0) =~= flows@
                            + rf_next->Ok_0);
                    }
                    assert(spec_prefixed(old_flows, rf_here) == spec_prefixed(flows@, rf_next));
                }
                prev = d;
                k = k + 1;
            },
            None => {
                proof {
                    assert(!(spec_grid_ok(*terms, k as int) && spec_grid_date(*terms, k as int).lt(
                        terms.maturity_date,
                    ))) by {
                        reveal(spec_grid_date);
                        reveal(spec_grid_ok);
                    }
                }
                let coupon = coupon_amount(base, terms.day_count, prev, terms.maturity_date);
                proof {
                    assert(coupon == spec_coupon_amount(
                        position as int,
                        terms.coupon_rate as int,
                        terms.day_count,
                        prev,
                        terms.maturity_date,
                    )) by {
                        reveal(spec_coupon_amount);
                    }
                }
                if coupon > AMOUNT_ABS_MAX - position || coupon < -AMOUNT_ABS_MAX - position {
                    proof {
                        assert(rf_here == Err::<Seq<CashFlow>, RolloutError>(
                            RolloutError::AmountOutOfRange,
                        )) by {
                            reveal(spec_rollout_from);
                        }
                    }
                    return Err(RolloutError::AmountOutOfRange);
                }
                let amount = coupon + position;
                let flow = CashFlow {
                    amount: CashAmount { amount, currency },
                    date: terms.maturity_date,
                };
                let ghost old_flows = flows@;
                flows.push(flow);
                proof {
                    assert(rf_here == Ok::<Seq<CashFlow>, RolloutError>(seq![flow])) by {
                        reveal(spec_rollout_from);
                    }
                    assert(old_flows + seq![flow] =~= flows@);
                    assert(spec_prefixed(old_flows, rf_here) == Ok::<Seq<CashFlow>, RolloutError>(
                        flows@,
                    ));
                    assert(forall|i: int|
                        0 <= i < old_flows.len() ==> #[trigger] flows@[i] == old_flows[i]);
                    assert(forall|i: int|
                        0 <= i < old_flows.len() ==> spec_accrual_start(*terms, flows@, i)
                            == spec_accrual_start(*terms, old_flows, i));
                    lemma_adjacent_dates_sorted(flows@);
                }
                return Ok(flows);
            },
        }
    }
}

/// In a sequence of flows whose consecutive dates strictly ascend, any
/// earlier flow pays strictly before any later one.
proof fn lemma_adjacent_dates_sorted(s: Seq<CashFlow>)
    requires
        forall|i: int|
            0 <= i < s.len() - 1 ==> (#[trigger] s[i]).date.spec_dn() < s[i + 1].date.spec_dn(),
    ensures
        forall|i: int, j: int|
            0 <= i < j < s.len() ==> (#[trigger] s[i]).date.spec_dn() < (
            #[trigger] s[j]).date.spec_dn(),
{
    assert forall|i: int, j: int| 0 <= i < j < s.len() implies (#[trigger] s[i]).date.spec_dn() < (
    #[trigger] s[j]).date.spec_dn() by {
        lemma_dates_sorted_pair(s, i, j);
    }
}

/// Chain the adjacent-date ordering from index `i` up to index `j`.
proof fn lemma_dates_sorted_pair(s: Seq<CashFlow>, i: int, j: int)
    requires
        forall|k: int|
            0 <= k < s.len() - 1 ==> (#[trigger] s[k]).date.spec_dn() < s[k + 1].date.spec_dn(),
        0 <= i < j < s.len(),
    ensures
        s[i].date.spec_dn() < s[j].date.spec_dn(),
    decreases j - i,
{
    if i + 1 < j {
        lemma_dates_sorted_pair(s, i + 1, j);
    }
}

/// The coupon of one accrual period: the rate-scaled position times the
/// period's year fraction.
fn coupon_amount(base: i128, dcc: DayCountConv, from: Date, to: Date) -> (r: i128)
    requires
        from.wf(),
        to.wf(),
        -AMOUNT_ABS_MAX <= base <= AMOUNT_ABS_MAX,
    ensures
        r == mul_div_trunc_signed(
            base as int,
            spec_year_fraction_plain(dcc, from, to).num as int,
            spec_year_fraction_plain(dcc, from, to).den as int,
        ),
{
    let yf = match dcc.year_fraction(from, to, None, None) {
        Ok(yf) => yf,
        Err(_) => {
            proof {
                assert(false);
            }
            vstd::pervasive::unreached()
        },
    };
    mul_rat_trunc_signed(base, yf.num, yf.den)
}

} // verus!
