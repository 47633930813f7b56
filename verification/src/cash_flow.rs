//! Cash amounts and dated cash flows.
//!
//! A [`CashAmount`] is a fixed-point amount (scaled by
//! [`crate::numeric::AMOUNT_SCALE`]) tagged with its currency; a
//! [`CashFlow`] adds the payment date.  Amounts of different currencies
//! never combine silently: discounting fails on a currency mismatch, and
//! crossing currencies is an explicit conversion with a supplied rate.

use vstd::prelude::*;
use crate::currency::Currency;
use crate::dates::Date;
use crate::numeric::AMOUNT_ABS_MAX;
use crate::numeric::FACTOR_NUM_MAX;
use crate::numeric::Rational;
use crate::numeric::mul_div_trunc;
use crate::numeric::mul_rat_trunc;

verus! {

/// An amount of money in a currency.  `amount` is scaled by
/// [`crate::numeric::AMOUNT_SCALE`].
#[derive(Debug, Clone, Copy)]
pub struct CashAmount {
    pub amount: i128,
    pub currency: Currency,
}

/// A cash amount paid at a date.
#[derive(Debug, Clone, Copy)]
pub struct CashFlow {
    pub amount: CashAmount,
    pub date: Date,
}

impl CashAmount {
    /// The scaled amount stays inside the range every operation of the
    /// crate accepts.
    pub open spec fn bounded(self) -> bool {
        -AMOUNT_ABS_MAX <= self.amount <= AMOUNT_ABS_MAX
    }

    pub fn new(amount: i128, currency: Currency) -> (r: CashAmount)
        ensures
            r.amount == amount,
            r.currency == currency,
    {
        CashAmount { amount, currency }
    }

    /// Add another amount of the same currency.  Amounts of different
    /// currencies never combine silently: the sum of a mismatched pair
    /// is a conversion failure, and the caller must route one side
    /// through currency normalization first.
    pub fn add_checked(&self, other: &CashAmount) -> (r: Result<
        CashAmount,
        crate::currency::CurrencyError,
    >)
        requires
            self.bounded(),
            other.bounded(),
        ensures
            r is Ok <==> self.currency.same_code(other.currency),
            r is Ok ==> r->Ok_0.currency == self.currency && r->Ok_0.amount == self.amount
                + other.amount,
            r is Err ==> r->Err_0 is ConversionFailed,
    {
        if self.currency.iso_code.matches_code(&other.currency.iso_code) {
            Ok(CashAmount { amount: self.amount + other.amount, currency: self.currency })
        } else {
            Err(crate::currency::CurrencyError::ConversionFailed)
        }
    }

    /// Express the amount in `target` currency: one unit of the amount's
    /// own currency is worth `fx_rate` units of `target`.  The scaled
    /// amount is multiplied by the rate and truncated toward zero.
    pub fn convert_to(&self, target: Currency, fx_rate: Rational) -> (r: CashAmount)
        requires
            self.bounded(),
            0 <= fx_rate.num <= FACTOR_NUM_MAX,
            0 < fx_rate.den,
        ensures
            r.currency == target,
            r.amount == mul_div_trunc(self.amount as int, fx_rate.num as int, fx_rate.den as int),
    {
        CashAmount {
            amount: mul_rat_trunc(self.amount, fx_rate.num, fx_rate.den),
            currency: target,
        }
    }
}

impl CashFlow {
    /// The flow's date is a calendar date and its amount is in range.
    pub open spec fn wf(self) -> bool {
        self.date.wf() && self.amount.bounded()
    }

    pub fn new(amount: i128, currency: Currency, date: Date) -> (r: CashFlow)
        ensures
            r.amount.amount == amount,
            r.amount.currency == currency,
            r.date == date,
    {
        CashFlow { amount: CashAmount { amount, currency }, date }
    }

    /// The flow pays strictly after `cutoff`.
    pub open spec fn after(self, cutoff: Date) -> bool {
        cutoff.spec_dn() < self.date.spec_dn()
    }
}

/// The subsequence of `flows` paying strictly after `cutoff`, in the
/// order given.
pub open spec fn spec_flows_after(flows: Seq<CashFlow>, cutoff: Date) -> Seq<CashFlow>
    decreases flows.len(),
{
    if flows.len() == 0 {
        Seq::empty()
    } else if flows[0].after(cutoff) {
        seq![flows[0]] + spec_flows_after(flows.drop_first(), cutoff)
    } else {
        spec_flows_after(flows.drop_first(), cutoff)
    }
}

/// Keep the flows that pay strictly after `cutoff`, preserving their
/// order; flows on or before `cutoff` are dropped.
pub fn flows_after(flows: &Vec<CashFlow>, cutoff: Date) -> (r: Vec<CashFlow>)
    requires
        forall|i: int| 0 <= i < flows@.len() ==> (#[trigger] flows@[i]).date.wf(),
        cutoff.wf(),
    ensures
        r@ == spec_flows_after(flows@, cutoff),
{
    let mut r: Vec<CashFlow> = Vec::new();
    let mut i: usize = 0;
    proof {
        assert(flows@.skip(0) =~= flows@);
        assert(r@ + spec_flows_after(flows@, cutoff) =~= spec_flows_after(flows@, cutoff));
    }
    while i < flows.len()
        invariant
            i <= flows@.len(),
            forall|j: int| 0 <= j < flows@.len() ==> (#[trigger] flows@[j]).date.wf(),
            cutoff.wf(),
            r@ + spec_flows_after(flows@.skip(i as int), cutoff) == spec_flows_after(
                flows@,
                cutoff,
            ),
        decreases flows@.len() - i,
    {
        let cf = flows[i];
        proof {
            assert(flows@.skip(i as int)[0] == flows@[i as int]);
            assert(flows@.skip(i as int).drop_first() =~= flows@.skip(i as int + 1));
        }
        if cutoff.before(&cf.date) {
            r.push(cf);
            proof {
                assert(r@ + spec_flows_after(flows@.skip(i as int + 1), cutoff) =~= spec_flows_after(
                    flows@,
                    cutoff,
                ));
            }
        }
        i += 1;
    }
    proof {
        assert(flows@.skip(flows@.len() as int) =~= Seq::<CashFlow>::empty());
        assert(r@ =~= r@ + spec_flows_after(flows@.skip(flows@.len() as int), cutoff));
    }
    r
}

/// The flows are sorted ascending by date.
pub open spec fn flows_sorted(flows: Seq<CashFlow>) -> bool {
    forall|i: int, j: int| 0 <= i <= j < flows.len() ==> (#[trigger] flows[i]).date.spec_dn() <= (
    #[trigger] flows[j]).date.spec_dn()
}

/// Number of flows of `flows` paying on or before `cutoff`.
pub open spec fn spec_count_on_or_before(flows: Seq<CashFlow>, cutoff: Date) -> int
    decreases flows.len(),
{
    if flows.len() == 0 {
        0int
    } else if flows[0].after(cutoff) {
        spec_count_on_or_before(flows.drop_first(), cutoff)
    } else {
        1 + spec_count_on_or_before(flows.drop_first(), cutoff)
    }
}

/// Filtering a date-sorted sequence for flows strictly after a cutoff
/// returns the exact suffix that starts at the first such flow, with no
/// reordering.
#[verifier::rlimit(50)]
pub proof fn lemma_flows_after_sorted_is_suffix(flows: Seq<CashFlow>, cutoff: Date)
    requires
        flows_sorted(flows),
    ensures
        0 <= spec_count_on_or_before(flows, cutoff) <= flows.len(),
        spec_flows_after(flows, cutoff) == flows.skip(spec_count_on_or_before(flows, cutoff)),
        forall|i: int| 0 <= i < spec_count_on_or_before(flows, cutoff) ==> !(#[trigger] flows[i]).after(cutoff),
        forall|i: int| spec_count_on_or_before(flows, cutoff) <= i < flows.len() ==> (
        #[trigger] flows[i]).after(cutoff),
    decreases flows.len(),
{
    if flows.len() == 0 {
        assert(spec_flows_after(flows, cutoff) =~= flows.skip(0));
    } else {
        let rest = flows.drop_first();
        assert(rest =~= flows.skip(1));
        assert(flows_sorted(rest)) by {
            assert(forall|i: int, j: int| 0 <= i <= j < rest.len() ==> (#[trigger] rest[i]).date.spec_dn()
                <= (#[trigger] rest[j]).date.spec_dn()) by {
                assert(forall|i: int| 0 <= i < rest.len() ==> rest[i] == flows[i + 1]);
            }
        }
        lemma_flows_after_sorted_is_suffix(rest, cutoff);
        let kr = spec_count_on_or_before(rest, cutoff);
        let k = spec_count_on_or_before(flows, cutoff);
        if flows[0].after(cutoff) {
            assert(k == kr);
            // sortedness puts every later flow after the cutoff as well
            assert(kr == 0) by {
                if kr > 0 {
                    assert(!rest[0].after(cutoff));
                    assert(flows[0].date.spec_dn() <= flows[1].date.spec_dn());
                }
            }
            assert(spec_flows_after(flows, cutoff) =~= flows.skip(0));
            assert(forall|i: int| 0 <= i < flows.len() ==> (#[trigger] flows[i]).after(cutoff))
                by {
                assert(forall|i: int| 1 <= i < flows.len() ==> flows[i] == rest[i - 1]);
            }
        } else {
            assert(k == 1 + kr);
            assert(spec_flows_after(flows, cutoff) == spec_flows_after(rest, cutoff));
            assert(rest.skip(kr) =~= flows.skip(k));
            assert(forall|i: int| 1 <= i < flows.len() ==> flows[i] == rest[i - 1]);
        }
    }
}

} // verus!
