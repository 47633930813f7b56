use finflows::cash_flow::CashFlow;
use finflows::currency::Currency;
use finflows::currency::CurrencyISOCode;
use finflows::dates::Date;
use finflows::day_count::DayCountConv;
use finflows::numeric::AMOUNT_SCALE;
use finflows::numeric::RATE_SCALE;
use finflows::numeric::Rational;
use finflows::rates::Compounding;
use finflows::rates::Discounter;
use finflows::rates::FlatRate;
use finflows::rollout::InstrumentTerms;
use finflows::rollout::RolloutError;
use finflows::rollout::rollout_cash_flows;

fn day(y: i32, m: u8, d: u8) -> Date {
    Date::new(y, m, d).unwrap()
}

fn eur() -> Currency {
    Currency::new(None, CurrencyISOCode::new("EUR").unwrap(), None)
}

fn rational_to_f64(r: Rational) -> f64 {
    r.num as f64 / r.den as f64
}

fn amount_to_f64(a: i128) -> f64 {
    a as f64 / AMOUNT_SCALE as f64
}

fn assert_fuzzy(a: f64, b: f64, tol: f64) {
    assert!(
        (a - b).abs() <= tol * b.abs().max(1.0),
        "{} is not within {} of {}",
        a,
        tol,
        b
    );
}

fn percent(r: f64) -> i128 {
    (r * RATE_SCALE as f64).round() as i128
}

#[test]
fn compounding_methods() {
    let tol = 1e-11;
    let curr = eur();
    let start_date = day(2019, 12, 16);
    let end_date = start_date.add_months(6).unwrap();
    let yf_rat = DayCountConv::Act365
        .year_fraction(start_date, end_date, None, None)
        .unwrap();
    let yf = rational_to_f64(yf_rat);

    let rate = FlatRate::new(percent(0.05), DayCountConv::Act365, Compounding::Annual, curr);
    assert_fuzzy(
        rational_to_f64(rate.discount_factor(start_date, end_date)),
        f64::powf(1.0 + 0.05, -yf),
        tol,
    );

    let rate = FlatRate::new(percent(0.05), DayCountConv::Act365, Compounding::SemiAnnual, curr);
    assert_fuzzy(
        rational_to_f64(rate.discount_factor(start_date, end_date)),
        f64::powf(1.0 + 0.025, -yf * 2.),
        tol,
    );

    let rate = FlatRate::new(percent(0.05), DayCountConv::Act365, Compounding::Quarterly, curr);
    assert_fuzzy(
        rational_to_f64(rate.discount_factor(start_date, end_date)),
        f64::powf(1.0 + 0.0125, -yf * 4.),
        tol,
    );

    let rate = FlatRate::new(percent(0.05), DayCountConv::Act365, Compounding::Monthly, curr);
    assert_fuzzy(
        rational_to_f64(rate.discount_factor(start_date, end_date)),
        f64::powf(1.0 + 0.05 / 12., -yf * 12.),
        tol,
    );

    let rate = FlatRate::new(percent(0.05), DayCountConv::Act365, Compounding::Continuous, curr);
    assert_fuzzy(
        rational_to_f64(rate.discount_factor(start_date, end_date)),
        f64::exp(-0.05 * yf),
        tol,
    );

    let rate = FlatRate::new(percent(0.05), DayCountConv::Act365, Compounding::Simple, curr);
    assert_fuzzy(
        rational_to_f64(rate.discount_factor(start_date, end_date)),
        1. / (1. + 0.05 * yf),
        tol,
    );
}

#[test]
fn discounting() {
    let tol = 1e-11;
    let curr = eur();
    let rate = FlatRate::new(percent(0.05), DayCountConv::Act365, Compounding::Continuous, curr);
    let amount = 100 * AMOUNT_SCALE;
    let cash_flows = vec![
        CashFlow::new(amount, curr, day(2021, 4, 1)),
        CashFlow::new(amount, curr, day(2021, 10, 1)),
        CashFlow::new(amount, curr, day(2022, 4, 1)),
        CashFlow::new(amount, curr, day(2022, 10, 3)),
    ];
    let today = day(2019, 10, 1);
    assert_fuzzy(
        amount_to_f64(rate.discount_cash_flow(&cash_flows[0], today).unwrap().amount),
        100. * f64::exp(-0.05 * (366. + 182.) / 365.),
        tol,
    );
    assert_fuzzy(
        amount_to_f64(rate.discount_cash_flow(&cash_flows[1], today).unwrap().amount),
        100. * f64::exp(-0.05 * (366. + 365.) / 365.),
        tol,
    );
    assert_fuzzy(
        amount_to_f64(rate.discount_cash_flow(&cash_flows[2], today).unwrap().amount),
        100. * f64::exp(-0.05 * (366. + 365. + 182.) / 365.),
        tol,
    );
    assert_fuzzy(
        amount_to_f64(rate.discount_cash_flow(&cash_flows[3], today).unwrap().amount),
        100. * f64::exp(-0.05 * (366. + 2. * 365. + 2.) / 365.),
        tol,
    );
    let sum = 100.
        * (f64::exp(-0.05 * (366. + 182.) / 365.)
            + f64::exp(-0.05 * (366. + 365.) / 365.)
            + f64::exp(-0.05 * (366. + 365. + 182.) / 365.)
            + f64::exp(-0.05 * (366. + 2. * 365. + 2.) / 365.));
    assert_fuzzy(
        amount_to_f64(rate.discount_cash_flow_stream(&cash_flows, today).unwrap().amount),
        sum,
        tol,
    );
}

#[test]
fn zero_elapsed_time_means_factor_one() {
    let curr = eur();
    let today = day(2020, 3, 15);
    let conventions = vec![
        Compounding::Simple,
        Compounding::Annual,
        Compounding::SemiAnnual,
        Compounding::Quarterly,
        Compounding::Monthly,
        Compounding::Continuous,
    ];
    for c in conventions {
        let rate = FlatRate::new(percent(0.07), DayCountConv::Act360, c, curr);
        let f = rate.discount_factor(today, today);
        assert_eq!(f.num, f.den);
    }
}

#[test]
fn factor_decreases_with_time() {
    let curr = eur();
    let today = day(2020, 1, 1);
    let conventions = vec![
        Compounding::Simple,
        Compounding::Annual,
        Compounding::SemiAnnual,
        Compounding::Quarterly,
        Compounding::Monthly,
        Compounding::Continuous,
    ];
    for c in conventions {
        let rate = FlatRate::new(percent(0.05), DayCountConv::Act365, c, curr);
        let f1 = rational_to_f64(rate.discount_factor(today, day(2021, 1, 1)));
        let f2 = rational_to_f64(rate.discount_factor(today, day(2025, 1, 1)));
        assert!(f2 < f1 && f1 < 1.0, "{} {} for {:?}", f1, f2, c);
    }
}

#[test]
fn single_flow_stream_round_trip() {
    let curr = eur();
    let rate = FlatRate::new(percent(0.03), DayCountConv::Act365, Compounding::Annual, curr);
    let today = day(2020, 1, 1);
    let flow = CashFlow::new(250 * AMOUNT_SCALE, curr, day(2023, 7, 1));
    let direct = rate.discount_cash_flow(&flow, today).unwrap();
    let stream = rate.discount_cash_flow_stream(&vec![flow], today).unwrap();
    assert_eq!(direct.amount, stream.amount);
    assert_eq!(direct.currency, stream.currency);
}

#[test]
fn mismatched_currency_fails_atomically() {
    let curr = eur();
    let gbp = Currency::new(None, CurrencyISOCode::new("GBP").unwrap(), None);
    let rate = FlatRate::new(percent(0.05), DayCountConv::Act365, Compounding::Continuous, curr);
    let today = day(2019, 10, 1);
    let amount = 100 * AMOUNT_SCALE;
    let gbp_flow = CashFlow::new(amount, gbp, day(2021, 10, 1));
    assert!(rate.discount_cash_flow(&gbp_flow, today).is_err());
    let flows = vec![
        CashFlow::new(amount, curr, day(2021, 4, 1)),
        gbp_flow,
        CashFlow::new(amount, curr, day(2022, 4, 1)),
    ];
    // the whole stream fails; no partial sum is returned
    assert!(rate.discount_cash_flow_stream(&flows, today).is_err());
}

#[test]
fn rollout_schedule_and_amounts() {
    let terms = InstrumentTerms {
        notional: 100 * AMOUNT_SCALE,
        coupon_rate: percent(0.05),
        day_count: DayCountConv::Act365,
        frequency_months: 6,
        issue_date: day(2019, 12, 16),
        maturity_date: day(2021, 12, 16),
        first_coupon_date: None,
    };
    let flows = rollout_cash_flows(&terms, AMOUNT_SCALE, eur()).unwrap();
    assert_eq!(flows.len(), 4);
    assert_eq!(flows[0].date, day(2020, 6, 16));
    assert_eq!(flows[1].date, day(2020, 12, 16));
    assert_eq!(flows[2].date, day(2021, 6, 16));
    assert_eq!(flows[3].date, day(2021, 12, 16));
    // 5.0 a year on a notional of 100; 183-day and 182-day half years
    assert_eq!(flows[0].amount.amount, 5 * AMOUNT_SCALE * 183 / 365);
    assert_eq!(flows[1].amount.amount, 5 * AMOUNT_SCALE * 183 / 365);
    assert_eq!(flows[2].amount.amount, 5 * AMOUNT_SCALE * 182 / 365);
    // the final flow carries the last coupon plus the principal
    assert_eq!(
        flows[3].amount.amount,
        5 * AMOUNT_SCALE * 183 / 365 + 100 * AMOUNT_SCALE
    );
    for f in &flows {
        assert_eq!(f.amount.currency, eur());
    }
}

#[test]
fn rollout_discounted_reproduces_exponential_values() {
    let tol = 1e-11;
    let terms = InstrumentTerms {
        notional: 100 * AMOUNT_SCALE,
        coupon_rate: percent(0.05),
        day_count: DayCountConv::Act365,
        frequency_months: 6,
        issue_date: day(2019, 12, 16),
        maturity_date: day(2021, 12, 16),
        first_coupon_date: None,
    };
    let flows = rollout_cash_flows(&terms, AMOUNT_SCALE, eur()).unwrap();
    let today = day(2019, 10, 1);
    let rate = FlatRate::new(percent(0.05), DayCountConv::Act365, Compounding::Continuous, eur());
    for f in &flows {
        let days = (f.date.day_number() - today.day_number()) as f64;
        let expected = amount_to_f64(f.amount.amount) * f64::exp(-0.05 * days / 365.0);
        let got = amount_to_f64(rate.discount_cash_flow(f, today).unwrap().amount);
        assert_fuzzy(got, expected, tol);
    }
}

#[test]
fn rollout_with_irregular_first_period() {
    // a three-month stub from issue to the marked first coupon, then a
    // regular six-month schedule anchored there
    let terms = InstrumentTerms {
        notional: 100 * AMOUNT_SCALE,
        coupon_rate: percent(0.05),
        day_count: DayCountConv::Act365,
        frequency_months: 6,
        issue_date: day(2019, 12, 16),
        maturity_date: day(2021, 3, 16),
        first_coupon_date: Some(day(2020, 3, 16)),
    };
    let flows = rollout_cash_flows(&terms, AMOUNT_SCALE, eur()).unwrap();
    assert_eq!(flows.len(), 3);
    assert_eq!(flows[0].date, day(2020, 3, 16));
    assert_eq!(flows[1].date, day(2020, 9, 16));
    assert_eq!(flows[2].date, day(2021, 3, 16));
    // 91-day stub, then 184-day and 181-day regular periods
    assert_eq!(flows[0].amount.amount, 5 * AMOUNT_SCALE * 91 / 365);
    assert_eq!(flows[1].amount.amount, 5 * AMOUNT_SCALE * 184 / 365);
    assert_eq!(
        flows[2].amount.amount,
        5 * AMOUNT_SCALE * 181 / 365 + 100 * AMOUNT_SCALE
    );
}

#[test]
fn rollout_rejects_inconsistent_terms() {
    let good = InstrumentTerms {
        notional: 100 * AMOUNT_SCALE,
        coupon_rate: percent(0.05),
        day_count: DayCountConv::Act365,
        frequency_months: 6,
        issue_date: day(2019, 12, 16),
        maturity_date: day(2021, 12, 16),
        first_coupon_date: None,
    };
    let mut backwards = good;
    backwards.maturity_date = day(2019, 12, 16);
    assert_eq!(
        rollout_cash_flows(&backwards, AMOUNT_SCALE, eur()).unwrap_err(),
        RolloutError::MaturityNotAfterIssue
    );
    let mut stuck = good;
    stuck.frequency_months = 0;
    assert_eq!(
        rollout_cash_flows(&stuck, AMOUNT_SCALE, eur()).unwrap_err(),
        RolloutError::NonPositiveFrequency
    );
}

#[test]
fn discount_error_message_names_the_cause() {
    let curr = eur();
    let gbp = Currency::new(None, CurrencyISOCode::new("GBP").unwrap(), None);
    let rate = FlatRate::new(percent(0.05), DayCountConv::Act365, Compounding::Simple, curr);
    let flow = CashFlow::new(AMOUNT_SCALE, gbp, day(2021, 10, 1));
    let err = rate.discount_cash_flow(&flow, day(2020, 1, 1)).unwrap_err();
    assert_eq!(
        err.message(),
        "discount error: the cash flow currency does not match the discounter currency".to_string()
    );
}
