use std::str::FromStr;

use finflows::asset::Asset;
use finflows::cash_flow::CashAmount;
use finflows::cash_flow::CashFlow;
use finflows::cash_flow::flows_after;
use finflows::currency::Currency;
use finflows::currency::CurrencyError;
use finflows::currency::CurrencyISOCode;
use finflows::currency::default_rounding_digits;
use finflows::data::DataItem;
use finflows::dates::Date;
use finflows::day_count::DayCountConv;
use finflows::day_count::DayCountError;
use finflows::numeric::AMOUNT_SCALE;
use finflows::numeric::Rational;

fn date(y: i32, m: u8, d: u8) -> Date {
    Date::new(y, m, d).unwrap()
}

#[test]
fn read_write_currency() {
    // valid iso code
    let currency = Currency::from_str("EUR").unwrap();
    assert_eq!(currency.to_string(), "EUR".to_string());

    // case ignorance
    let currency = Currency::from_str("euR").unwrap();
    assert_eq!(currency.to_string(), "EUR".to_string());

    // to long
    let currency = Currency::from_str("EURO");
    assert_eq!(currency, Err(CurrencyError::InvalidLength));

    // to short
    let currency = Currency::from_str("EU");
    assert_eq!(currency, Err(CurrencyError::InvalidLength));

    // invalid character1
    let currency = Currency::from_str("éUR");
    assert_eq!(currency, Err(CurrencyError::InvalidCharacter));

    // invalid character2
    let currency = Currency::from_str("EU1");
    assert_eq!(currency, Err(CurrencyError::InvalidCharacter));
}

#[test]
fn set_asset_id() {
    let mut asset = Asset::Currency(Currency::new(
        None,
        CurrencyISOCode::new("EUR").unwrap(),
        Some(4),
    ));
    asset.set_id(1).unwrap();
    assert_eq!(asset.get_id().unwrap(), 1);

    let aus = Currency::new(None, CurrencyISOCode::new("AUS").unwrap(), Some(2));
    let mut aus_asset = Asset::Currency(aus);
    aus_asset.set_id(1).unwrap();
    assert_eq!(aus_asset.get_id().unwrap(), 1);
    assert!(aus.get_id().is_err());
}

#[test]
fn currency_equality_is_by_code() {
    let a = Currency::new(Some(7), CurrencyISOCode::new("EUR").unwrap(), Some(4));
    let b = Currency::new(None, CurrencyISOCode::new("eur").unwrap(), Some(2));
    let c = Currency::new(None, CurrencyISOCode::new("USD").unwrap(), None);
    assert_eq!(a, b);
    assert!(a != c);
}

#[test]
fn currency_id_set_once() {
    let mut eur = Currency::new(None, CurrencyISOCode::new("EUR").unwrap(), None);
    assert!(eur.get_id().is_err());
    eur.set_id(42).unwrap();
    assert_eq!(eur.get_id().unwrap(), 42);
    assert!(eur.set_id(43).is_err());
    assert_eq!(eur.get_id().unwrap(), 42);
}

#[test]
fn rounding_digit_defaults() {
    assert_eq!(default_rounding_digits("JPY"), 0);
    assert_eq!(default_rounding_digits("TRL"), 0);
    assert_eq!(default_rounding_digits("EUR"), 2);
    let jpy = Currency::new(None, CurrencyISOCode::new("JPY").unwrap(), None);
    assert_eq!(jpy.rounding_digits(), 0);
    let eur = Currency::new(None, CurrencyISOCode::new("EUR").unwrap(), None);
    assert_eq!(eur.rounding_digits(), 2);
}

#[test]
fn asset_names_and_classes() {
    let eur = Currency::new(None, CurrencyISOCode::new("EUR").unwrap(), None);
    let asset = Asset::Currency(eur);
    assert_eq!(asset.class(), "currency".to_string());
    assert_eq!(asset.name(), "EUR".to_string());
}

#[test]
fn day_numbers_count_actual_days() {
    let today = date(2019, 10, 1);
    assert_eq!(
        date(2021, 4, 1).day_number() - today.day_number(),
        366 + 182
    );
    assert_eq!(
        date(2021, 10, 1).day_number() - today.day_number(),
        366 + 365
    );
    assert_eq!(
        date(2022, 4, 1).day_number() - today.day_number(),
        366 + 365 + 182
    );
    assert_eq!(
        date(2022, 10, 3).day_number() - today.day_number(),
        366 + 2 * 365 + 2
    );
}

#[test]
fn date_validity_and_month_stepping() {
    assert!(Date::new(2021, 2, 29).is_err());
    assert!(Date::new(2020, 2, 29).is_ok());
    assert!(Date::new(2020, 13, 1).is_err());
    assert!(Date::new(0, 1, 1).is_err());
    // day clamped to the target month's length
    assert_eq!(date(2020, 1, 31).add_months(1).unwrap(), date(2020, 2, 29));
    assert_eq!(date(2019, 12, 16).add_months(6).unwrap(), date(2020, 6, 16));
    assert!(date(9999, 12, 1).add_months(12).is_err());
}

#[test]
fn year_fractions_by_convention() {
    let s = date(2019, 12, 16);
    let e = date(2020, 6, 16);
    let act365 = DayCountConv::Act365.year_fraction(s, e, None, None).unwrap();
    assert_eq!((act365.num, act365.den), (183, 365));
    let act360 = DayCountConv::Act360.year_fraction(s, e, None, None).unwrap();
    assert_eq!((act360.num, act360.den), (183, 360));
    let d30 = DayCountConv::D30_360.year_fraction(s, e, None, None).unwrap();
    assert_eq!((d30.num, d30.den), (180, 360));
    // 30/360 edge rule: a start day of 31 counts as 30
    let d30b = DayCountConv::D30_360
        .year_fraction(date(2020, 1, 31), date(2020, 7, 31), None, None)
        .unwrap();
    assert_eq!((d30b.num, d30b.den), (180, 360));
}

#[test]
fn act_act_splits_calendar_years() {
    // 2019-10-01 to 2021-04-01: 92 days of 2019, all of 2020 (a leap
    // year), 90 days of 2021
    let yf = DayCountConv::ActAct
        .year_fraction(date(2019, 10, 1), date(2021, 4, 1), None, None)
        .unwrap();
    let expected = 92.0 / 365.0 + 1.0 + 90.0 / 365.0;
    let got = yf.num as f64 / yf.den as f64;
    assert!((got - expected).abs() < 1e-12);
}

#[test]
fn act_act_anchor_handling() {
    let s = date(2020, 1, 1);
    let e = date(2020, 7, 1);
    // one anchor alone is an error, never a silent default
    let r = DayCountConv::ActAct.year_fraction(s, e, Some(s), None);
    assert_eq!(r.unwrap_err(), DayCountError::MissingAnchorDates);
    // an empty anchor period is an error
    let r = DayCountConv::ActAct.year_fraction(s, e, Some(e), Some(s));
    assert_eq!(r.unwrap_err(), DayCountError::EmptyAnchorPeriod);
    // with both anchors the anchor period counts as one year
    let yf = DayCountConv::ActAct
        .year_fraction(s, e, Some(date(2020, 1, 1)), Some(date(2021, 1, 1)))
        .unwrap();
    assert_eq!((yf.num, yf.den), (182, 366));
}

#[test]
fn filter_returns_exact_suffix() {
    let eur = Currency::new(None, CurrencyISOCode::new("EUR").unwrap(), None);
    let amount = 100 * AMOUNT_SCALE;
    let flows = vec![
        CashFlow::new(amount, eur, date(2021, 4, 1)),
        CashFlow::new(amount, eur, date(2021, 10, 1)),
        CashFlow::new(amount, eur, date(2022, 4, 1)),
        CashFlow::new(amount, eur, date(2022, 10, 3)),
    ];
    // a cutoff on a flow date excludes that flow: strictly after only
    let after = flows_after(&flows, date(2021, 10, 1));
    assert_eq!(after.len(), 2);
    assert_eq!(after[0].date, date(2022, 4, 1));
    assert_eq!(after[1].date, date(2022, 10, 3));
    let all = flows_after(&flows, date(2019, 1, 1));
    assert_eq!(all.len(), 4);
    for i in 0..4 {
        assert_eq!(all[i].date, flows[i].date);
    }
    let none = flows_after(&flows, date(2023, 1, 1));
    assert_eq!(none.len(), 0);
}

#[test]
fn amounts_of_different_currencies_do_not_combine() {
    let eur = Currency::new(None, CurrencyISOCode::new("EUR").unwrap(), None);
    let usd = Currency::new(None, CurrencyISOCode::new("USD").unwrap(), None);
    let a = CashAmount::new(100 * AMOUNT_SCALE, eur);
    let b = CashAmount::new(1 * AMOUNT_SCALE, eur);
    let c = CashAmount::new(1 * AMOUNT_SCALE, usd);
    let sum = a.add_checked(&b).unwrap();
    assert_eq!(sum.amount, 101 * AMOUNT_SCALE);
    assert_eq!(sum.currency, eur);
    assert_eq!(a.add_checked(&c).unwrap_err(), CurrencyError::ConversionFailed);
    // routed through normalization at parity, the amounts combine
    let converted = c.convert_to(eur, Rational::new(1, 1));
    assert!(a.add_checked(&converted).is_ok());
}

#[test]
fn conversion_scales_by_the_rate() {
    let eur = Currency::new(None, CurrencyISOCode::new("EUR").unwrap(), None);
    let usd = Currency::new(None, CurrencyISOCode::new("USD").unwrap(), None);
    let a = CashAmount::new(100 * AMOUNT_SCALE, eur);
    // 1 EUR buys 1.1 USD
    let converted = a.convert_to(usd, Rational::new(11, 10));
    assert_eq!(converted.currency, usd);
    assert_eq!(converted.amount, 110 * AMOUNT_SCALE);
}
