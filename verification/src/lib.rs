//! A verified fixed-income valuation core.
//!
//! The crate models calendar dates, day-count conventions, cash flows and
//! discounting with exact integer arithmetic: amounts are fixed-point values
//! scaled by `numeric::AMOUNT_SCALE`, rates and discount factors are scaled by
//! `numeric::RATE_SCALE`, and year fractions are exact rationals.  Every
//! executable function carries a contract that pins its result down to the
//! mathematical value it computes.

pub mod asset;
pub mod cash_flow;
pub mod currency;
pub mod data;
pub mod dates;
pub mod day_count;
pub mod exp;
pub mod laws;
pub mod numeric;
pub mod rates;
pub mod rollout;
