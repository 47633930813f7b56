//! Day-count conventions: the year fraction between two dates.
//!
//! Every convention yields an exact rational year fraction.  The chosen
//! rules are fixed here rather than left ambiguous:
//!
//! * `Act365`: actual days divided by 365.
//! * `Act360`: actual days divided by 360.
//! * `D30_360`: both dates normalized to 30-day months before
//!   differencing, divided by 360.  Edge rule: a start day of 31 counts
//!   as 30; an end day of 31 counts as 30 only when the (normalized)
//!   start day is 30 or more.
//! * `ActAct`: with both anchor dates supplied, the anchor period counts
//!   as one year and the fraction is actual days over actual anchor-period
//!   days; with no anchors, the period is split at calendar-year
//!   boundaries and each part is divided by its own year's length.
//!   Supplying exactly one anchor, or an empty anchor period, is an
//!   error, never a silent default.

use vstd::prelude::*;
use crate::dates::Date;
use crate::dates::spec_day_number;
use crate::dates::spec_is_leap_year;
use crate::numeric::Rational;

verus! {

/// The supported day-count conventions.
#[derive(Debug, Clone, Copy, PartialEq, Eq, Structural)]
pub enum DayCountConv {
    /// Actual days over 365.
    Act365,
    /// Actual days over 360.
    Act360,
    /// Actual days over actual days, anchor period or calendar years.
    ActAct,
    /// Months count thirty days, years 360.
    D30_360,
}

/// Errors of year-fraction computation.
#[derive(Debug, Clone, Copy, PartialEq, Eq, Structural)]
pub enum DayCountError {
    /// The convention needs both anchor dates, but only one was given.
    MissingAnchorDates,
    /// The anchor period is empty or runs backwards.
    EmptyAnchorPeriod,
}

/// Common denominator of the calendar-year splitting: 365 * 366.
pub const ACT_ACT_DENOM: i64 = 133_590;

/// The co-factor of year `y`: multiplying days of year `y` by it scales
/// them from a denominator of the year's length to [`ACT_ACT_DENOM`].
pub open spec fn spec_year_cofactor(y: int) -> int {
    if spec_is_leap_year(y) {
        365int
    } else {
        366int
    }
}

/// Numerator, over [`ACT_ACT_DENOM`], of the calendar-year split from
/// January first of year `y` up to `e`, for `y <= e.year`.
pub open spec fn spec_act_act_from_jan(y: int, e: Date) -> int
    decreases e.year - y,
{
    if y >= e.year {
        (e.spec_dn() - spec_day_number(y, 1, 1)) * spec_year_cofactor(y)
    } else {
        ACT_ACT_DENOM + spec_act_act_from_jan(y + 1, e)
    }
}

/// Numerator, over [`ACT_ACT_DENOM`], of the calendar-year split of an
/// ordered period (`s.year <= e.year`).
pub open spec fn spec_act_act_num_fwd(s: Date, e: Date) -> int {
    if s.year < e.year {
        (spec_day_number(s.year + 1, 1, 1) - s.spec_dn()) * spec_year_cofactor(s.year as int)
            + spec_act_act_from_jan(s.year + 1, e)
    } else {
        (e.spec_dn() - s.spec_dn()) * spec_year_cofactor(s.year as int)
    }
}

/// Numerator, over [`ACT_ACT_DENOM`], of the calendar-year split of the
/// period from `s` to `e`: each calendar year's days are weighted by
/// that year's own length.
pub open spec fn spec_act_act_num(s: Date, e: Date) -> int {
    if s.year <= e.year {
        spec_act_act_num_fwd(s, e)
    } else {
        -spec_act_act_num_fwd(e, s)
    }
}

/// Day of month used by the 30/360 rule for the period start.
pub open spec fn spec_d30_start_day(d: int) -> int {
    if d == 31 {
        30int
    } else {
        d
    }
}

/// Numerator, over 360, of the 30/360 year fraction.
pub open spec fn spec_d30_360_num(s: Date, e: Date) -> int {
    let d1 = spec_d30_start_day(s.day as int);
    let d2 = if e.day == 31 && d1 >= 30 {
        30int
    } else {
        e.day as int
    };
    360 * (e.year - s.year) + 30 * (e.month - s.month) + d2 - d1
}

/// The year fraction of the period from `s` to `e` when no anchor dates
/// are supplied: the value `year_fraction` returns for every convention
/// in that case.
pub open spec fn spec_year_fraction_plain(c: DayCountConv, s: Date, e: Date) -> Rational {
    match c {
        DayCountConv::Act365 => Rational { num: (e.spec_dn() - s.spec_dn()) as i128, den: 365 },
        DayCountConv::Act360 => Rational { num: (e.spec_dn() - s.spec_dn()) as i128, den: 360 },
        DayCountConv::D30_360 => Rational { num: spec_d30_360_num(s, e) as i128, den: 360 },
        DayCountConv::ActAct => Rational {
            num: spec_act_act_num(s, e) as i128,
            den: ACT_ACT_DENOM as i128,
        },
    }
}

impl DayCountConv {
    /// The year fraction the convention assigns to the period from
    /// `start` to `end`, as an exact rational; negative when `end` lies
    /// before `start`.  `period_start` and `period_end` are the anchor
    /// dates of the surrounding coupon period; only `ActAct` reads them.
    pub fn year_fraction(
        &self,
        start: Date,
        end: Date,
        period_start: Option<Date>,
        period_end: Option<Date>,
    ) -> (r: Result<Rational, DayCountError>)
        requires
            start.wf(),
            end.wf(),
            period_start is Some ==> period_start->0.wf(),
            period_end is Some ==> period_end->0.wf(),
        ensures
            r is Ok ==> year_fraction_bounded(r->Ok_0),
            match *self {
                DayCountConv::Act365 => r == Ok::<Rational, DayCountError>(
                    spec_year_fraction_plain(DayCountConv::Act365, start, end),
                ),
                DayCountConv::Act360 => r == Ok::<Rational, DayCountError>(
                    spec_year_fraction_plain(DayCountConv::Act360, start, end),
                ),
                DayCountConv::D30_360 => r == Ok::<Rational, DayCountError>(
                    spec_year_fraction_plain(DayCountConv::D30_360, start, end),
                ),
                DayCountConv::ActAct => match (period_start, period_end) {
                    (Some(ps), Some(pe)) => {
                        if ps.spec_dn() < pe.spec_dn() {
                            r == Ok::<Rational, DayCountError>(
                                Rational {
                                    num: (end.spec_dn() - start.spec_dn()) as i128,
                                    den: (pe.spec_dn() - ps.spec_dn()) as i128,
                                },
                            )
                        } else {
                            r == Err::<Rational, DayCountError>(DayCountError::EmptyAnchorPeriod)
                        }
                    },
                    (None, None) => r == Ok::<Rational, DayCountError>(
                        spec_year_fraction_plain(DayCountConv::ActAct, start, end),
                    ),
                    _ => r == Err::<Rational, DayCountError>(DayCountError::MissingAnchorDates),
                },
            },
    {
        match self {
            DayCountConv::Act365 => {
                let days = end.day_number() - start.day_number();
                Ok(Rational::new(days as i128, 365))
            },
            DayCountConv::Act360 => {
                let days = end.day_number() - start.day_number();
                Ok(Rational::new(days as i128, 360))
            },
            DayCountConv::D30_360 => {
                let d1: i64 = if start.day == 31 {
                    30
                } else {
                    start.day as i64
                };
                let d2: i64 = if end.day == 31 && d1 >= 30 {
                    30
                } else {
                    end.day as i64
                };
                let num: i64 = 360 * (end.year as i64 - start.year as i64) + 30 * (end.month as i64
                    - start.month as i64) + d2 - d1;
                Ok(Rational::new(num as i128, 360))
            },
            DayCountConv::ActAct => match (period_start, period_end) {
                (Some(ps), Some(pe)) => {
                    let anchor_days = pe.day_number() - ps.day_number();
                    if anchor_days > 0 {
                        let days = end.day_number() - start.day_number();
                        Ok(Rational::new(days as i128, anchor_days as i128))
                    } else {
                        Err(DayCountError::EmptyAnchorPeriod)
                    }
                },
                (None, None) => {
                    let num = act_act_split_num(start, end);
                    Ok(Rational::new(num as i128, ACT_ACT_DENOM as i128))
                },
                _ => Err(DayCountError::MissingAnchorDates),
            },
        }
    }
}

/// A year fraction as produced by `year_fraction`: the denominator is at
/// most the day count of the supported calendar, the numerator at most a
/// full calendar span of weighted days.
pub open spec fn year_fraction_bounded(r: Rational) -> bool {
    &&& 1 <= r.den <= 3_652_059
    &&& -4_100_000_000 <= r.num <= 4_100_000_000
}

/// Calendar-year split numerator for an ordered period.
fn act_act_split_num_fwd(s: Date, e: Date) -> (r: i64)
    requires
        s.wf(),
        e.wf(),
        s.year <= e.year,
    ensures
        r == if s.year < e.year {
            (spec_day_number(s.year + 1, 1, 1) - s.spec_dn()) * spec_year_cofactor(s.year as int)
                + spec_act_act_from_jan(s.year + 1, e)
        } else {
            (e.spec_dn() - s.spec_dn()) * spec_year_cofactor(s.year as int)
        },
        -4_100_000_000 <= r <= 4_100_000_000,
{
    let s_cof: i64 = if crate::dates::is_leap_year(s.year) {
        365
    } else {
        366
    };
    if s.year == e.year {
        let days = e.day_number() - s.day_number();
        proof {
            lemma_weighted_days_bound(days as int, s_cof as int);
        }
        days * s_cof
    } else {
        let jan1_next = Date { year: s.year + 1, month: 1, day: 1 };
        let head_days = jan1_next.day_number() - s.day_number();
        proof {
            lemma_weighted_days_bound(head_days as int, s_cof as int);
        }
        let head = head_days * s_cof;
        let e_cof: i64 = if crate::dates::is_leap_year(e.year) {
            365
        } else {
            366
        };
        let jan1_last = Date { year: e.year, month: 1, day: 1 };
        let tail_days = e.day_number() - jan1_last.day_number();
        proof {
            lemma_weighted_days_bound(tail_days as int, e_cof as int);
        }
        let tail = tail_days * e_cof;
        let mid = ACT_ACT_DENOM * (e.year as i64 - s.year as i64 - 1);
        proof {
            lemma_act_act_from_jan_closed(s.year as int + 1, e);
        }
        head + mid + tail
    }
}

/// A day count weighted by a year co-factor stays within one third of
/// the numerator bound.
proof fn lemma_weighted_days_bound(days: int, cof: int)
    requires
        -3_652_059 <= days <= 3_652_059,
        365 <= cof <= 366,
    ensures
        -1_366_653_594 <= days * cof <= 1_366_653_594,
{
    assert(-3_652_059 * 366 <= days * cof <= 3_652_059 * 366) by (nonlinear_arith)
        requires
            -3_652_059 <= days <= 3_652_059,
            365 <= cof <= 366,
    ;
}

/// Calendar-year split numerator, either order of the two dates.
fn act_act_split_num(s: Date, e: Date) -> (r: i64)
    requires
        s.wf(),
        e.wf(),
    ensures
        r == spec_act_act_num(s, e),
        -4_100_000_000 <= r <= 4_100_000_000,
{
    if s.year <= e.year {
        act_act_split_num_fwd(s, e)
    } else {
        -act_act_split_num_fwd(e, s)
    }
}

/// The calendar-year split from January first of year `y` to `e` is the
/// full years in between plus the days of `e`'s own year.
proof fn lemma_act_act_from_jan_closed(y: int, e: Date)
    requires
        y <= e.year,
    ensures
        spec_act_act_from_jan(y, e) == ACT_ACT_DENOM * (e.year - y) + (e.spec_dn()
            - spec_day_number(e.year as int, 1, 1)) * spec_year_cofactor(e.year as int),
    decreases e.year - y,
{
    if y < e.year {
        lemma_act_act_from_jan_closed(y + 1, e);
    }
}

} // verus!
