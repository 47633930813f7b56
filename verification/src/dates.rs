//! Calendar dates of the proleptic Gregorian calendar.
//!
//! A [`Date`] is a year, month and day with the usual validity rules, for
//! years 1 through 9999.  All date arithmetic goes through the day number:
//! the count of days since the first of January of year 1.  Ordering of
//! dates is ordering of day numbers.

use vstd::prelude::*;

verus! {

/// Error of date construction.
#[derive(Debug, Clone, Copy, PartialEq, Eq, Structural)]
pub enum DateError {
    /// The year, month, day triple is not a calendar date in years 1-9999.
    InvalidDate,
}

/// The year has 366 days.
pub open spec fn spec_is_leap_year(y: int) -> bool {
    y % 4 == 0 && (y % 100 != 0 || y % 400 == 0)
}

/// Number of days of month `m` in year `y`.
pub open spec fn spec_days_in_month(y: int, m: int) -> int {
    if m == 2 {
        if spec_is_leap_year(y) {
            29int
        } else {
            28int
        }
    } else if m == 4 || m == 6 || m == 9 || m == 11 {
        30int
    } else {
        31int
    }
}

/// Number of days of the months before month `m` in year `y`.
pub open spec fn spec_days_before_month(y: int, m: int) -> int {
    let plain: int = if m == 1 {
        0
    } else if m == 2 {
        31
    } else if m == 3 {
        59
    } else if m == 4 {
        90
    } else if m == 5 {
        120
    } else if m == 6 {
        151
    } else if m == 7 {
        181
    } else if m == 8 {
        212
    } else if m == 9 {
        243
    } else if m == 10 {
        273
    } else if m == 11 {
        304
    } else {
        334
    };
    if m >= 3 && spec_is_leap_year(y) {
        plain + 1
    } else {
        plain
    }
}

/// Number of leap years among years 1 to `y - 1`.
pub open spec fn spec_leap_years_before(y: int) -> int {
    (y - 1) / 4 - (y - 1) / 100 + (y - 1) / 400
}

/// Days between January first of year 1 and the given date: the day
/// number of the date.  January first of year 1 has day number zero.
#[verifier::opaque]
pub open spec fn spec_day_number(y: int, m: int, d: int) -> int {
    365 * (y - 1) + spec_leap_years_before(y) + spec_days_before_month(y, m) + d - 1
}

/// A calendar date.
#[derive(Debug, Clone, Copy, PartialEq, Eq, Structural)]
pub struct Date {
    pub year: i32,
    pub month: u8,
    pub day: u8,
}

impl Date {
    /// The date is a calendar date of a supported year.
    pub open spec fn wf(self) -> bool {
        &&& 1 <= self.year <= 9999
        &&& 1 <= self.month <= 12
        &&& 1 <= self.day <= spec_days_in_month(self.year as int, self.month as int)
    }

    /// The day number of the date.
    pub open spec fn spec_dn(self) -> int {
        spec_day_number(self.year as int, self.month as int, self.day as int)
    }

    /// `self` is on or before `other`.
    pub open spec fn le(self, other: Date) -> bool {
        self.spec_dn() <= other.spec_dn()
    }

    /// `self` is strictly before `other`.
    pub open spec fn lt(self, other: Date) -> bool {
        self.spec_dn() < other.spec_dn()
    }

    /// Build a date from calendar components; fails on anything that is
    /// not a calendar date of years 1 through 9999.
    pub fn new(year: i32, month: u8, day: u8) -> (r: Result<Date, DateError>)
        ensures
            ({
                let date = Date { year, month, day };
                &&& (r is Ok <==> date.wf())
                &&& (r is Ok ==> r->Ok_0 == date)
                &&& (r is Err ==> r->Err_0 == DateError::InvalidDate)
            }),
    {
        if 1 <= year && year <= 9999 && 1 <= month && month <= 12 && 1 <= day && day
            <= days_in_month(year, month) {
            Ok(Date { year, month, day })
        } else {
            Err(DateError::InvalidDate)
        }
    }

    /// The day number: days elapsed since January first of year 1.
    pub fn day_number(&self) -> (r: i64)
        requires
            self.wf(),
        ensures
            r == self.spec_dn(),
            0 <= r < 3_652_059,
    {
        proof {
            reveal(spec_day_number);
        }
        let y = (self.year - 1) as i64;
        let leaps = y / 4 - y / 100 + y / 400;
        365 * y + leaps + days_before_month(self.year, self.month) as i64 + self.day as i64 - 1
    }

    /// The date is on or before `other`.
    pub fn on_or_before(&self, other: &Date) -> (r: bool)
        requires
            self.wf(),
            other.wf(),
        ensures
            r == self.le(*other),
    {
        self.day_number() <= other.day_number()
    }

    /// The date is strictly before `other`.
    pub fn before(&self, other: &Date) -> (r: bool)
        requires
            self.wf(),
            other.wf(),
        ensures
            r == self.lt(*other),
    {
        self.day_number() < other.day_number()
    }
}

/// The year has 366 days.
pub fn is_leap_year(y: i32) -> (r: bool)
    requires
        0 <= y,
    ensures
        r == spec_is_leap_year(y as int),
{
    y % 4 == 0 && (y % 100 != 0 || y % 400 == 0)
}

/// Number of days of month `m` in year `y`.
pub fn days_in_month(y: i32, m: u8) -> (r: u8)
    requires
        0 <= y,
        1 <= m <= 12,
    ensures
        r == spec_days_in_month(y as int, m as int),
{
    if m == 2 {
        if is_leap_year(y) {
            29
        } else {
            28
        }
    } else if m == 4 || m == 6 || m == 9 || m == 11 {
        30
    } else {
        31
    }
}

/// Number of days of the months before month `m` in year `y`.
pub fn days_before_month(y: i32, m: u8) -> (r: u16)
    requires
        0 <= y,
        1 <= m <= 12,
    ensures
        r == spec_days_before_month(y as int, m as int),
{
    let plain: u16 = if m == 1 {
        0
    } else if m == 2 {
        31
    } else if m == 3 {
        59
    } else if m == 4 {
        90
    } else if m == 5 {
        120
    } else if m == 6 {
        151
    } else if m == 7 {
        181
    } else if m == 8 {
        212
    } else if m == 9 {
        243
    } else if m == 10 {
        273
    } else if m == 11 {
        304
    } else {
        334
    };
    if m >= 3 && is_leap_year(y) {
        plain + 1
    } else {
        plain
    }
}

/// The result of stepping `months` months forward from `(y, m, d)`: the
/// calendar month advances and the day is clamped to the month's length.
#[verifier::opaque]
pub open spec fn spec_add_months(y: int, m: int, d: int, months: int) -> (int, int, int) {
    let total = 12 * y + (m - 1) + months;
    let ny = total / 12;
    let nm = total % 12 + 1;
    let nd = if d <= spec_days_in_month(ny, nm) {
        d
    } else {
        spec_days_in_month(ny, nm)
    };
    (ny, nm, nd)
}

impl Date {
    /// Step a number of months forward, clamping the day of month to the
    /// target month's length; fails only when the target year is out of
    /// the supported range.
    pub fn add_months(&self, months: u32) -> (r: Result<Date, DateError>)
        requires
            self.wf(),
            months <= 120_000,
        ensures
            ({
                let (ny, nm, nd) = spec_add_months(
                    self.year as int,
                    self.month as int,
                    self.day as int,
                    months as int,
                );
                &&& (r is Ok <==> 1 <= ny <= 9999)
                &&& (r is Ok ==> r->Ok_0 == Date {
                    year: ny as i32,
                    month: nm as u8,
                    day: nd as u8,
                } && r->Ok_0.wf())
                &&& (r is Err ==> r->Err_0 == DateError::InvalidDate)
            }),
    {
        proof {
            reveal(spec_add_months);
        }
        let total: i64 = 12 * self.year as i64 + (self.month as i64 - 1) + months as i64;
        let ny = total / 12;
        let nm = (total % 12) as u8 + 1;
        if ny < 1 || ny > 9999 {
            return Err(DateError::InvalidDate);
        }
        let max_d = days_in_month(ny as i32, nm);
        let nd = if self.day <= max_d {
            self.day
        } else {
            max_d
        };
        Ok(Date { year: ny as i32, month: nm, day: nd })
    }
}

} // verus!
