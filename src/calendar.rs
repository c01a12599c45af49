//! Proleptic Gregorian calendar dates, as plain values.

use chrono::NaiveDate;
use vstd::prelude::*;

verus! {

/// The earliest year that a calendar date can have.
pub const MIN_YEAR: i32 = -262143;

/// The latest year that a calendar date can have.
pub const MAX_YEAR: i32 = 262142;

/// Leap years of the proleptic Gregorian calendar.
pub open spec fn is_leap_year(y: int) -> bool {
    y % 4 == 0 && (y % 100 != 0 || y % 400 == 0)
}

/// Number of days in month `m` (1-based) of year `y`.
pub open spec fn days_in_month(y: int, m: int) -> int {
    if m == 2 {
        if is_leap_year(y) {
            29
        } else {
            28
        }
    } else if m == 4 || m == 6 || m == 9 || m == 11 {
        30
    } else {
        31
    }
}

/// `(y, m, d)` names a real date within the supported range of years.
pub open spec fn valid_ymd(y: int, m: int, d: int) -> bool {
    &&& MIN_YEAR <= y <= MAX_YEAR
    &&& 1 <= m <= 12
    &&& 1 <= d <= days_in_month(y, m)
}

/// A calendar date: year, month (1 to 12) and day of the month.
#[derive(Clone, Copy, Debug, PartialEq, Eq, Structural)]
pub struct CalendarDate {
    pub year: i32,
    pub month: u32,
    pub day: u32,
}

impl CalendarDate {
    /// The fields name a real date.
    pub open spec fn wf(self) -> bool {
        valid_ymd(self.year as int, self.month as int, self.day as int)
    }

    /// Strict chronological order of two dates.
    pub open spec fn before(self, other: CalendarDate) -> bool {
        ||| self.year < other.year
        ||| self.year == other.year && self.month < other.month
        ||| self.year == other.year && self.month == other.month && self.day < other.day
    }

    /// The date `(year, month, day)`, if it exists.
    pub fn from_ymd(year: i32, month: u32, day: u32) -> (r: Option<CalendarDate>)
        ensures
            r is Some <==> valid_ymd(year as int, month as int, day as int),
            r is Some ==> r == Some(CalendarDate { year, month, day }),
    {
        if date_exists(year, month, day) {
            Some(CalendarDate { year, month, day })
        } else {
            None
        }
    }

    /// Whether `self` comes strictly before `other`.
    pub fn is_before(&self, other: &CalendarDate) -> (r: bool)
        ensures
            r == self.before(*other),
    {
        if self.year != other.year {
            self.year < other.year
        } else if self.month != other.month {
            self.month < other.month
        } else {
            self.day < other.day
        }
    }
}

/// Relies on chrono's `NaiveDate::from_ymd_opt`, which gives a date exactly
/// when month and day form a real date of the proleptic Gregorian calendar and
/// the year lies in chrono's range (`MIN_YEAR` to `MAX_YEAR`).
#[verifier::external_body]
pub(crate) fn date_exists(year: i32, month: u32, day: u32) -> (r: bool)
    ensures
        r == valid_ymd(year as int, month as int, day as int),
{
    NaiveDate::from_ymd_opt(year, month, day).is_some()
}

} // verus!
