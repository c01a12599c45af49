//! Previous and next anniversaries of a day and month, relative to a date.

use crate::calendar::{
    date_exists, days_in_month, is_leap_year, valid_ymd, CalendarDate, MAX_YEAR, MIN_YEAR,
};
use crate::date_spec::PROBE_YEAR;
use vstd::prelude::*;

verus! {

/// `(day, month)` is an anniversary that some year has: a real date of a leap year.
pub open spec fn valid_anniversary(day: u32, month: u32) -> bool {
    valid_ymd(PROBE_YEAR as int, month as int, day as int)
}

/// The anniversary `(day, month)` in `year`. February 29 falls on February 28
/// in a common year; every other anniversary exists in every year.
pub open spec fn safe_date(year: i32, month: u32, day: u32) -> CalendarDate {
    if valid_ymd(year as int, month as int, day as int) {
        CalendarDate { year, month, day }
    } else {
        CalendarDate { year, month, day: (day - 1) as u32 }
    }
}

/// The previous anniversary strictly before `date` and the next one after it;
/// `None` when `date` itself is the anniversary.
pub open spec fn occurrences(day: u32, month: u32, date: CalendarDate) -> Option<
    (CalendarDate, CalendarDate),
> {
    if date.day == day && date.month == month {
        None
    } else {
        let current = safe_date(date.year, month, day);
        if current.before(date) {
            Some((current, safe_date((date.year + 1) as i32, month, day)))
        } else {
            Some((safe_date((date.year - 1) as i32, month, day), current))
        }
    }
}

/// An anniversary that is missing from a year within range is February 29 of
/// a common year.
proof fn lemma_missing_anniversary(year: i32, month: u32, day: u32)
    requires
        valid_anniversary(day, month),
        MIN_YEAR <= year <= MAX_YEAR,
    ensures
        !valid_ymd(year as int, month as int, day as int) ==> (month == 2 && day == 29
            && !is_leap_year(year as int)),
        safe_date(year, month, day).wf(),
{
    assert(is_leap_year(PROBE_YEAR as int));
    if !valid_ymd(year as int, month as int, day as int) {
        assert(days_in_month(year as int, month as int) < days_in_month(
            PROBE_YEAR as int,
            month as int,
        ));
    }
}

/// The anniversary `(day, month)` in `year`, February 29 falling on February
/// 28 in a common year.
pub fn make_date_safe(year: i32, month: u32, day: u32) -> (r: CalendarDate)
    requires
        MIN_YEAR <= year <= MAX_YEAR,
        valid_anniversary(day, month),
    ensures
        r == safe_date(year, month, day),
        r.wf(),
{
    proof {
        lemma_missing_anniversary(year, month, day);
    }
    if date_exists(year, month, day) {
        CalendarDate { year, month, day }
    } else {
        CalendarDate { year, month, day: day - 1 }
    }
}

/// The previous and next anniversaries of `(day, month)` around `date`, or
/// `None` when `date` is the anniversary.
pub fn find_prev_next_occurences(day: u32, month: u32, date: CalendarDate) -> (r: Option<
    (CalendarDate, CalendarDate),
>)
    requires
        date.wf(),
        MIN_YEAR < date.year < MAX_YEAR,
        valid_anniversary(day, month),
    ensures
        r == occurrences(day, month, date),
{
    let current_year = date.year;
    let current = make_date_safe(current_year, month, day);
    if date.day == day && date.month == month {
        return None;
    }
    if current.is_before(&date) {
        let next = make_date_safe(current_year + 1, month, day);
        Some((current, next))
    } else {
        let prev = make_date_safe(current_year - 1, month, day);
        Some((prev, current))
    }
}

/// February 29 falls on February 29 in a leap year and on February 28 in a
/// common year.
pub proof fn lemma_leap_day_safety(year: i32)
    requires
        MIN_YEAR <= year <= MAX_YEAR,
    ensures
        is_leap_year(year as int) ==> safe_date(year, 2, 29) == (CalendarDate {
            year,
            month: 2,
            day: 29,
        }),
        !is_leap_year(year as int) ==> safe_date(year, 2, 29) == (CalendarDate {
            year,
            month: 2,
            day: 28,
        }),
{
}

/// There are no occurrences exactly when the date is the anniversary.
pub proof fn lemma_today_case(day: u32, month: u32, date: CalendarDate)
    ensures
        occurrences(day, month, date) is None <==> (date.day == day && date.month == month),
{
}

/// Away from the anniversary, the previous occurrence comes strictly before the
/// date and the next one a year later, not before it. Both fall on the
/// anniversary, or on its February 28 fallback. The next occurrence is strictly
/// after the date, except for February 29 on February 28 of a common year,
/// where the fallback is the date itself.
pub proof fn lemma_occurrence_bracketing(day: u32, month: u32, date: CalendarDate)
    requires
        date.wf(),
        MIN_YEAR < date.year < MAX_YEAR,
        valid_anniversary(day, month),
        !(date.day == day && date.month == month),
    ensures
        occurrences(day, month, date) matches Some((prev, next)) && {
            &&& prev.wf() && next.wf()
            &&& prev.before(date)
            &&& date.before(next) || (day == 29 && month == 2 && next == date)
            &&& next.year == prev.year + 1
            &&& prev == safe_date(prev.year, month, day)
            &&& next == safe_date(next.year, month, day)
            &&& prev.month == month && next.month == month
        },
{
    lemma_missing_anniversary(date.year, month, day);
    lemma_missing_anniversary((date.year + 1) as i32, month, day);
    lemma_missing_anniversary((date.year - 1) as i32, month, day);
}

} // verus!
