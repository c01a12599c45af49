//! Time zones: the current date in a zone, and the instant at which a wall
//! clock time of a zone occurs.
//!
//! An instant is a number of seconds since 1970-01-01 00:00:00 UTC. A wall
//! clock time is counted the same way, as if its zone were UTC.

use crate::calendar::{CalendarDate, MAX_YEAR};
use chrono::{DateTime, Datelike, Local, LocalResult, NaiveDate, NaiveTime, Offset, TimeZone};
use chrono_tz::Tz;
use vstd::prelude::*;

verus! {

#[verifier::external_type_specification]
#[verifier::external_body]
pub struct ExTz(chrono_tz::Tz);

/// Seconds in a day; every offset from UTC is smaller in magnitude.
pub const SECONDS_PER_DAY: i64 = 86400;

/// A bound on the magnitude of every wall clock time of a valid date.
pub const WALL_LIMIT: i64 = 8_400_000_000_000;

/// Instants within this many seconds of 1970 lie well inside chrono's range
/// of dates (years -262143 to 262142), 259800 years either way.
pub const INSTANT_RANGE: i64 = 8_200_000_000_000;

/// Whether the zone database knows `name`, ignoring case.
pub uninterp spec fn known_zone(name: Seq<char>) -> bool;

/// The number of days from 1970-01-01 to `(y, m, d)` in the proleptic
/// Gregorian calendar, counting years from March so that leap days come last.
pub open spec fn days_from_civil(y: int, m: int, d: int) -> int {
    let ym = if m <= 2 {
        y - 1
    } else {
        y
    };
    let era = ym / 400;
    let year_of_era = ym - era * 400;
    let month_from_march = if m > 2 {
        m - 3
    } else {
        m + 9
    };
    let day_of_year = (153 * month_from_march + 2) / 5 + d - 1;
    let day_of_era = year_of_era * 365 + year_of_era / 4 - year_of_era / 100 + day_of_year;
    era * 146097 + day_of_era - 719468
}

/// The wall clock time `secs` seconds into `(year, month, day)`, in seconds
/// since 1970-01-01 00:00:00.
pub open spec fn wall_seconds(year: i32, month: u32, day: u32, secs: u32) -> int {
    days_from_civil(year as int, month as int, day as int) * SECONDS_PER_DAY + secs
}

pub open spec fn wall_of(date: CalendarDate, secs: u32) -> int {
    wall_seconds(date.year, date.month, date.day, secs)
}

/// An instant, with the offset from UTC of its zone at that instant.
#[derive(Clone, Copy, Debug, PartialEq, Eq, Structural)]
pub struct ZonedInstant {
    pub timestamp: i64,
    pub offset: i32,
}

impl ZonedInstant {
    /// The instant shows wall clock time `wall` in its zone.
    pub open spec fn shows(self, wall: int) -> bool {
        &&& self.timestamp + self.offset == wall
        &&& -SECONDS_PER_DAY < self.offset < SECONDS_PER_DAY
    }
}

/// The instants at which a zone's clock shows a given wall clock time.
#[derive(Clone, Copy, Debug, PartialEq, Eq, Structural)]
pub enum LocalTimes {
    /// Exactly one instant.
    Single(ZonedInstant),
    /// Two instants, where the clock is set back and the time repeats.
    Ambiguous(ZonedInstant, ZonedInstant),
    /// None: the time falls in a gap where the clock is set forward.
    Missing,
}

impl LocalTimes {
    pub open spec fn all_show(self, wall: int) -> bool {
        match self {
            LocalTimes::Single(a) => a.shows(wall),
            LocalTimes::Ambiguous(a, b) => a.shows(wall) && b.shows(wall),
            LocalTimes::Missing => true,
        }
    }
}

/// Which instant stands for a wall clock time that occurs twice or not at all.
#[derive(Clone, Copy, Debug, PartialEq, Eq, Structural)]
pub enum Resolve {
    /// The earlier of two instants; in a gap, the first instant after it.
    Earliest,
    /// The later of two instants; in a gap, the last instant before it.
    Latest,
}

/// Relies on chrono-tz's `Tz::from_str_insensitive`: a lookup of the name in
/// the zone database, ignoring case.
#[verifier::external_body]
pub(crate) fn parse_zone(name: &str) -> (r: Option<Tz>)
    ensures
        r is Some <==> known_zone(name@),
{
    Tz::from_str_insensitive(name).ok()
}

/// A calendar date in a zone, with the zone's offset from UTC at the instant
/// it was read at.
#[derive(Clone, Copy, Debug, PartialEq, Eq, Structural)]
pub struct ZonedDate {
    pub date: CalendarDate,
    pub offset: i32,
}

/// `d` is the date that the instant `now` falls on at the offset `d.offset`.
pub open spec fn date_of_instant(d: ZonedDate, now: int) -> bool {
    &&& d.date.wf()
    &&& -SECONDS_PER_DAY < d.offset < SECONDS_PER_DAY
    &&& wall_of(d.date, 0) <= now + d.offset < wall_of(d.date, 0) + SECONDS_PER_DAY
}

/// Relies on chrono-tz's `TimeZone::from_utc_datetime` for `Tz` and chrono's
/// `DateTime::date_naive`: the date at an instant in a zone of the database.
/// Inside `INSTANT_RANGE` neither `from_timestamp` nor `naive_local` fails.
#[verifier::external_body]
fn zone_date_at(tz: &Tz, now: i64) -> (r: ZonedDate)
    requires
        -INSTANT_RANGE <= now <= INSTANT_RANGE,
    ensures
        date_of_instant(r, now as int),
{
    let d = tz.from_utc_datetime(&DateTime::from_timestamp(now, 0).unwrap().naive_utc());
    let day = d.date_naive();
    let date = CalendarDate { year: day.year(), month: day.month(), day: day.day() };
    ZonedDate { date, offset: d.offset().fix().local_minus_utc() }
}

/// Relies on chrono's `TimeZone::from_utc_datetime` for `Local` and
/// `DateTime::date_naive`: the date at an instant in the viewer's zone.
#[verifier::external_body]
fn local_date_at(now: i64) -> (r: ZonedDate)
    requires
        -INSTANT_RANGE <= now <= INSTANT_RANGE,
    ensures
        date_of_instant(r, now as int),
{
    let d = Local.from_utc_datetime(&DateTime::from_timestamp(now, 0).unwrap().naive_utc());
    let day = d.date_naive();
    let date = CalendarDate { year: day.year(), month: day.month(), day: day.day() };
    ZonedDate { date, offset: d.offset().local_minus_utc() }
}

/// The wall clock time `secs` seconds into `date`, in seconds since
/// 1970-01-01 00:00:00.
fn naive_seconds(date: CalendarDate, secs: u32) -> (r: i64)
    requires
        date.wf(),
        secs < SECONDS_PER_DAY,
    ensures
        r == wall_seconds(date.year, date.month, date.day, secs),
        -WALL_LIMIT < r < WALL_LIMIT,
{
    let y = date.year as i64;
    let m = date.month as i64;
    let d = date.day as i64;
    let ym: i64 = if m <= 2 {
        y - 1
    } else {
        y
    };
    // A whole number of 400-year eras moves the year above zero, where
    // division rounds as the day count needs.
    let shifted: i64 = ym + 400_000;
    let shifted_era: i64 = shifted / 400;
    let year_of_era: i64 = shifted - shifted_era * 400;
    let era: i64 = shifted_era - 1000;
    assert(era == ym / 400 && year_of_era == ym - era * 400) by (nonlinear_arith)
        requires
            shifted == ym + 400_000,
            shifted >= 0,
            shifted_era == shifted / 400,
            year_of_era == shifted - shifted_era * 400,
            era == shifted_era - 1000,
    ;
    let month_from_march: i64 = if m > 2 {
        m - 3
    } else {
        m + 9
    };
    let day_of_year: i64 = (153 * month_from_march + 2) / 5 + d - 1;
    let day_of_era: i64 = year_of_era * 365 + year_of_era / 4 - year_of_era / 100 + day_of_year;
    let days: i64 = era * 146097 + day_of_era - 719468;
    assert(days == days_from_civil(date.year as int, date.month as int, date.day as int));
    days * SECONDS_PER_DAY + secs as i64
}

/// Relies on chrono-tz's `TimeZone::from_local_datetime` for `Tz`: the instants
/// at which the zone's clock shows the given time, each with its offset.
#[verifier::external_body]
fn zone_local_times(tz: &Tz, date: CalendarDate, secs: u32) -> (r: LocalTimes)
    requires
        date.wf(),
        secs < SECONDS_PER_DAY,
    ensures
        r.all_show(wall_seconds(date.year, date.month, date.day, secs)),
{
    let day = NaiveDate::from_ymd_opt(date.year, date.month, date.day).unwrap();
    let wall = day.and_time(NaiveTime::from_num_seconds_from_midnight_opt(secs, 0).unwrap());
    let z = |d: DateTime<Tz>| ZonedInstant { timestamp: d.timestamp(), offset: d.offset().fix().local_minus_utc() };
    match tz.from_local_datetime(&wall) {
        LocalResult::Single(a) => LocalTimes::Single(z(a)),
        LocalResult::Ambiguous(a, b) => LocalTimes::Ambiguous(z(a), z(b)),
        LocalResult::None => LocalTimes::Missing,
    }
}

/// Relies on chrono's `TimeZone::from_local_datetime` for `Local`: the
/// instants at which the viewer's clock shows the given time.
#[verifier::external_body]
fn local_local_times(date: CalendarDate, secs: u32) -> (r: LocalTimes)
    requires
        date.wf(),
        secs < SECONDS_PER_DAY,
    ensures
        r.all_show(wall_seconds(date.year, date.month, date.day, secs)),
{
    let day = NaiveDate::from_ymd_opt(date.year, date.month, date.day).unwrap();
    let wall = day.and_time(NaiveTime::from_num_seconds_from_midnight_opt(secs, 0).unwrap());
    let z = |d: DateTime<Local>| ZonedInstant { timestamp: d.timestamp(), offset: d.offset().local_minus_utc() };
    match Local.from_local_datetime(&wall) {
        LocalResult::Single(a) => LocalTimes::Single(z(a)),
        LocalResult::Ambiguous(a, b) => LocalTimes::Ambiguous(z(a), z(b)),
        LocalResult::None => LocalTimes::Missing,
    }
}

/// Relies on chrono-tz's `TimeZone::offset_from_utc_datetime` for `Tz`: the
/// zone's offset from UTC at an instant; `None` outside chrono's range.
#[verifier::external_body]
fn zone_offset_at(tz: &Tz, instant: i64) -> (r: Option<i32>)
    ensures
        r matches Some(o) ==> -SECONDS_PER_DAY < o < SECONDS_PER_DAY,
        -INSTANT_RANGE <= instant <= INSTANT_RANGE ==> r is Some,
{
    DateTime::from_timestamp(instant, 0).map(
        |d| tz.offset_from_utc_datetime(&d.naive_utc()).fix().local_minus_utc(),
    )
}

/// Relies on chrono's `TimeZone::offset_from_utc_datetime` for `Local`: the
/// viewer's offset from UTC at an instant; `None` outside chrono's range.
#[verifier::external_body]
fn local_offset_at(instant: i64) -> (r: Option<i32>)
    ensures
        r matches Some(o) ==> -SECONDS_PER_DAY < o < SECONDS_PER_DAY,
        -INSTANT_RANGE <= instant <= INSTANT_RANGE ==> r is Some,
{
    DateTime::from_timestamp(instant, 0).map(
        |d| Local.offset_from_utc_datetime(&d.naive_utc()).local_minus_utc(),
    )
}

/// The date at instant `now` in `zone`, or in the viewer's zone when there is
/// none.
pub fn date_in(zone: &Option<Tz>, now: i64) -> (r: ZonedDate)
    requires
        -INSTANT_RANGE <= now <= INSTANT_RANGE,
    ensures
        date_of_instant(r, now as int),
{
    match zone {
        Some(tz) => zone_date_at(tz, now),
        None => local_date_at(now),
    }
}

/// The instants at which the clock of `zone` (the viewer's when `None`) shows
/// `secs` seconds into `date`.
fn local_times(zone: &Option<Tz>, date: CalendarDate, secs: u32) -> (r: LocalTimes)
    requires
        date.wf(),
        secs < SECONDS_PER_DAY,
    ensures
        r.all_show(wall_of(date, secs)),
{
    match zone {
        Some(tz) => zone_local_times(tz, date, secs),
        None => local_local_times(date, secs),
    }
}

/// The offset from UTC of `zone` (the viewer's when `None`) at `instant`.
fn offset_at(zone: &Option<Tz>, instant: i64) -> (r: Option<i32>)
    ensures
        r matches Some(o) ==> -SECONDS_PER_DAY < o < SECONDS_PER_DAY,
        -INSTANT_RANGE <= instant <= INSTANT_RANGE ==> r is Some,
{
    match zone {
        Some(tz) => zone_offset_at(tz, instant),
        None => local_offset_at(instant),
    }
}

/// The instant chosen among those at which a clock shows a time: the only
/// one, or the earlier or later of two; `None` when there is none.
pub fn pick_instant(found: LocalTimes, resolve: Resolve) -> (r: Option<i64>)
    ensures
        r == match found {
            LocalTimes::Single(a) => Some(a.timestamp),
            LocalTimes::Ambiguous(a, b) => Some(
                if (resolve == Resolve::Earliest) == (a.timestamp <= b.timestamp) {
                    a.timestamp
                } else {
                    b.timestamp
                },
            ),
            LocalTimes::Missing => None::<i64>,
        },
{
    match found {
        LocalTimes::Single(a) => Some(a.timestamp),
        LocalTimes::Ambiguous(a, b) => {
            let earliest = match resolve {
                Resolve::Earliest => true,
                Resolve::Latest => false,
            };
            if earliest == (a.timestamp <= b.timestamp) {
                Some(a.timestamp)
            } else {
                Some(b.timestamp)
            }
        },
        LocalTimes::Missing => None,
    }
}

/// Searches the day around the wall clock time `wall`, by bisection, for an
/// instant at which the clock of `zone` passes it: one that shows `wall` or
/// later right after one that shows an earlier time (`Earliest`), or one that
/// shows `wall` or earlier right before one that shows a later time (`Latest`).
/// Where the time falls in a gap, that is the end or the start of the gap.
fn search_crossing(zone: &Option<Tz>, wall: i64, resolve: Resolve) -> (r: i64)
    requires
        -WALL_LIMIT < wall < WALL_LIMIT,
    ensures
        wall - SECONDS_PER_DAY <= r <= wall + SECONDS_PER_DAY,
{
    // Every offset is under a day, so the clock shows a time before `wall` at
    // `lo` and after it at `hi`.
    let mut lo: i64 = wall - SECONDS_PER_DAY;
    let mut hi: i64 = wall + SECONDS_PER_DAY;
    while hi - lo > 1
        invariant
            wall - SECONDS_PER_DAY <= lo < hi <= wall + SECONDS_PER_DAY,
            -WALL_LIMIT < wall < WALL_LIMIT,
        decreases hi - lo,
    {
        let mid = lo + (hi - lo) / 2;
        match offset_at(zone, mid) {
            Some(o) => {
                let shown = mid + o as i64;
                let past = match resolve {
                    Resolve::Earliest => shown >= wall,
                    Resolve::Latest => shown > wall,
                };
                if past {
                    hi = mid;
                } else {
                    lo = mid;
                }
            },
            None => {
                break ;
            },
        }
    }
    match resolve {
        Resolve::Earliest => hi,
        Resolve::Latest => lo,
    }
}

/// The instant at which the clock of `timezone` (the viewer's when `None`)
/// shows `secs` seconds into `date`. Where that time occurs twice, `resolve`
/// picks the earlier or the later instant; where it does not occur, the first
/// instant after the gap or the last before it. The result lies within a day
/// of the wall clock time.
pub fn localize_naive_datetime(
    date: CalendarDate,
    secs: u32,
    timezone: &Option<Tz>,
    resolve: Resolve,
) -> (r: i64)
    requires
        date.wf(),
        secs < SECONDS_PER_DAY,
    ensures
        wall_of(date, secs) - SECONDS_PER_DAY <= r <= wall_of(date, secs) + SECONDS_PER_DAY,
        -WALL_LIMIT < wall_of(date, secs) < WALL_LIMIT,
{
    let found = local_times(timezone, date, secs);
    let wall = naive_seconds(date, secs);
    match pick_instant(found, resolve) {
        Some(u) => u,
        None => search_crossing(timezone, wall, resolve),
    }
}

} // verus!
