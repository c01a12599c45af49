//! Stored birthday records, and the entries derived from them with their
//! previous and next occurrences.

use crate::calendar::{CalendarDate, MAX_YEAR, MIN_YEAR};
use crate::date_spec::BirthdayDate;
use crate::occurrence::{find_prev_next_occurences, occurrences};
use crate::zone::{
    date_in, date_of_instant, known_zone, localize_naive_datetime, parse_zone, wall_of, Resolve,
    ZonedDate, INSTANT_RANGE, SECONDS_PER_DAY,
    WALL_LIMIT,
};
use chrono_tz::Tz;
use vstd::prelude::*;

verus! {

/// The last second of a day: 23:59:59.
pub const END_OF_DAY: u32 = 86399;

/// A birthday record as it is stored.
#[derive(Debug)]
pub struct ConfigEntry {
    pub name: String,
    pub date: BirthdayDate,
    /// Name of the zone of the birthday; the viewer's zone when absent.
    pub timezone: Option<String>,
}

/// A birthday record with its zone resolved and its occurrences computed.
pub struct Entry {
    pub name: String,
    pub date: BirthdayDate,
    /// The zone of the birthday; the viewer's zone when absent.
    pub timezone: Option<Tz>,
    /// The end (23:59:59 in the entry's zone) of the previous anniversary, as
    /// an instant; `None` when the anniversary is today.
    pub prev_occurence: Option<i64>,
    /// The start (00:00:00 in the entry's zone) of the next anniversary, as an
    /// instant; `None` when the anniversary is today.
    pub next_occurence: Option<i64>,
}

/// Why a stored record cannot become an entry.
#[derive(Debug)]
pub enum EntryError {
    /// The zone database does not know the record's zone, given by its name.
    TimezoneParseError(String),
    /// Today's date in the record's zone lies at the end of the calendar's range.
    DateOutOfRange,
}

/// `instant` lies within a day of the wall clock time `wall`.
pub open spec fn near(instant: i64, wall: int) -> bool {
    wall - SECONDS_PER_DAY <= instant <= wall + SECONDS_PER_DAY
}

/// The zone that a stored record names, looked up ignoring case; none when
/// the record names none.
pub fn resolve_timezone(name: &Option<String>) -> (r: Result<Option<Tz>, EntryError>)
    ensures
        r is Ok <==> (name matches Some(n) ==> known_zone(n@)),
        r matches Ok(z) ==> (z is Some <==> name is Some),
        r matches Err(e) ==> (e matches EntryError::TimezoneParseError(s) && *name == Some(s)),
{
    match name {
        Some(n) => match parse_zone(n.as_str()) {
            Some(tz) => Ok(Some(tz)),
            None => Err(EntryError::TimezoneParseError(n.clone())),
        },
        None => Ok(None),
    }
}

impl Entry {
    /// Both occurrences are there or neither is, and they lie in the range
    /// that wall clock times of valid dates can reach.
    pub open spec fn wf(self) -> bool {
        &&& self.date.wf()
        &&& (self.prev_occurence is Some <==> self.next_occurence is Some)
        &&& self.prev_occurence matches Some(u) ==> -WALL_LIMIT - SECONDS_PER_DAY < u
            < WALL_LIMIT + SECONDS_PER_DAY
        &&& self.next_occurence matches Some(u) ==> -WALL_LIMIT - SECONDS_PER_DAY < u
            < WALL_LIMIT + SECONDS_PER_DAY
    }

    /// The entry was made from `record`: same name, date and presence of a
    /// zone, with its occurrences around some date.
    pub open spec fn derived_from(self, record: ConfigEntry) -> bool {
        &&& self.wf()
        &&& self.name == record.name
        &&& self.date == record.date
        &&& (self.timezone is Some <==> record.timezone is Some)
        &&& exists|today: CalendarDate| today.wf() && #[trigger] self.occurs_around(today)
    }

    /// The occurrences are those of the birthday around `today`: none when
    /// `today` is the anniversary, else the end of the previous anniversary
    /// and the start of the next one.
    pub open spec fn occurs_around(self, today: CalendarDate) -> bool {
        match occurrences(self.date.day, self.date.month, today) {
            None => self.prev_occurence is None && self.next_occurence is None,
            Some((prev, next)) => {
                &&& self.prev_occurence matches Some(u) && near(u, wall_of(prev, END_OF_DAY))
                &&& self.next_occurence matches Some(u) && near(u, wall_of(next, 0))
            },
        }
    }

    /// The entry for a birthday whose zone is resolved, when the date in that
    /// zone is `today`; an error when `today` lies at an end of the calendar's
    /// range, where the year before or after it does not exist.
    pub fn with_today(
        name: String,
        date: BirthdayDate,
        timezone: Option<Tz>,
        today: CalendarDate,
    ) -> (r: Result<Entry, EntryError>)
        requires
            date.wf(),
            today.wf(),
        ensures
            built_for(r, name, date, today),
            r matches Ok(e) ==> e.timezone == timezone,
    {
        if today.year <= MIN_YEAR || today.year >= MAX_YEAR {
            return Err(EntryError::DateOutOfRange);
        }
        let (prev_occurence, next_occurence) = match find_prev_next_occurences(
            date.day,
            date.month,
            today,
        ) {
            Some((prev, next)) => {
                let p = localize_naive_datetime(prev, END_OF_DAY, &timezone, Resolve::Latest);
                let n = localize_naive_datetime(next, 0, &timezone, Resolve::Earliest);
                (Some(p), Some(n))
            },
            None => (None, None),
        };
        Ok(Entry { name, date, timezone, prev_occurence, next_occurence })
    }

    /// The entry for a stored record at instant `now`: its zone looked up
    /// (ignoring case), and its occurrences around the date that `now` falls on
    /// in that zone.
    pub fn try_from(config_entry: ConfigEntry, now: i64) -> (r: Result<Entry, EntryError>)
        requires
            config_entry.date.wf(),
            -INSTANT_RANGE <= now <= INSTANT_RANGE,
        ensures
            (r matches Err(EntryError::TimezoneParseError(_))) <==> (
            config_entry.timezone matches Some(n) && !known_zone(n@)),
            r matches Err(EntryError::TimezoneParseError(s)) ==> config_entry.timezone == Some(s),
            !(r matches Err(EntryError::TimezoneParseError(_))) ==> exists|today: ZonedDate|
                date_of_instant(today, now as int) && #[trigger] built_for(
                    r,
                    config_entry.name,
                    config_entry.date,
                    today.date,
                ),
            r matches Ok(e) ==> e.derived_from(config_entry),
    {
        let timezone = match resolve_timezone(&config_entry.timezone) {
            Ok(z) => z,
            Err(e) => {
                return Err(e);
            },
        };
        let today = date_in(&timezone, now);
        let r = Entry::with_today(config_entry.name, config_entry.date, timezone, today.date);
        assert(built_for(r, config_entry.name, config_entry.date, today.date));
        r
    }
}

/// What building an entry for `name` and `date` gives when the date in its
/// zone is `today`: the entry with its occurrences around `today`, or
/// `DateOutOfRange` when `today` lies at an end of the calendar's range.
pub open spec fn built_for(
    r: Result<Entry, EntryError>,
    name: String,
    date: BirthdayDate,
    today: CalendarDate,
) -> bool {
    if MIN_YEAR < today.year < MAX_YEAR {
        &&& r matches Ok(e)
        &&& e.name == name
        &&& e.date == date
        &&& e.wf()
        &&& e.occurs_around(today)
    } else {
        r matches Err(EntryError::DateOutOfRange)
    }
}

} // verus!
