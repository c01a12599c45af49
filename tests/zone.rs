use bday::calendar::CalendarDate;
use bday::entry::{resolve_timezone, EntryError};
use bday::zone::{localize_naive_datetime, pick_instant, LocalTimes, Resolve, ZonedInstant};
use chrono_tz::Tz;

fn zone(name: &str) -> Option<Tz> {
    match resolve_timezone(&Some(name.to_string())) {
        Ok(z) => z,
        Err(_) => panic!("unknown zone"),
    }
}

fn date(year: i32, month: u32, day: u32) -> CalendarDate {
    CalendarDate { year, month, day }
}

#[test]
fn zone_names_ignore_case() {
    assert_eq!(zone("Europe/Paris"), Some(Tz::Europe__Paris));
    assert_eq!(zone("europe/paris"), Some(Tz::Europe__Paris));
    assert_eq!(zone("PACIFIC/AUCKLAND"), Some(Tz::Pacific__Auckland));
    assert!(matches!(resolve_timezone(&None), Ok(None)));
    assert!(matches!(
        resolve_timezone(&Some("Mars/Olympus_Mons".to_string())),
        Err(EntryError::TimezoneParseError(_))
    ));
}

#[test]
fn start_and_end_of_day_in_auckland() {
    let tz = zone("Pacific/Auckland");
    // 2024-06-15 00:00 at +12:00 is 2024-06-14 12:00 UTC.
    assert_eq!(localize_naive_datetime(date(2024, 6, 15), 0, &tz, Resolve::Earliest), 1718366400);
    // 2024-06-14 23:59:59 at +12:00 is 2024-06-14 11:59:59 UTC.
    assert_eq!(localize_naive_datetime(date(2024, 6, 14), 86399, &tz, Resolve::Latest), 1718366399);
}

#[test]
fn midnight_in_a_gap_moves_to_the_end_of_the_gap() {
    // Sao Paulo skipped from 00:00 to 01:00 on 2018-11-04 (03:00 UTC).
    let tz = zone("America/Sao_Paulo");
    assert_eq!(localize_naive_datetime(date(2018, 11, 4), 0, &tz, Resolve::Earliest), 1541300400);
    // Havana skipped from 00:00 to 01:00 on 2023-03-12 (05:00 UTC).
    let havana = zone("America/Havana");
    assert_eq!(localize_naive_datetime(date(2023, 3, 12), 0, &havana, Resolve::Earliest), 1678597200);
    assert_eq!(localize_naive_datetime(date(2023, 3, 12), 1800, &havana, Resolve::Latest), 1678597199);
}

#[test]
fn repeated_midnight_picks_earlier_or_later() {
    // Havana repeated 00:00 to 01:00 on 2023-11-05.
    let tz = zone("America/Havana");
    assert_eq!(localize_naive_datetime(date(2023, 11, 5), 0, &tz, Resolve::Earliest), 1699156800);
    assert_eq!(localize_naive_datetime(date(2023, 11, 5), 0, &tz, Resolve::Latest), 1699160400);
    assert_eq!(localize_naive_datetime(date(2023, 11, 4), 86399, &tz, Resolve::Latest), 1699156799);
}

#[test]
fn picking_among_candidates() {
    let a = ZonedInstant { timestamp: 100, offset: -3600 };
    let b = ZonedInstant { timestamp: 3700, offset: -7200 };
    assert_eq!(pick_instant(LocalTimes::Single(a), Resolve::Latest), Some(100));
    assert_eq!(pick_instant(LocalTimes::Ambiguous(a, b), Resolve::Earliest), Some(100));
    assert_eq!(pick_instant(LocalTimes::Ambiguous(b, a), Resolve::Earliest), Some(100));
    assert_eq!(pick_instant(LocalTimes::Ambiguous(a, b), Resolve::Latest), Some(3700));
    assert_eq!(pick_instant(LocalTimes::Missing, Resolve::Latest), None);
}
