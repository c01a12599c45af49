use bday::calendar::CalendarDate;
use bday::config::{entries_from_config, Config};
use bday::date_spec::BirthdayDate;
use bday::entry::{ConfigEntry, Entry, EntryError};
use bday::present::{age_label, build_rows, select_entries, sort_entries, until_label};

const DAY: i64 = 86400;

fn entry(name: &str, next: Option<i64>) -> Entry {
    Entry {
        name: name.to_string(),
        date: BirthdayDate { day: 1, month: 1, year: None },
        timezone: None,
        prev_occurence: next.map(|n| n - 365 * DAY),
        next_occurence: next,
    }
}

fn names(v: &[Entry]) -> Vec<String> {
    v.iter().map(|e| e.name.clone()).collect()
}

fn date(year: i32, month: u32, day: u32) -> CalendarDate {
    CalendarDate { year, month, day }
}

fn bd(day: u32, month: u32, year: Option<i32>) -> BirthdayDate {
    BirthdayDate { day, month, year }
}

#[test]
fn today_first_then_soonest_then_name() {
    let v = vec![
        entry("Zed", Some(500)),
        entry("Bob", Some(100)),
        entry("Fay", None),
        entry("Amy", Some(500)),
        entry("Eve", None),
    ];
    let sorted = sort_entries(v);
    assert_eq!(names(&sorted), vec!["Eve", "Fay", "Bob", "Amy", "Zed"]);
}

#[test]
fn limit_keeps_the_first() {
    let v = vec![entry("C", Some(300)), entry("A", Some(100)), entry("B", Some(200))];
    assert_eq!(names(&select_entries(v, Some(2))), vec!["A", "B"]);
    let w = vec![entry("C", Some(300)), entry("A", Some(100))];
    assert_eq!(names(&select_entries(w, Some(5))), vec!["A", "C"]);
    let u = vec![entry("C", Some(300)), entry("A", Some(100))];
    assert_eq!(names(&select_entries(u, None)), vec!["A", "C"]);
    let z = vec![entry("C", Some(300))];
    assert!(select_entries(z, Some(0)).is_empty());
}

#[test]
fn empty_listing() {
    assert!(sort_entries(Vec::new()).is_empty());
    assert!(build_rows(Vec::new(), None, 0).is_empty());
}

#[test]
fn age_column() {
    assert_eq!(age_label(Some(1990), Some(2025)), "34 \u{2192} 35");
    assert_eq!(age_label(Some(1992), Some(2023)), "30 \u{2192} 31");
    assert_eq!(age_label(None, Some(2025)), "?");
    assert_eq!(age_label(Some(2030), Some(2025)), "-6 \u{2192} -5");
}

#[test]
fn until_column() {
    assert_eq!(until_label(None, 0), "Today!");
    assert_eq!(until_label(Some(32 * DAY), 0), "in a month");
    assert_eq!(until_label(Some(DAY + 241 * DAY), DAY), "in 8 months");
    assert_eq!(until_label(Some(0), 3 * DAY), "3 days ago");
    assert_eq!(until_label(Some(5), 0), "now");
}

// 2024-05-05 00:00:00 UTC.
const MAY_5_2024: i64 = 1714867200;

#[test]
fn scenario_upcoming_birthday_without_year() {
    let e = Entry::with_today("Alice".to_string(), bd(6, 6, None), None, date(2024, 5, 5)).unwrap();
    let next = e.next_occurence.unwrap();
    assert!((next - (MAY_5_2024 + 32 * DAY)).abs() <= DAY);
    let rows = build_rows(vec![e], None, MAY_5_2024 + 12 * 3600);
    assert_eq!(rows.len(), 1);
    assert_eq!(rows[0].index, 1);
    assert_eq!(rows[0].name, "Alice");
    assert_eq!(rows[0].date, "06 June");
    assert_eq!(rows[0].age, "?");
    assert_eq!(rows[0].until, "in a month");
}

#[test]
fn scenario_past_birthday_with_year() {
    let e = Entry::with_today("Bob".to_string(), bd(1, 1, Some(1990)), None, date(2024, 5, 5)).unwrap();
    let rows = build_rows(vec![e], None, MAY_5_2024 + 12 * 3600);
    assert_eq!(rows[0].date, "01 January");
    assert_eq!(rows[0].age, "34 \u{2192} 35");
    assert_eq!(rows[0].until, "in 8 months");
}

#[test]
fn scenario_leap_day_in_common_year() {
    let e = Entry::with_today("Eve".to_string(), bd(29, 2, Some(1992)), None, date(2023, 1, 1)).unwrap();
    // 2023-02-28 00:00:00 UTC, give or take the viewer's offset.
    let next = e.next_occurence.unwrap();
    assert!((next - 1677542400).abs() < DAY);
    // 2023-01-01 12:00 UTC.
    let rows = build_rows(vec![e], None, 1672574400);
    assert_eq!(rows[0].date, "29 February");
    assert_eq!(rows[0].age, "30 \u{2192} 31");
}

#[test]
fn scenario_birthday_today() {
    let e = Entry::with_today("Fay".to_string(), bd(5, 5, Some(2000)), None, date(2024, 5, 5)).unwrap();
    assert_eq!(e.prev_occurence, None);
    assert_eq!(e.next_occurence, None);
    let rows = build_rows(vec![e], None, MAY_5_2024 + 12 * 3600);
    assert_eq!(rows[0].until, "Today!");
    assert_eq!(rows[0].age, "23 \u{2192} 24");
}

#[test]
fn scenario_add_then_list() {
    let mut config = Config::default();
    assert!(config.birthdays.is_empty());
    let date = BirthdayDate::from_str("2000-12-25").unwrap();
    config.add_entry(ConfigEntry { name: "Carol".to_string(), date, timezone: None });
    let entries = match entries_from_config(config, MAY_5_2024) {
        Ok(v) => v,
        Err(_) => panic!("entry refused"),
    };
    let rows = build_rows(entries, None, MAY_5_2024);
    assert_eq!(rows.len(), 1);
    assert_eq!(rows[0].name, "Carol");
    assert_eq!(rows[0].date, "25 December");
}

#[test]
fn unknown_zone_is_refused() {
    let mut config = Config::default();
    config.add_entry(ConfigEntry {
        name: "Dan".to_string(),
        date: bd(1, 2, None),
        timezone: Some("Nowhere/Town".to_string()),
    });
    match entries_from_config(config, MAY_5_2024) {
        Err(EntryError::TimezoneParseError(name)) => assert_eq!(name, "Nowhere/Town"),
        _ => panic!("unknown zone accepted"),
    }
}

#[test]
fn known_zone_in_any_case_is_accepted() {
    let stored = ConfigEntry {
        name: "Ann".to_string(),
        date: bd(15, 6, None),
        timezone: Some("pacific/auckland".to_string()),
    };
    let e = match Entry::try_from(stored, MAY_5_2024) {
        Ok(e) => e,
        Err(_) => panic!("entry refused"),
    };
    assert_eq!(e.name, "Ann");
    assert!(e.timezone.is_some());
    assert_eq!(e.prev_occurence.is_some(), e.next_occurence.is_some());
}

#[test]
fn scenario_zone_boundary() {
    let tz = match bday::entry::resolve_timezone(&Some("Pacific/Auckland".to_string())) {
        Ok(z) => z,
        Err(_) => panic!("unknown zone"),
    };
    // The day before the birthday in Auckland.
    let e = Entry::with_today("Gus".to_string(), bd(15, 6, None), tz, date(2024, 6, 14)).unwrap();
    // 2024-06-15 00:00 in Auckland is 2024-06-14 12:00 UTC.
    assert_eq!(e.next_occurence, Some(1718366400));
    // 2023-06-15 23:59:59 in Auckland is 2023-06-15 11:59:59 UTC.
    assert_eq!(e.prev_occurence, Some(1686830399));
}

#[test]
fn empty_file_gives_no_entries() {
    match entries_from_config(Config::default(), MAY_5_2024) {
        Ok(v) => assert!(v.is_empty()),
        Err(_) => panic!("empty file refused"),
    }
}

#[test]
fn today_at_the_end_of_the_range_is_refused() {
    let r = Entry::with_today("Max".to_string(), bd(1, 1, None), None, date(262142, 6, 1));
    assert!(matches!(r, Err(EntryError::DateOutOfRange)));
    let r = Entry::with_today("Min".to_string(), bd(1, 1, None), None, date(-262143, 6, 1));
    assert!(matches!(r, Err(EntryError::DateOutOfRange)));
}

#[test]
fn scenario_zone_boundary_is_today_in_the_entry_zone() {
    let tz = match bday::entry::resolve_timezone(&Some("Pacific/Auckland".to_string())) {
        Ok(z) => z,
        Err(_) => panic!("unknown zone"),
    };
    // At 2024-06-14 18:00 in Los Angeles it is already 2024-06-15 in Auckland.
    let e = Entry::with_today("Gus".to_string(), bd(15, 6, None), tz, date(2024, 6, 15)).unwrap();
    assert_eq!(e.prev_occurence, None);
    assert_eq!(e.next_occurence, None);
}

fn stored(name: &str, day: u32, month: u32, zone: Option<&str>) -> ConfigEntry {
    ConfigEntry { name: name.to_string(), date: bd(day, month, None), timezone: zone.map(|z| z.to_string()) }
}

// 2024-06-15 01:00 UTC: 18:00 on 2024-06-14 in Los Angeles, 13:00 on
// 2024-06-15 in Auckland.
const JUNE_15_2024_0100_UTC: i64 = 1718413200;

#[test]
fn scenario_zone_boundary_uses_the_entry_zone_date() {
    let e = Entry::try_from(stored("Gus", 15, 6, Some("Pacific/Auckland")), JUNE_15_2024_0100_UTC).unwrap();
    assert_eq!(e.prev_occurence, None);
    assert_eq!(e.next_occurence, None);
    let e = Entry::try_from(stored("Lou", 15, 6, Some("America/Los_Angeles")), JUNE_15_2024_0100_UTC).unwrap();
    // 2024-06-15 00:00 PDT is 07:00 UTC.
    assert_eq!(e.next_occurence, Some(1718434800));
    // 2023-06-15 23:59:59 PDT is 2023-06-16 06:59:59 UTC.
    assert_eq!(e.prev_occurence, Some(1686898799));
}

#[test]
fn instants_before_1970_are_accepted() {
    // 1969-01-01 00:00 UTC.
    let e = Entry::try_from(stored("Old", 1, 6, Some("UTC")), -31536000).unwrap();
    // 1969-06-01 00:00 UTC.
    assert_eq!(e.next_occurence, Some(-18489600));
}
