use bday::calendar::CalendarDate;
use bday::occurrence::{find_prev_next_occurences, make_date_safe};

fn date(year: i32, month: u32, day: u32) -> CalendarDate {
    CalendarDate { year, month, day }
}

#[test]
fn test_make_date_safe() {
    // Test a leap year
    assert_eq!(make_date_safe(2020, 2, 29), date(2020, 2, 29));
    // Test a non-leap year
    assert_eq!(make_date_safe(2021, 2, 29), date(2021, 2, 28));
}

#[test]
fn birthday_is_same_day_as_date() {
    assert_eq!(find_prev_next_occurences(6, 2, date(2024, 2, 6)), None);
}

#[test]
fn birthday_already_happened_this_year() {
    assert_eq!(
        find_prev_next_occurences(1, 1, date(2024, 2, 2)),
        Some((date(2024, 1, 1), date(2025, 1, 1)))
    );
}

#[test]
fn birthday_has_not_happened_yet_this_year() {
    assert_eq!(
        find_prev_next_occurences(6, 6, date(2024, 5, 5)),
        Some((date(2023, 6, 6), date(2024, 6, 6)))
    );
}

#[test]
fn birthday_feb_29_in_leap_year() {
    assert_eq!(
        find_prev_next_occurences(29, 2, date(2024, 1, 1)),
        Some((date(2023, 2, 28), date(2024, 2, 29)))
    );
}

#[test]
fn birthday_feb_29_in_common_year() {
    assert_eq!(
        find_prev_next_occurences(29, 2, date(2023, 1, 1)),
        Some((date(2022, 2, 28), date(2023, 2, 28)))
    );
}

#[test]
fn leap_day_falls_back_only_in_common_years() {
    assert_eq!(make_date_safe(2000, 2, 29), date(2000, 2, 29));
    assert_eq!(make_date_safe(1900, 2, 29), date(1900, 2, 28));
    assert_eq!(make_date_safe(2100, 2, 29), date(2100, 2, 28));
    assert_eq!(make_date_safe(2023, 3, 31), date(2023, 3, 31));
}

#[test]
fn occurrences_bracket_the_date() {
    let today = date(2024, 12, 31);
    let (prev, next) = find_prev_next_occurences(1, 1, today).unwrap();
    assert_eq!(prev, date(2024, 1, 1));
    assert_eq!(next, date(2025, 1, 1));
    assert!(prev.is_before(&today));
    assert!(today.is_before(&next));
}

#[test]
fn leap_day_on_feb_28_of_common_year() {
    let today = date(2023, 2, 28);
    assert_eq!(
        find_prev_next_occurences(29, 2, today),
        Some((date(2022, 2, 28), date(2023, 2, 28)))
    );
}

#[test]
fn today_gives_no_occurrences() {
    assert_eq!(find_prev_next_occurences(29, 2, date(2024, 2, 29)), None);
    assert_eq!(find_prev_next_occurences(5, 5, date(2024, 5, 5)), None);
}

#[test]
fn calendar_dates_are_checked() {
    assert_eq!(CalendarDate::from_ymd(2024, 2, 29), Some(date(2024, 2, 29)));
    assert_eq!(CalendarDate::from_ymd(2023, 2, 29), None);
    assert_eq!(CalendarDate::from_ymd(2023, 4, 31), None);
    assert_eq!(CalendarDate::from_ymd(2023, 13, 1), None);
    assert_eq!(CalendarDate::from_ymd(2023, 1, 0), None);
    assert!(!date(2024, 3, 1).is_before(&date(2024, 3, 1)));
    assert!(date(2024, 2, 29).is_before(&date(2024, 3, 1)));
}
