use bday::calendar::CalendarDate;
use bday::date_spec::{BirthdayDate, DateParseError};

fn bd(day: u32, month: u32, year: Option<i32>) -> BirthdayDate {
    BirthdayDate { day, month, year }
}

#[test]
fn parses_day_and_month() {
    assert_eq!(BirthdayDate::from_str("06/06"), Ok(bd(6, 6, None)));
    assert_eq!(BirthdayDate::from_str("6/6"), Ok(bd(6, 6, None)));
    assert_eq!(BirthdayDate::from_str("29/02"), Ok(bd(29, 2, None)));
}

#[test]
fn parses_day_month_year() {
    assert_eq!(BirthdayDate::from_str("01/01/1990"), Ok(bd(1, 1, Some(1990))));
    assert_eq!(BirthdayDate::from_str("29/02/1992"), Ok(bd(29, 2, Some(1992))));
}

#[test]
fn parses_iso_form() {
    assert_eq!(BirthdayDate::from_str("2000-12-25"), Ok(bd(25, 12, Some(2000))));
    assert_eq!(BirthdayDate::from_str("2000-1-5"), Ok(bd(5, 1, Some(2000))));
}

#[test]
fn rejects_unknown_forms() {
    assert_eq!(BirthdayDate::from_str("06"), Err(DateParseError::InvalidFormat));
    assert_eq!(BirthdayDate::from_str("12-25"), Err(DateParseError::InvalidFormat));
    assert_eq!(BirthdayDate::from_str("1/2/3/4"), Err(DateParseError::InvalidFormat));
    assert_eq!(BirthdayDate::from_str(""), Err(DateParseError::InvalidFormat));
}

#[test]
fn rejects_fields_that_are_not_numbers() {
    assert_eq!(BirthdayDate::from_str("xx/06"), Err(DateParseError::InvalidDay));
    assert_eq!(BirthdayDate::from_str("06/"), Err(DateParseError::InvalidMonth));
    assert_eq!(BirthdayDate::from_str("06/06/abc"), Err(DateParseError::InvalidYear));
    assert_eq!(BirthdayDate::from_str("y-06-06"), Err(DateParseError::InvalidYear));
    assert_eq!(BirthdayDate::from_str("2000-06-d"), Err(DateParseError::InvalidDay));
    assert_eq!(BirthdayDate::from_str("99999999999/06"), Err(DateParseError::InvalidDay));
}

#[test]
fn rejects_dates_that_do_not_exist() {
    assert_eq!(BirthdayDate::from_str("31/04"), Err(DateParseError::InvalidDate));
    assert_eq!(BirthdayDate::from_str("29/02/2001"), Err(DateParseError::InvalidDate));
    assert_eq!(BirthdayDate::from_str("00/01"), Err(DateParseError::InvalidDate));
    assert_eq!(BirthdayDate::from_str("01/13/2000"), Err(DateParseError::InvalidDate));
    assert_eq!(BirthdayDate::from_str("1900-02-29"), Err(DateParseError::InvalidDate));
}

#[test]
fn accepts_signs_as_integer_parsing_does() {
    assert_eq!(BirthdayDate::from_str("+5/+3"), Ok(bd(5, 3, None)));
    assert_eq!(BirthdayDate::from_str("05/03/+2001"), Ok(bd(5, 3, Some(2001))));
}

#[test]
fn formats_with_padding() {
    assert_eq!(bd(6, 6, None).to_string(), "06/06");
    assert_eq!(bd(1, 1, Some(1990)).to_string(), "01/01/1990");
    assert_eq!(bd(25, 12, Some(7)).to_string(), "25/12/7");
    assert_eq!(bd(5, 3, Some(-44)).to_string(), "05/03/-44");
}

#[test]
fn format_then_parse_gives_the_date_back() {
    for d in [
        bd(6, 6, None),
        bd(29, 2, None),
        bd(1, 1, Some(1990)),
        bd(31, 12, Some(0)),
        bd(5, 6, Some(-5)),
        bd(29, 2, Some(-4)),
    ] {
        assert_eq!(BirthdayDate::from_str(&d.to_string()), Ok(d));
    }
}

#[test]
fn parse_normalises_padding() {
    assert_eq!(BirthdayDate::from_str("5/3/2001").unwrap().to_string(), "05/03/2001");
}

#[test]
fn safe_year_uses_leap_probe() {
    assert_eq!(bd(29, 2, None).naive_date_safe_year(), CalendarDate { year: 2000, month: 2, day: 29 });
    assert_eq!(bd(1, 1, Some(1990)).naive_date_safe_year(), CalendarDate { year: 1990, month: 1, day: 1 });
}

#[test]
fn from_calendar_date_keeps_year() {
    let d = CalendarDate { year: 2024, month: 5, day: 5 };
    assert_eq!(BirthdayDate::from(d), bd(5, 5, Some(2024)));
}

#[test]
fn error_messages() {
    assert_eq!(DateParseError::InvalidDate.message(), "Invalid date");
    assert_eq!(DateParseError::InvalidDay.message(), "Invalid day");
}

#[test]
fn first_separator_chooses_the_form() {
    assert_eq!(BirthdayDate::from_str("05/06/-5"), Ok(bd(5, 6, Some(-5))));
    assert_eq!(BirthdayDate::from_str("2000-01/02"), Err(DateParseError::InvalidFormat));
    assert_eq!(BirthdayDate::from_str("01/02-2000"), Err(DateParseError::InvalidMonth));
}
