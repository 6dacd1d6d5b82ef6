use datetime_local::{
    Component, DateTimeParseError, DateTimeParseErrorKind, Datetime, Day, Hour, HourMinuteSecond,
    Minute, Month, Second, Year, YearMonthDay,
};

fn datetime(y: i32, m: u8, d: u8, h: u8, min: u8, sec: u8) -> Datetime {
    Datetime::new(
        YearMonthDay::from_components(
            Year::try_from(y).unwrap(),
            Month::try_from(m).unwrap(),
            Day::try_from(d).unwrap(),
        )
        .unwrap(),
        HourMinuteSecond::new(
            Hour::try_from(h).unwrap(),
            Minute::try_from(min).unwrap(),
            Second::try_from(sec).unwrap(),
        ),
    )
}

#[test]
fn parse_valid_datetime() {
    let datetime_str = "2023-12-18T12:34:56";
    let expected_datetime = datetime(2023, 12, 18, 12, 34, 56);

    let parsed_datetime: Datetime = datetime_str
        .parse()
        .expect("Failed to parse valid Datetime");

    assert_eq!(parsed_datetime, expected_datetime);
    assert_eq!(parsed_datetime.date().year().value(), 2023);
    assert_eq!(parsed_datetime.date().month().value(), 12);
    assert_eq!(parsed_datetime.date().day().value(), 18);
    assert_eq!(parsed_datetime.time().hour().value(), 12);
    assert_eq!(parsed_datetime.time().minute().value(), 34);
    assert_eq!(parsed_datetime.time().second().whole(), 56);
    assert!(parsed_datetime.time().second().fraction().is_empty());
}

#[test]
fn parse_invalid_datetime_missing_time() {
    let datetime_str = "2023-12-18";
    let result: Result<Datetime, _> = datetime_str.parse();

    assert!(result.is_err());
    assert!(matches!(result.unwrap_err(), DateTimeParseError { .. }));
}

#[test]
fn parse_invalid_datetime_invalid_components() {
    let datetime_str = "2023-13-45T25:70:80";
    let result: Result<Datetime, _> = datetime_str.parse();

    assert!(result.is_err());
}

#[test]
fn parse_invalid_datetime_invalid_year() {
    let datetime_str = "anno_domini-12-01T01:01:01";
    let result: Result<Datetime, _> = datetime_str.parse();

    assert!(result.is_err());
    assert!(matches!(
        result.unwrap_err(),
        DateTimeParseError {
            component: Component::Year,
            found,
            kind: DateTimeParseErrorKind::InvalidNumber(_),
        } if found == "anno_domini"
    ));
}

#[test]
fn parse_invalid_datetime_invalid_month() {
    let datetime_str = "2023-15-01T01:01:01";
    let result: Result<Datetime, _> = datetime_str.parse();

    assert!(result.is_err());
    assert!(matches!(
        result.unwrap_err(),
        DateTimeParseError {
            component: Component::Month,
            found,
            kind: DateTimeParseErrorKind::OutOfRange { .. },
        } if found == "15"
    ));
}

#[test]
fn parse_invalid_datetime_february_29_nonleap() {
    let datetime_str = "2023-02-29T01:01:01";
    let result: Result<Datetime, _> = datetime_str.parse();

    assert!(result.is_err());
    assert!(matches!(
        result.unwrap_err(),
        DateTimeParseError {
            component: Component::Day,
            found,
            kind: DateTimeParseErrorKind::OutOfRange { .. },
        } if found == "29"
    ));
}

#[test]
fn parse_valid_datetime_february_29_leap() {
    let datetime_str = "2004-02-29T01:01:01";
    let result: Result<Datetime, _> = datetime_str.parse();

    assert!(result.is_ok());
}
