use datetime_local::{
    month_length, Component, DateTimeParseError, DateTimeParseErrorKind, Datetime, Day, Hour,
    HourMinuteSecond, Minute, Month, NumberErrorKind, Second, Year, YearMonthDay,
};

fn parse_err(s: &str) -> DateTimeParseError {
    Datetime::from_str(s).unwrap_err()
}

fn assert_error(e: &DateTimeParseError, component: Component, found: &str, kind: DateTimeParseErrorKind) {
    assert_eq!(e.component, component);
    assert_eq!(e.found, found);
    assert_eq!(e.kind, kind);
}

#[test]
fn missing_time_is_value_missing() {
    let e = parse_err("2023-12-18");
    assert_error(&e, Component::Time, "2023-12-18", DateTimeParseErrorKind::ValueMissing);
}

#[test]
fn missing_month_day_and_minute() {
    assert_error(&parse_err("2023"), Component::Month, "2023", DateTimeParseErrorKind::ValueMissing);
    assert_error(&parse_err(""), Component::Month, "", DateTimeParseErrorKind::ValueMissing);
    assert_error(&parse_err("2023-12"), Component::Day, "2023-12", DateTimeParseErrorKind::ValueMissing);
    assert_error(
        &parse_err("2023-12-18T12"),
        Component::Minute,
        "12",
        DateTimeParseErrorKind::ValueMissing,
    );
}

#[test]
fn invalid_number_kinds() {
    assert_error(
        &parse_err("2023--18T12:00"),
        Component::Month,
        "",
        DateTimeParseErrorKind::InvalidNumber(NumberErrorKind::Empty),
    );
    assert_error(
        &parse_err("2023-300-18T12:00"),
        Component::Month,
        "300",
        DateTimeParseErrorKind::InvalidNumber(NumberErrorKind::PosOverflow),
    );
    assert_error(
        &parse_err("2023-+1-18T12:00"),
        Component::Month,
        "+1",
        DateTimeParseErrorKind::InvalidNumber(NumberErrorKind::InvalidDigit),
    );
    assert_error(
        &parse_err("2147483648-01-01T00:00"),
        Component::Year,
        "2147483648",
        DateTimeParseErrorKind::InvalidNumber(NumberErrorKind::PosOverflow),
    );
    assert_error(
        &parse_err("2023-12-18Tx:00"),
        Component::Hour,
        "x",
        DateTimeParseErrorKind::InvalidNumber(NumberErrorKind::InvalidDigit),
    );
    assert_error(
        &parse_err("2023-12-18T12:00:"),
        Component::Second,
        "",
        DateTimeParseErrorKind::InvalidNumber(NumberErrorKind::Empty),
    );
    assert_error(
        &parse_err("2023-12-18T12:00:1e1"),
        Component::Second,
        "1e1",
        DateTimeParseErrorKind::InvalidNumber(NumberErrorKind::InvalidDigit),
    );
}

#[test]
fn year_signs_and_bounds() {
    assert_eq!(Year::from_str("+2023").unwrap().value(), 2023);
    assert_eq!(Year::from_str("-44").unwrap().value(), -44);
    assert_eq!(Year::from_str("2147483647").unwrap().value(), i32::MAX);
    assert_eq!(Year::from_str("-2147483648").unwrap().value(), i32::MIN);
    let e = Year::from_str("-2147483649").unwrap_err();
    assert_error(&e, Component::Year, "-2147483649", DateTimeParseErrorKind::InvalidNumber(NumberErrorKind::NegOverflow));
    let e = Year::from_str("-").unwrap_err();
    assert_error(&e, Component::Year, "-", DateTimeParseErrorKind::InvalidNumber(NumberErrorKind::InvalidDigit));
    let e = Year::from_str("").unwrap_err();
    assert_error(&e, Component::Year, "", DateTimeParseErrorKind::InvalidNumber(NumberErrorKind::Empty));
    assert_eq!(Year::try_from(-5).unwrap().value(), -5);
}

#[test]
fn out_of_range_bounds() {
    assert_error(
        &parse_err("2023-12-32T00:00"),
        Component::Day,
        "32",
        DateTimeParseErrorKind::OutOfRange { min: 1, max: 31 },
    );
    assert_error(
        &parse_err("2023-04-31T00:00"),
        Component::Day,
        "31",
        DateTimeParseErrorKind::OutOfRange { min: 1, max: 30 },
    );
    assert_error(
        &parse_err("2023-02-29T01:01:01"),
        Component::Day,
        "29",
        DateTimeParseErrorKind::OutOfRange { min: 1, max: 28 },
    );
    assert_error(
        &parse_err("2023-00-10T00:00"),
        Component::Month,
        "00",
        DateTimeParseErrorKind::OutOfRange { min: 1, max: 12 },
    );
    assert_error(
        &parse_err("2023-12-18T24:00"),
        Component::Hour,
        "24",
        DateTimeParseErrorKind::OutOfRange { min: 0, max: 23 },
    );
    assert_error(
        &parse_err("2023-12-18T23:60"),
        Component::Minute,
        "60",
        DateTimeParseErrorKind::OutOfRange { min: 0, max: 59 },
    );
    assert_error(
        &parse_err("2023-12-18T23:59:60"),
        Component::Second,
        "60",
        DateTimeParseErrorKind::OutOfRange { min: 0, max: 60 },
    );
    assert_error(
        &parse_err("2023-12-18T23:59:75.5"),
        Component::Second,
        "75.5",
        DateTimeParseErrorKind::OutOfRange { min: 0, max: 60 },
    );
}

#[test]
fn first_failure_is_reported() {
    let e = parse_err("2023-13-45T25:70:80");
    assert_error(&e, Component::Month, "13", DateTimeParseErrorKind::OutOfRange { min: 1, max: 12 });
    let e = parse_err("2023-12-45T25:70:80");
    assert_error(&e, Component::Day, "45", DateTimeParseErrorKind::OutOfRange { min: 1, max: 31 });
    let e = parse_err("2023-12-18T25:70:80");
    assert_error(&e, Component::Hour, "25", DateTimeParseErrorKind::OutOfRange { min: 0, max: 23 });
}

#[test]
fn numeric_constructors_report_decimal_form() {
    assert_error(&Month::try_from(13).unwrap_err(), Component::Month, "13", DateTimeParseErrorKind::OutOfRange { min: 1, max: 12 });
    assert_error(&Month::try_from(0).unwrap_err(), Component::Month, "0", DateTimeParseErrorKind::OutOfRange { min: 1, max: 12 });
    assert_error(&Day::try_from(200).unwrap_err(), Component::Day, "200", DateTimeParseErrorKind::OutOfRange { min: 1, max: 31 });
    assert_error(&Hour::try_from(24).unwrap_err(), Component::Hour, "24", DateTimeParseErrorKind::OutOfRange { min: 0, max: 23 });
    assert_error(&Minute::try_from(255).unwrap_err(), Component::Minute, "255", DateTimeParseErrorKind::OutOfRange { min: 0, max: 59 });
    assert_error(&Second::try_from(60).unwrap_err(), Component::Second, "60", DateTimeParseErrorKind::OutOfRange { min: 0, max: 60 });
    assert_eq!(Day::try_from(31).unwrap().value(), 31);
    assert_eq!(Hour::try_from(0).unwrap().value(), 0);
    assert_eq!(Second::try_from(59).unwrap().whole(), 59);
}

#[test]
fn calendar_check_of_components() {
    let y = |v: i32| Year::try_from(v).unwrap();
    let m = |v: u8| Month::try_from(v).unwrap();
    let d = |v: u8| Day::try_from(v).unwrap();
    let e = YearMonthDay::from_components(y(2023), m(2), d(30)).unwrap_err();
    assert_error(&e, Component::Day, "30", DateTimeParseErrorKind::OutOfRange { min: 1, max: 28 });
    assert!(YearMonthDay::from_components(y(2000), m(2), d(29)).is_ok());
    assert!(YearMonthDay::from_components(y(1900), m(2), d(29)).is_err());
    assert!(YearMonthDay::from_components(y(-4), m(2), d(29)).is_ok());
    assert!(YearMonthDay::from_components(y(-100), m(2), d(29)).is_err());
    assert!(YearMonthDay::from_components(y(0), m(2), d(29)).is_ok());
    let date = YearMonthDay::from_components(y(2024), m(6), d(30)).unwrap();
    assert_eq!(date.year().value(), 2024);
    assert_eq!(date.month().value(), 6);
    assert_eq!(date.day().value(), 30);
}

#[test]
fn month_lengths() {
    let expected = [31u8, 28, 31, 30, 31, 30, 31, 31, 30, 31, 30, 31];
    for (i, &len) in expected.iter().enumerate() {
        let month = Month::try_from(i as u8 + 1).unwrap();
        assert_eq!(month_length(Year::try_from(2023).unwrap(), month), len);
    }
    let feb = Month::try_from(2).unwrap();
    assert_eq!(month_length(Year::try_from(2024).unwrap(), feb), 29);
    assert_eq!(month_length(Year::try_from(2100).unwrap(), feb), 28);
    assert_eq!(month_length(Year::try_from(2400).unwrap(), feb), 29);
    assert_eq!(month_length(Year::try_from(i32::MIN).unwrap(), feb), 29);
    assert_eq!(month_length(Year::try_from(i32::MAX).unwrap(), feb), 28);
}

#[test]
fn extra_segments_are_rejected() {
    assert_error(
        &parse_err("2023-12-18-5T12:00"),
        Component::Day,
        "18-5",
        DateTimeParseErrorKind::InvalidNumber(NumberErrorKind::InvalidDigit),
    );
    assert_error(
        &parse_err("2023-12-18T12:34:56:7"),
        Component::Second,
        "56:7",
        DateTimeParseErrorKind::InvalidNumber(NumberErrorKind::InvalidDigit),
    );
    assert_error(
        &parse_err("2023-12-18T12:34T5"),
        Component::Minute,
        "34T5",
        DateTimeParseErrorKind::InvalidNumber(NumberErrorKind::InvalidDigit),
    );
    assert_error(
        &parse_err("2023-12-18t12:34"),
        Component::Day,
        "18t12:34",
        DateTimeParseErrorKind::InvalidNumber(NumberErrorKind::InvalidDigit),
    );
    assert_error(
        &parse_err(" 2023-12-18T12:34"),
        Component::Year,
        " 2023",
        DateTimeParseErrorKind::InvalidNumber(NumberErrorKind::InvalidDigit),
    );
}

#[test]
fn seconds_default_to_zero() {
    let dt = Datetime::from_str("2023-12-18T12:34").unwrap();
    assert_eq!(dt.time().second().whole(), 0);
    assert!(dt.time().second().fraction().is_empty());
    assert_eq!(dt, Datetime::from_str("2023-12-18T12:34:00").unwrap());
}

#[test]
fn fractional_seconds_are_exact() {
    let s = Second::from_str("12.345").unwrap();
    assert_eq!(s.whole(), 12);
    assert_eq!(s.fraction(), &[3u8, 4, 5][..]);
    let s = Second::from_str("05.500").unwrap();
    assert_eq!(s.whole(), 5);
    assert_eq!(s.fraction(), &[5u8][..]);
    assert_eq!(Second::from_str("56.0").unwrap(), Second::try_from(56).unwrap());
    assert_eq!(Second::from_str("59.999999999999").unwrap().whole(), 59);
    assert_ne!(Second::from_str("1.05").unwrap(), Second::from_str("1.5").unwrap());
    assert_error(&Second::from_str(".5").unwrap_err(), Component::Second, ".5", DateTimeParseErrorKind::InvalidNumber(NumberErrorKind::InvalidDigit));
    assert_error(&Second::from_str("5.").unwrap_err(), Component::Second, "5.", DateTimeParseErrorKind::InvalidNumber(NumberErrorKind::InvalidDigit));
    assert_error(&Second::from_str("1.2.3").unwrap_err(), Component::Second, "1.2.3", DateTimeParseErrorKind::InvalidNumber(NumberErrorKind::InvalidDigit));
    assert_error(&Second::from_str("-1").unwrap_err(), Component::Second, "-1", DateTimeParseErrorKind::InvalidNumber(NumberErrorKind::InvalidDigit));
    assert_error(
        &Second::from_str("99999999999999999999").unwrap_err(),
        Component::Second,
        "99999999999999999999",
        DateTimeParseErrorKind::OutOfRange { min: 0, max: 60 },
    );
}

#[test]
fn leading_zeros_are_accepted() {
    let dt = Datetime::from_str("0001-01-01T00:00:00.000").unwrap();
    assert_eq!(dt.date().year().value(), 1);
    assert_eq!(dt.date().month().value(), 1);
    assert_eq!(dt.time().hour().value(), 0);
    assert_eq!(Month::from_str("007").unwrap().value(), 7);
}

#[test]
fn composite_parsers_alone() {
    let date = YearMonthDay::from_str("2004-2-29").unwrap();
    assert_eq!(date.day().value(), 29);
    let time = HourMinuteSecond::from_str("7:5:9.25").unwrap();
    assert_eq!(time.hour().value(), 7);
    assert_eq!(time.minute().value(), 5);
    assert_eq!(time.second().whole(), 9);
    assert_eq!(time.second().fraction(), &[2u8, 5][..]);
    assert_eq!(time.clone(), time);
}
