//! Parsing of HTML `datetime-local` values (`YYYY-MM-DD` `T` `HH:MM[:SS[.fff]]`)
//! into validated, strongly typed components.
mod component;
mod date;
mod datetime;
mod error;
mod text_form;
mod number;
mod text;
mod time;

pub use component::{
    check_in_range, parse_in_range, parse_second, parse_year, second_from_number, second_ok, Day,
    Hour, Minute, Month, Second, SecondView, Year,
};
pub use date::{
    checked_date, days_in_month, is_leap_year, missing, month_length, parse_date, DateView,
    YearMonthDay,
};
pub use datetime::{parse_datetime, Datetime, DatetimeView};
pub use error::{
    error_view, result_view, Component, DateTimeParseError, DateTimeParseErrorKind, ErrorView,
    NumberErrorKind,
};
pub use text_form::{
    avoids, format_date, format_datetime, format_datetime_minutes, format_second, format_time,
    format_time_minutes, fraction_text, joined, lemma_decimal, lemma_parsed_is_legal, lemma_round_trip,
    writable,
};
pub use number::{
    all_digits, capped, decimal, digit_char, digit_seq, digit_value, digits_value, is_digit,
    parse_decimal, parse_signed, parse_unsigned, trim_zeros, CAP,
};
pub use text::{after, before, index_of};
pub use time::{parse_time, zero_second, HourMinuteSecond, TimeView};
