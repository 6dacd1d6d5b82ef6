//! Calendar dates: a year, a month and a day that the month has.
use crate::component::{parse_in_range, parse_year, Day, Month, Year};
use crate::error::{error_view, result_view, Component, DateTimeParseError, DateTimeParseErrorKind, ErrorView};
use crate::number::{decimal, decimal_text};
use crate::text::{after, before, split_once};
use vstd::arithmetic::div_mod::lemma_mod_multiples_vanish;
use vstd::prelude::*;

verus! {

/// The leap-year rule of the proleptic Gregorian calendar.
pub open spec fn is_leap_year(year: int) -> bool {
    year % 4 == 0 && (year % 100 != 0 || year % 400 == 0)
}

/// The number of days of `month` (1 to 12) in `year`.
pub open spec fn days_in_month(year: int, month: int) -> int {
    if month == 2 {
        if is_leap_year(year) {
            29
        } else {
            28
        }
    } else if month == 4 || month == 6 || month == 9 || month == 11 {
        30
    } else {
        31
    }
}

/// A calendar date, as numbers.
pub struct DateView {
    pub year: int,
    pub month: int,
    pub day: int,
}

/// The error for a component that has no text, looked for in `s`.
pub open spec fn missing(component: Component, s: Seq<char>) -> ErrorView {
    error_view(component, s, DateTimeParseErrorKind::ValueMissing)
}

/// The joint check of a date whose parts are each in range; an error shows
/// the day as `day_text`.
pub open spec fn checked_date(year: int, month: int, day: int, day_text: Seq<char>) -> Result<
    DateView,
    ErrorView,
> {
    if day <= days_in_month(year, month) {
        Ok(DateView { year, month, day })
    } else {
        Err(
            error_view(
                Component::Day,
                day_text,
                DateTimeParseErrorKind::OutOfRange {
                    min: 1,
                    max: days_in_month(year, month) as i64,
                },
            ),
        )
    }
}

/// What reading a date `year-month-day` from `s` gives. The text is cut at
/// its first two `-`; whatever follows the second one is the day's text, so
/// that a further `-` makes the day no number.
pub open spec fn parse_date(s: Seq<char>) -> Result<DateView, ErrorView> {
    match after(s, '-') {
        None => Err(missing(Component::Month, s)),
        Some(rest) => match after(rest, '-') {
            None => Err(missing(Component::Day, s)),
            Some(day_text) => match parse_year(before(s, '-')) {
                Err(e) => Err(e),
                Ok(y) => match parse_in_range(before(rest, '-'), Component::Month, 1, 12) {
                    Err(e) => Err(e),
                    Ok(m) => match parse_in_range(day_text, Component::Day, 1, 31) {
                        Err(e) => Err(e),
                        Ok(d) => checked_date(y, m, d, day_text),
                    },
                },
            },
        },
    }
}

/// The number of days of `month` in `year`.
pub fn month_length(year: Year, month: Month) -> (r: u8)
    ensures
        r as int == days_in_month(year@, month@),
{
    let m = month.value();
    if m == 2 {
        // Shifting by a multiple of 400 makes the year non-negative and
        // keeps its remainders by 4, 100 and 400.
        let y = year.value() as i64 + 2147484000;
        proof {
            let x = year@;
            lemma_mod_multiples_vanish(536871000, x, 4);
            lemma_mod_multiples_vanish(21474840, x, 100);
            lemma_mod_multiples_vanish(5368710, x, 400);
        }
        if y % 4 == 0 && (y % 100 != 0 || y % 400 == 0) {
            29
        } else {
            28
        }
    } else if m == 4 || m == 6 || m == 9 || m == 11 {
        30
    } else {
        31
    }
}

/// A date of the proleptic Gregorian calendar.
#[derive(Debug, Clone, Copy, PartialEq, Eq, Structural)]
pub struct YearMonthDay {
    year: Year,
    month: Month,
    day: Day,
}

impl View for YearMonthDay {
    type V = DateView;

    closed spec fn view(&self) -> DateView {
        DateView { year: self.year@, month: self.month@, day: self.day@ }
    }
}

impl YearMonthDay {
    #[verifier::type_invariant]
    spec fn legal(self) -> bool {
        self.day@ <= days_in_month(self.year@, self.month@)
    }

    /// The date of the given parts, where the month has that day.
    pub fn from_components(year: Year, month: Month, day: Day) -> (r: Result<
        YearMonthDay,
        DateTimeParseError,
    >)
        ensures
            result_view(r) == checked_date(year@, month@, day@, decimal(day@ as nat)),
    {
        let max = month_length(year, month);
        let d = day.value();
        if d <= max {
            Ok(YearMonthDay { year, month, day })
        } else {
            Err(
                DateTimeParseError::new(
                    Component::Day,
                    decimal_text(d),
                    DateTimeParseErrorKind::OutOfRange { min: 1, max: max as i64 },
                ),
            )
        }
    }

    /// Reads a date `year-month-day`.
    pub fn from_str(s: &str) -> (r: Result<YearMonthDay, DateTimeParseError>)
        ensures
            result_view(r) == parse_date(s@),
    {
        let (year_text, rest) = split_once(s, '-');
        let rest = match rest {
            Some(t) => t,
            None => {
                return Err(
                    DateTimeParseError::new(
                        Component::Month,
                        s.to_owned(),
                        DateTimeParseErrorKind::ValueMissing,
                    ),
                );
            },
        };
        let (month_text, day_text) = split_once(rest, '-');
        let day_text = match day_text {
            Some(t) => t,
            None => {
                return Err(
                    DateTimeParseError::new(
                        Component::Day,
                        s.to_owned(),
                        DateTimeParseErrorKind::ValueMissing,
                    ),
                );
            },
        };
        let year = match Year::from_str(year_text) {
            Ok(y) => y,
            Err(e) => {
                return Err(e);
            },
        };
        let month = match Month::from_str(month_text) {
            Ok(m) => m,
            Err(e) => {
                return Err(e);
            },
        };
        let day = match Day::from_str(day_text) {
            Ok(d) => d,
            Err(e) => {
                return Err(e);
            },
        };
        let max = month_length(year, month);
        if day.value() <= max {
            Ok(YearMonthDay { year, month, day })
        } else {
            Err(
                DateTimeParseError::new(
                    Component::Day,
                    day_text.to_owned(),
                    DateTimeParseErrorKind::OutOfRange { min: 1, max: max as i64 },
                ),
            )
        }
    }

    pub fn year(&self) -> (r: Year)
        ensures
            r@ == self@.year,
    {
        self.year
    }

    pub fn month(&self) -> (r: Month)
        ensures
            r@ == self@.month,
    {
        self.month
    }

    /// The day, which the month has in that year.
    pub fn day(&self) -> (r: Day)
        ensures
            r@ == self@.day,
            r@ <= days_in_month(self@.year, self@.month),
    {
        proof {
            use_type_invariant(self);
        }
        self.day
    }
}

} // verus!
