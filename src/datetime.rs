//! Local date-times: a date, `T`, and a time of day.
use crate::date::{missing, parse_date, DateView, YearMonthDay};
use crate::error::{result_view, Component, DateTimeParseError, DateTimeParseErrorKind, ErrorView};
use crate::text::{after, before, split_once};
use crate::time::{parse_time, HourMinuteSecond, TimeView};
use vstd::prelude::*;

verus! {

/// A local date-time, as numbers.
pub struct DatetimeView {
    pub date: DateView,
    pub time: TimeView,
}

/// What reading a date-time `date T time` from `s` gives. The text is cut at
/// its first `T`; the date is read before the time is looked for.
pub open spec fn parse_datetime(s: Seq<char>) -> Result<DatetimeView, ErrorView> {
    match parse_date(before(s, 'T')) {
        Err(e) => Err(e),
        Ok(date) => match after(s, 'T') {
            None => Err(missing(Component::Time, s)),
            Some(time_text) => match parse_time(time_text) {
                Err(e) => Err(e),
                Ok(time) => Ok(DatetimeView { date, time }),
            },
        },
    }
}

/// A local date and time of day, without a time zone.
#[derive(Debug)]
pub struct Datetime {
    date: YearMonthDay,
    time: HourMinuteSecond,
}

impl View for Datetime {
    type V = DatetimeView;

    closed spec fn view(&self) -> DatetimeView {
        DatetimeView { date: self.date@, time: self.time@ }
    }
}

impl Datetime {
    /// The date-time of the given date and time.
    pub fn new(date: YearMonthDay, time: HourMinuteSecond) -> (r: Datetime)
        ensures
            r@ == (DatetimeView { date: date@, time: time@ }),
    {
        Datetime { date, time }
    }

    /// Reads a date-time `year-month-dayThour:minute[:second]`.
    pub fn from_str(s: &str) -> (r: Result<Datetime, DateTimeParseError>)
        ensures
            result_view(r) == parse_datetime(s@),
    {
        let (date_text, time_text) = split_once(s, 'T');
        let date = match YearMonthDay::from_str(date_text) {
            Ok(d) => d,
            Err(e) => {
                return Err(e);
            },
        };
        let time_text = match time_text {
            Some(t) => t,
            None => {
                return Err(
                    DateTimeParseError::new(
                        Component::Time,
                        s.to_owned(),
                        DateTimeParseErrorKind::ValueMissing,
                    ),
                );
            },
        };
        match HourMinuteSecond::from_str(time_text) {
            Ok(time) => Ok(Datetime { date, time }),
            Err(e) => Err(e),
        }
    }

    pub fn date(&self) -> (r: YearMonthDay)
        ensures
            r@ == self@.date,
    {
        self.date
    }

    pub fn time(&self) -> (r: &HourMinuteSecond)
        ensures
            r@ == self@.time,
    {
        &self.time
    }
}

impl core::str::FromStr for Datetime {
    type Err = DateTimeParseError;

    fn from_str(s: &str) -> Result<Datetime, DateTimeParseError> {
        Datetime::from_str(s)
    }
}

impl Clone for Datetime {
    fn clone(&self) -> (r: Datetime)
        ensures
            r@ == self@,
    {
        Datetime { date: self.date, time: self.time.clone() }
    }
}

impl PartialEq for Datetime {
    fn eq(&self, other: &Datetime) -> (r: bool) {
        self.date.year().value() == other.date.year().value() && self.date.month().value()
            == other.date.month().value() && self.date.day().value() == other.date.day().value()
            && self.time.eq(&other.time)
    }
}

impl vstd::std_specs::cmp::PartialEqSpecImpl for Datetime {
    open spec fn obeys_eq_spec() -> bool {
        true
    }

    open spec fn eq_spec(&self, other: &Datetime) -> bool {
        self@ == other@
    }
}

impl Eq for Datetime {

}

} // verus!
