//! Times of day: an hour, a minute and a second.
use crate::component::{parse_in_range, parse_second, Hour, Minute, Second, SecondView};
use crate::date::missing;
use crate::error::{result_view, Component, DateTimeParseError, DateTimeParseErrorKind, ErrorView};
use crate::text::{after, before, split_once};
use vstd::prelude::*;

verus! {

/// A time of day, as numbers.
pub struct TimeView {
    pub hour: int,
    pub minute: int,
    pub second: SecondView,
}

/// The second that stands where the text gives none.
pub open spec fn zero_second() -> SecondView {
    SecondView { whole: 0, frac: Seq::empty() }
}

/// What reading a time `hour:minute[:second]` from `s` gives. The text is
/// cut at its first two `:`; whatever follows the second one is the
/// second's text, and without it the second is zero.
pub open spec fn parse_time(s: Seq<char>) -> Result<TimeView, ErrorView> {
    match after(s, ':') {
        None => Err(missing(Component::Minute, s)),
        Some(rest) => match parse_in_range(before(s, ':'), Component::Hour, 0, 23) {
            Err(e) => Err(e),
            Ok(h) => match parse_in_range(before(rest, ':'), Component::Minute, 0, 59) {
                Err(e) => Err(e),
                Ok(m) => match after(rest, ':') {
                    None => Ok(TimeView { hour: h, minute: m, second: zero_second() }),
                    Some(second_text) => match parse_second(second_text) {
                        Err(e) => Err(e),
                        Ok(sec) => Ok(TimeView { hour: h, minute: m, second: sec }),
                    },
                },
            },
        },
    }
}

/// A time of day.
#[derive(Debug)]
pub struct HourMinuteSecond {
    hour: Hour,
    minute: Minute,
    second: Second,
}

impl View for HourMinuteSecond {
    type V = TimeView;

    closed spec fn view(&self) -> TimeView {
        TimeView { hour: self.hour@, minute: self.minute@, second: self.second@ }
    }
}

impl HourMinuteSecond {
    /// The time of the given parts; every combination is a time.
    pub fn new(hour: Hour, minute: Minute, second: Second) -> (r: HourMinuteSecond)
        ensures
            r@ == (TimeView { hour: hour@, minute: minute@, second: second@ }),
    {
        HourMinuteSecond { hour, minute, second }
    }

    /// Reads a time `hour:minute[:second]`.
    pub fn from_str(s: &str) -> (r: Result<HourMinuteSecond, DateTimeParseError>)
        ensures
            result_view(r) == parse_time(s@),
    {
        let (hour_text, rest) = split_once(s, ':');
        let rest = match rest {
            Some(t) => t,
            None => {
                return Err(
                    DateTimeParseError::new(
                        Component::Minute,
                        s.to_owned(),
                        DateTimeParseErrorKind::ValueMissing,
                    ),
                );
            },
        };
        let (minute_text, second_text) = split_once(rest, ':');
        let hour = match Hour::from_str(hour_text) {
            Ok(h) => h,
            Err(e) => {
                return Err(e);
            },
        };
        let minute = match Minute::from_str(minute_text) {
            Ok(m) => m,
            Err(e) => {
                return Err(e);
            },
        };
        let second = match second_text {
            None => match Second::try_from(0) {
                Ok(z) => z,
                Err(e) => {
                    return Err(e);
                },
            },
            Some(t) => match Second::from_str(t) {
                Ok(z) => z,
                Err(e) => {
                    return Err(e);
                },
            },
        };
        Ok(HourMinuteSecond { hour, minute, second })
    }

    pub fn hour(&self) -> (r: Hour)
        ensures
            r@ == self@.hour,
    {
        self.hour
    }

    pub fn minute(&self) -> (r: Minute)
        ensures
            r@ == self@.minute,
    {
        self.minute
    }

    pub fn second(&self) -> (r: &Second)
        ensures
            r@ == self@.second,
    {
        &self.second
    }
}

impl Clone for HourMinuteSecond {
    fn clone(&self) -> (r: HourMinuteSecond)
        ensures
            r@ == self@,
    {
        HourMinuteSecond { hour: self.hour, minute: self.minute, second: self.second.clone() }
    }
}

impl PartialEq for HourMinuteSecond {
    fn eq(&self, other: &HourMinuteSecond) -> (r: bool) {
        self.hour.value() == other.hour.value() && self.minute.value() == other.minute.value()
            && self.second.eq(&other.second)
    }
}

impl vstd::std_specs::cmp::PartialEqSpecImpl for HourMinuteSecond {
    open spec fn obeys_eq_spec() -> bool {
        true
    }

    open spec fn eq_spec(&self, other: &HourMinuteSecond) -> bool {
        self@ == other@
    }
}

impl Eq for HourMinuteSecond {

}

} // verus!
