//! The six scalar components of a date-time value. Each is built only
//! through a range check, so that a value of the type is always legal.
use crate::error::{error_view, result_view, Component, DateTimeParseError, DateTimeParseErrorKind, ErrorView};
use crate::number::{capped, decimal, lemma_parse_decimal_fraction, decimal_text, parse_decimal, parse_decimal_text, parse_i32, parse_signed, parse_u8, parse_unsigned};
use vstd::prelude::*;

verus! {

/// What reading a year from `s` gives: any `i32`, with an optional sign.
pub open spec fn parse_year(s: Seq<char>) -> Result<int, ErrorView> {
    match parse_signed(s, i32::MIN as int, i32::MAX as int) {
        Ok(v) => Ok(v),
        Err(k) => Err(
            error_view(Component::Year, s, DateTimeParseErrorKind::InvalidNumber(k)),
        ),
    }
}

/// What reading an unsigned small component from `s` gives: its value,
/// where it lies within `min ..= max`.
pub open spec fn parse_in_range(s: Seq<char>, component: Component, min: u8, max: u8) -> Result<
    int,
    ErrorView,
> {
    match parse_unsigned(s, 255) {
        Ok(v) => if min <= v <= max {
            Ok(v)
        } else {
            Err(
                error_view(
                    component,
                    s,
                    DateTimeParseErrorKind::OutOfRange { min: min as i64, max: max as i64 },
                ),
            )
        },
        Err(k) => Err(error_view(component, s, DateTimeParseErrorKind::InvalidNumber(k))),
    }
}

/// What the range check of the number `v` gives; an error shows `v` in
/// decimal.
pub open spec fn check_in_range(v: u8, component: Component, min: u8, max: u8) -> Result<
    int,
    ErrorView,
> {
    if min <= v <= max {
        Ok(v as int)
    } else {
        Err(
            error_view(
                component,
                decimal(v as nat),
                DateTimeParseErrorKind::OutOfRange { min: min as i64, max: max as i64 },
            ),
        )
    }
}

/// A second within its minute, kept exactly: the whole seconds and the
/// decimal digits of the fraction, without trailing zeros.
pub struct SecondView {
    pub whole: int,
    pub frac: Seq<u8>,
}

/// A legal second: below 60, with a fraction of decimal digits that does
/// not end in zero.
pub open spec fn second_ok(s: SecondView) -> bool {
    0 <= s.whole < 60 && (forall|i: int| 0 <= i < s.frac.len() ==> #[trigger] s.frac[i] < 10) && (
    s.frac.len() == 0 || s.frac.last() != 0)
}

/// What reading a second from `s` gives: a decimal below 60.
pub open spec fn parse_second(s: Seq<char>) -> Result<SecondView, ErrorView> {
    match parse_decimal(s) {
        Ok((whole, frac)) => if whole < 60 {
            Ok(SecondView { whole: whole as int, frac })
        } else {
            Err(
                error_view(
                    Component::Second,
                    s,
                    DateTimeParseErrorKind::OutOfRange { min: 0, max: 60 },
                ),
            )
        },
        Err(k) => Err(error_view(Component::Second, s, DateTimeParseErrorKind::InvalidNumber(k))),
    }
}

/// Reads a small component from `s` and checks its range; shared by the
/// components held in a `u8`.
fn read_in_range(s: &str, component: Component, min: u8, max: u8) -> (r: Result<
    u8,
    DateTimeParseError,
>)
    ensures
        parse_in_range(s@, component, min, max) == match r {
            Ok(v) => Ok(v as int),
            Err(e) => Err(e@),
        },
{
    match parse_u8(s) {
        Ok(v) => if min <= v && v <= max {
            Ok(v)
        } else {
            Err(
                DateTimeParseError::new(
                    component,
                    s.to_owned(),
                    DateTimeParseErrorKind::OutOfRange { min: min as i64, max: max as i64 },
                ),
            )
        },
        Err(k) => Err(
            DateTimeParseError::new(
                component,
                s.to_owned(),
                DateTimeParseErrorKind::InvalidNumber(k),
            ),
        ),
    }
}

/// Checks the range of the number `v`; shared by the components held in a
/// `u8`.
fn check_range(v: u8, component: Component, min: u8, max: u8) -> (r: Result<
    u8,
    DateTimeParseError,
>)
    ensures
        check_in_range(v, component, min, max) == match r {
            Ok(x) => Ok(x as int),
            Err(e) => Err(e@),
        },
{
    if min <= v && v <= max {
        Ok(v)
    } else {
        Err(
            DateTimeParseError::new(
                component,
                decimal_text(v),
                DateTimeParseErrorKind::OutOfRange { min: min as i64, max: max as i64 },
            ),
        )
    }
}

/// A calendar year of the proleptic Gregorian calendar; zero and negative
/// years are allowed.
#[derive(Debug, Clone, Copy, PartialEq, Eq, Structural)]
pub struct Year(i32);

impl View for Year {
    type V = int;

    closed spec fn view(&self) -> int {
        self.0 as int
    }
}

impl Year {
    /// Every `i32` is a year.
    pub fn try_from(value: i32) -> (r: Result<Year, DateTimeParseError>)
        ensures
            r matches Ok(y) && y@ == value as int,
    {
        Ok(Year(value))
    }

    /// Reads a year: an `i32` with an optional `+` or `-` sign.
    pub fn from_str(s: &str) -> (r: Result<Year, DateTimeParseError>)
        ensures
            result_view(r) == parse_year(s@),
    {
        match parse_i32(s) {
            Ok(v) => Year::try_from(v),
            Err(k) => Err(
                DateTimeParseError::new(
                    Component::Year,
                    s.to_owned(),
                    DateTimeParseErrorKind::InvalidNumber(k),
                ),
            ),
        }
    }

    pub fn value(&self) -> (r: i32)
        ensures
            r as int == self@,
    {
        self.0
    }
}

/// A month of the year, 1 to 12.
#[derive(Debug, Clone, Copy, PartialEq, Eq, Structural)]
pub struct Month(u8);

impl View for Month {
    type V = int;

    closed spec fn view(&self) -> int {
        self.0 as int
    }
}

impl Month {
    #[verifier::type_invariant]
    spec fn legal(self) -> bool {
        1 <= self.0 <= 12
    }

    /// A month from its number, when it lies within 1 ..= 12.
    pub fn try_from(value: u8) -> (r: Result<Month, DateTimeParseError>)
        ensures
            result_view(r) == check_in_range(value, Component::Month, 1, 12),
    {
        match check_range(value, Component::Month, 1, 12) {
            Ok(v) => Ok(Month(v)),
            Err(e) => Err(e),
        }
    }

    /// Reads a month: decimal digits without a sign, 1 to 12.
    pub fn from_str(s: &str) -> (r: Result<Month, DateTimeParseError>)
        ensures
            result_view(r) == parse_in_range(s@, Component::Month, 1, 12),
    {
        match read_in_range(s, Component::Month, 1, 12) {
            Ok(v) => Ok(Month(v)),
            Err(e) => Err(e),
        }
    }

    pub fn value(&self) -> (r: u8)
        ensures
            r as int == self@,
            1 <= r <= 12,
    {
        proof {
            use_type_invariant(self);
        }
        self.0
    }
}

/// A day of a month, 1 to 31; whether the month has it is checked
/// where the month and year are known.
#[derive(Debug, Clone, Copy, PartialEq, Eq, Structural)]
pub struct Day(u8);

impl View for Day {
    type V = int;

    closed spec fn view(&self) -> int {
        self.0 as int
    }
}

impl Day {
    #[verifier::type_invariant]
    spec fn legal(self) -> bool {
        1 <= self.0 <= 31
    }

    /// A day from its number, when it lies within 1 ..= 31.
    pub fn try_from(value: u8) -> (r: Result<Day, DateTimeParseError>)
        ensures
            result_view(r) == check_in_range(value, Component::Day, 1, 31),
    {
        match check_range(value, Component::Day, 1, 31) {
            Ok(v) => Ok(Day(v)),
            Err(e) => Err(e),
        }
    }

    /// Reads a day: decimal digits without a sign, 1 to 31.
    pub fn from_str(s: &str) -> (r: Result<Day, DateTimeParseError>)
        ensures
            result_view(r) == parse_in_range(s@, Component::Day, 1, 31),
    {
        match read_in_range(s, Component::Day, 1, 31) {
            Ok(v) => Ok(Day(v)),
            Err(e) => Err(e),
        }
    }

    pub fn value(&self) -> (r: u8)
        ensures
            r as int == self@,
            1 <= r <= 31,
    {
        proof {
            use_type_invariant(self);
        }
        self.0
    }
}

/// An hour of the day, 0 to 23.
#[derive(Debug, Clone, Copy, PartialEq, Eq, Structural)]
pub struct Hour(u8);

impl View for Hour {
    type V = int;

    closed spec fn view(&self) -> int {
        self.0 as int
    }
}

impl Hour {
    #[verifier::type_invariant]
    spec fn legal(self) -> bool {
        0 <= self.0 <= 23
    }

    /// An hour from its number, when it lies within 0 ..= 23.
    pub fn try_from(value: u8) -> (r: Result<Hour, DateTimeParseError>)
        ensures
            result_view(r) == check_in_range(value, Component::Hour, 0, 23),
    {
        match check_range(value, Component::Hour, 0, 23) {
            Ok(v) => Ok(Hour(v)),
            Err(e) => Err(e),
        }
    }

    /// Reads an hour: decimal digits without a sign, 0 to 23.
    pub fn from_str(s: &str) -> (r: Result<Hour, DateTimeParseError>)
        ensures
            result_view(r) == parse_in_range(s@, Component::Hour, 0, 23),
    {
        match read_in_range(s, Component::Hour, 0, 23) {
            Ok(v) => Ok(Hour(v)),
            Err(e) => Err(e),
        }
    }

    pub fn value(&self) -> (r: u8)
        ensures
            r as int == self@,
            0 <= r <= 23,
    {
        proof {
            use_type_invariant(self);
        }
        self.0
    }
}

/// A minute of the hour, 0 to 59.
#[derive(Debug, Clone, Copy, PartialEq, Eq, Structural)]
pub struct Minute(u8);

impl View for Minute {
    type V = int;

    closed spec fn view(&self) -> int {
        self.0 as int
    }
}

impl Minute {
    #[verifier::type_invariant]
    spec fn legal(self) -> bool {
        0 <= self.0 <= 59
    }

    /// A minute from its number, when it lies within 0 ..= 59.
    pub fn try_from(value: u8) -> (r: Result<Minute, DateTimeParseError>)
        ensures
            result_view(r) == check_in_range(value, Component::Minute, 0, 59),
    {
        match check_range(value, Component::Minute, 0, 59) {
            Ok(v) => Ok(Minute(v)),
            Err(e) => Err(e),
        }
    }

    /// Reads a minute: decimal digits without a sign, 0 to 59.
    pub fn from_str(s: &str) -> (r: Result<Minute, DateTimeParseError>)
        ensures
            result_view(r) == parse_in_range(s@, Component::Minute, 0, 59),
    {
        match read_in_range(s, Component::Minute, 0, 59) {
            Ok(v) => Ok(Minute(v)),
            Err(e) => Err(e),
        }
    }

    pub fn value(&self) -> (r: u8)
        ensures
            r as int == self@,
            0 <= r <= 59,
    {
        proof {
            use_type_invariant(self);
        }
        self.0
    }
}

/// What building a second from a whole number `v` gives.
pub open spec fn second_from_number(v: u8) -> Result<SecondView, ErrorView> {
    if v < 60 {
        Ok(SecondView { whole: v as int, frac: Seq::empty() })
    } else {
        Err(
            error_view(
                Component::Second,
                decimal(v as nat),
                DateTimeParseErrorKind::OutOfRange { min: 0, max: 60 },
            ),
        )
    }
}

/// A second of the minute, at least 0 and below 60, with an exact decimal
/// fraction.
#[derive(Debug)]
pub struct Second {
    whole: u8,
    frac: Vec<u8>,
}

impl View for Second {
    type V = SecondView;

    closed spec fn view(&self) -> SecondView {
        SecondView { whole: self.whole as int, frac: self.frac@ }
    }
}

impl Second {
    #[verifier::type_invariant]
    spec fn legal(self) -> bool {
        second_ok(self@)
    }

    /// A whole second from its number, when it is below 60.
    pub fn try_from(value: u8) -> (r: Result<Second, DateTimeParseError>)
        ensures
            result_view(r) == second_from_number(value),
    {
        if value < 60 {
            Ok(Second { whole: value, frac: Vec::new() })
        } else {
            Err(
                DateTimeParseError::new(
                    Component::Second,
                    decimal_text(value),
                    DateTimeParseErrorKind::OutOfRange { min: 0, max: 60 },
                ),
            )
        }
    }

    /// Reads a second: digits, optionally followed by a point and more
    /// digits, below 60.
    pub fn from_str(s: &str) -> (r: Result<Second, DateTimeParseError>)
        ensures
            result_view(r) == parse_second(s@),
    {
        proof {
            lemma_parse_decimal_fraction(s@);
        }
        match parse_decimal_text(s) {
            Ok((w, f)) => if w < 60 {
                Ok(Second { whole: w as u8, frac: f })
            } else {
                Err(
                    DateTimeParseError::new(
                        Component::Second,
                        s.to_owned(),
                        DateTimeParseErrorKind::OutOfRange { min: 0, max: 60 },
                    ),
                )
            },
            Err(k) => Err(
                DateTimeParseError::new(
                    Component::Second,
                    s.to_owned(),
                    DateTimeParseErrorKind::InvalidNumber(k),
                ),
            ),
        }
    }

    /// The whole seconds.
    pub fn whole(&self) -> (r: u8)
        ensures
            r as int == self@.whole,
            r < 60,
    {
        proof {
            use_type_invariant(self);
        }
        self.whole
    }

    /// The decimal digits of the fraction, most significant first, without
    /// trailing zeros.
    pub fn fraction(&self) -> (r: &[u8])
        ensures
            r@ == self@.frac,
    {
        self.frac.as_slice()
    }
}

impl PartialEq for Second {
    fn eq(&self, other: &Second) -> (r: bool) {
        if self.whole != other.whole || self.frac.len() != other.frac.len() {
            return false;
        }
        let mut i: usize = 0;
        while i < self.frac.len()
            invariant
                self.frac@.len() == other.frac@.len(),
                i <= self.frac@.len(),
                forall|j: int| 0 <= j < i ==> self.frac@[j] == other.frac@[j],
            decreases self.frac@.len() - i,
        {
            if self.frac[i] != other.frac[i] {
                return false;
            }
            i = i + 1;
        }
        assert(self.frac@ =~= other.frac@);
        true
    }
}

impl vstd::std_specs::cmp::PartialEqSpecImpl for Second {
    open spec fn obeys_eq_spec() -> bool {
        true
    }

    open spec fn eq_spec(&self, other: &Second) -> bool {
        self@ == other@
    }
}

impl Clone for Second {
    fn clone(&self) -> (r: Second)
        ensures
            r@ == self@,
    {
        proof {
            use_type_invariant(self);
        }
        Second { whole: self.whole, frac: vstd::slice::slice_to_vec(self.frac.as_slice()) }
    }
}

impl Eq for Second {

}

} // verus!
