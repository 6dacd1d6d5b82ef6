//! What a failed parse reports: the component concerned, the text that was
//! offending, and the kind of failure.
use vstd::prelude::*;

verus! {

/// The part of a date-time value that an error concerns.
#[derive(Debug, Clone, Copy, PartialEq, Eq, Structural)]
pub enum Component {
    Year,
    Month,
    Day,
    Hour,
    Minute,
    Second,
    Date,
    Time,
}

/// Why a piece of text is not a number of the expected kind.
#[derive(Debug, Clone, Copy, PartialEq, Eq, Structural)]
pub enum NumberErrorKind {
    /// The text is empty.
    Empty,
    /// The text holds a character that cannot stand where it stands.
    InvalidDigit,
    /// The number is above the largest value of its primitive type.
    PosOverflow,
    /// The number is below the smallest value of its primitive type.
    NegOverflow,
}

/// The kind of a parse failure.
#[derive(Debug, Clone, Copy, PartialEq, Eq, Structural)]
pub enum DateTimeParseErrorKind {
    /// A required component had no text at all.
    ValueMissing,
    /// The text of a component is not a number of the expected primitive type.
    InvalidNumber(NumberErrorKind),
    /// The number lies outside its legal range. The bounds are inclusive,
    /// except for seconds, whose `max` (60) is exclusive.
    OutOfRange { min: i64, max: i64 },
}

/// A parse failure. `found` is the offending text: the text in which a
/// missing component was looked for, the text of a component that is no
/// number, or the text (from a string) or the decimal form (from a number)
/// of a value out of range.
#[derive(Debug, PartialEq, Eq)]
pub struct DateTimeParseError {
    pub component: Component,
    pub found: String,
    pub kind: DateTimeParseErrorKind,
}

/// The mathematical content of a `DateTimeParseError`.
pub struct ErrorView {
    pub component: Component,
    pub found: Seq<char>,
    pub kind: DateTimeParseErrorKind,
}

impl View for DateTimeParseError {
    type V = ErrorView;

    open spec fn view(&self) -> ErrorView {
        ErrorView { component: self.component, found: self.found@, kind: self.kind }
    }
}

/// The error value with the given parts.
pub open spec fn error_view(
    component: Component,
    found: Seq<char>,
    kind: DateTimeParseErrorKind,
) -> ErrorView {
    ErrorView { component, found, kind }
}

/// The view of a result whose error is a `DateTimeParseError`.
pub open spec fn result_view<T: View>(r: Result<T, DateTimeParseError>) -> Result<T::V, ErrorView> {
    match r {
        Ok(v) => Ok(v@),
        Err(e) => Err(e@),
    }
}

impl DateTimeParseError {
    /// An error made of its parts.
    pub fn new(component: Component, found: String, kind: DateTimeParseErrorKind) -> (e: Self)
        ensures
            e@ == error_view(component, found@, kind),
    {
        DateTimeParseError { component, found, kind }
    }
}

impl Clone for DateTimeParseError {
    fn clone(&self) -> (r: DateTimeParseError)
        ensures
            r@ == self@,
    {
        DateTimeParseError { component: self.component, found: self.found.clone(), kind: self.kind }
    }
}

} // verus!
