//! The text form of a date-time, and the law that reading it back gives the
//! same value.
use crate::component::{parse_in_range, parse_second, parse_year, second_ok, SecondView};
use crate::date::{checked_date, days_in_month, parse_date, DateView};
use crate::datetime::{parse_datetime, DatetimeView};
use crate::number::{
    all_digits, decimal, digit_char, digit_seq, digit_value, digits_value, is_digit,
    parse_decimal, parse_signed, parse_unsigned, trim_zeros, lemma_parse_decimal_fraction,
};
use crate::text::{after, before, index_of, lemma_index_of_at, lemma_index_of_none};
use crate::time::{parse_time, zero_second, TimeView};
use vstd::prelude::*;

verus! {

/// `a`, the delimiter `c`, then `b`.
pub open spec fn joined(a: Seq<char>, c: char, b: Seq<char>) -> Seq<char> {
    a + seq![c] + b
}

/// The digit characters of the digits `f`.
pub open spec fn fraction_text(f: Seq<u8>) -> Seq<char> {
    f.map_values(|d: u8| digit_char(d as nat))
}

/// A second in decimal: the whole seconds, and a point and the fraction
/// where there is one.
pub open spec fn format_second(s: SecondView) -> Seq<char> {
    if s.frac.len() == 0 {
        decimal(s.whole as nat)
    } else {
        joined(decimal(s.whole as nat), '.', fraction_text(s.frac))
    }
}

/// `year-month-day` in decimal, without padding.
pub open spec fn format_date(d: DateView) -> Seq<char> {
    joined(
        decimal(d.year as nat),
        '-',
        joined(decimal(d.month as nat), '-', decimal(d.day as nat)),
    )
}

/// `hour:minute:second` in decimal, without padding.
pub open spec fn format_time(t: TimeView) -> Seq<char> {
    joined(
        decimal(t.hour as nat),
        ':',
        joined(decimal(t.minute as nat), ':', format_second(t.second)),
    )
}

/// `hour:minute` in decimal, without padding.
pub open spec fn format_time_minutes(t: TimeView) -> Seq<char> {
    joined(decimal(t.hour as nat), ':', decimal(t.minute as nat))
}

/// A date-time in its text form `date T time`.
pub open spec fn format_datetime(v: DatetimeView) -> Seq<char> {
    joined(format_date(v.date), 'T', format_time(v.time))
}

/// A date-time in its text form without the seconds.
pub open spec fn format_datetime_minutes(v: DatetimeView) -> Seq<char> {
    joined(format_date(v.date), 'T', format_time_minutes(v.time))
}

/// A date-time with a year that its text form can carry: the date is in the
/// calendar, the time of day is legal, and the year is not negative.
pub open spec fn writable(v: DatetimeView) -> bool {
    &&& 0 <= v.date.year <= i32::MAX
    &&& 1 <= v.date.month <= 12
    &&& 1 <= v.date.day <= days_in_month(v.date.year, v.date.month)
    &&& 0 <= v.time.hour <= 23
    &&& 0 <= v.time.minute <= 59
    &&& second_ok(v.time.second)
}

pub open spec fn avoids(s: Seq<char>, c: char) -> bool {
    forall|j: int| 0 <= j < s.len() ==> s[j] != c
}

proof fn lemma_split_joined(a: Seq<char>, c: char, b: Seq<char>)
    requires
        avoids(a, c),
    ensures
        index_of(joined(a, c, b), c) == Some(a.len() as int),
        before(joined(a, c, b), c) == a,
        after(joined(a, c, b), c) == Some(b),
{
    let s = joined(a, c, b);
    assert forall|j: int| 0 <= j < a.len() implies s[j] != c by {
        assert(s[j] == a[j]);
    }
    lemma_index_of_at(s, c, a.len() as int);
    assert(s.subrange(0, a.len() as int) =~= a);
    assert(s.subrange(a.len() as int + 1, s.len() as int) =~= b);
}

proof fn lemma_joined_avoids(a: Seq<char>, c: char, b: Seq<char>, x: char)
    requires
        avoids(a, x),
        avoids(b, x),
        c != x,
    ensures
        avoids(joined(a, c, b), x),
{
    let s = joined(a, c, b);
    assert forall|j: int| 0 <= j < s.len() implies s[j] != x by {
        if j < a.len() {
            assert(s[j] == a[j]);
        } else if j > a.len() {
            assert(s[j] == b[j - a.len() - 1]);
        }
    }
}

proof fn lemma_digits_avoid(s: Seq<char>, x: char)
    requires
        all_digits(s),
        !is_digit(x),
    ensures
        avoids(s, x),
{
    assert forall|j: int| 0 <= j < s.len() implies s[j] != x by {
        assert(is_digit(s[j]));
    }
}

proof fn lemma_digit_char(d: nat)
    requires
        d < 10,
    ensures
        is_digit(digit_char(d)),
        digit_value(digit_char(d)) == d,
{
    assert(((d + 48) as u8) as char as int == d + 48);
}

/// The decimal form of `n` is a non-empty string of digits that denotes `n`.
pub proof fn lemma_decimal(n: nat)
    ensures
        decimal(n).len() >= 1,
        all_digits(decimal(n)),
        digits_value(decimal(n)) == n,
    decreases n,
{
    let s = decimal(n);
    lemma_digit_char(n % 10);
    if n < 10 {
        assert(s.drop_last() =~= Seq::<char>::empty());
        assert(digits_value(Seq::<char>::empty()) == 0);
        assert(digits_value(s) == 10 * digits_value(s.drop_last()) + digit_value(s.last()));
    } else {
        lemma_decimal(n / 10);
        let p = decimal(n / 10);
        assert(s.drop_last() =~= p);
        assert forall|i: int| 0 <= i < s.len() implies is_digit(#[trigger] s[i]) by {
            if i < p.len() {
                assert(s[i] == p[i]);
            }
        }
        assert(s.last() == digit_char(n % 10));
        assert(digits_value(s) == 10 * digits_value(p) + digit_value(s.last()));
        assert(n == 10 * (n / 10) + n % 10);
    }
}

proof fn lemma_read_unsigned(n: nat)
    requires
        n <= 255,
    ensures
        parse_unsigned(decimal(n), 255) == Ok::<int, crate::error::NumberErrorKind>(n as int),
{
    lemma_decimal(n);
}

proof fn lemma_read_in_range(n: int, component: crate::error::Component, min: u8, max: u8)
    requires
        min <= n <= max,
    ensures
        parse_in_range(decimal(n as nat), component, min, max) == Ok::<
            int,
            crate::error::ErrorView,
        >(n),
{
    lemma_read_unsigned(n as nat);
}

proof fn lemma_read_second(s: SecondView)
    requires
        second_ok(s),
    ensures
        parse_second(format_second(s)) == Ok::<SecondView, crate::error::ErrorView>(s),
{
    let w = decimal(s.whole as nat);
    lemma_decimal(s.whole as nat);
    let text = format_second(s);
    if s.frac.len() == 0 {
        lemma_digits_avoid(w, '.');
        lemma_index_of_none(w, '.');
        assert(s.frac =~= Seq::<u8>::empty());
    } else {
        let f = fraction_text(s.frac);
        lemma_digits_avoid(w, '.');
        lemma_split_joined(w, '.', f);
        let i = w.len() as int;
        assert(text.subrange(0, i) =~= w);
        assert(text.subrange(i + 1, text.len() as int) =~= f);
        assert forall|k: int| 0 <= k < f.len() implies is_digit(#[trigger] f[k]) by {
            assert(s.frac[k] < 10);
        }
        assert forall|k: int| 0 <= k < f.len() implies #[trigger] digit_seq(f)[k] == s.frac[k] by {
            assert(s.frac[k] < 10);
        }
        assert(digit_seq(f) =~= s.frac);
        assert(trim_zeros(s.frac) == s.frac);
    }
}

proof fn lemma_date_text(d: DateView)
    requires
        d.year >= 0,
    ensures
        avoids(format_date(d), 'T'),
{
    let y = decimal(d.year as nat);
    let m = decimal(d.month as nat);
    let dd = decimal(d.day as nat);
    lemma_decimal(d.year as nat);
    lemma_decimal(d.month as nat);
    lemma_decimal(d.day as nat);
    lemma_digits_avoid(y, 'T');
    lemma_digits_avoid(m, 'T');
    lemma_digits_avoid(dd, 'T');
    lemma_joined_avoids(m, '-', dd, 'T');
    lemma_joined_avoids(y, '-', joined(m, '-', dd), 'T');
}

proof fn lemma_read_date(d: DateView)
    requires
        0 <= d.year <= i32::MAX,
        1 <= d.month <= 12,
        1 <= d.day <= days_in_month(d.year, d.month),
    ensures
        parse_date(format_date(d)) == Ok::<DateView, crate::error::ErrorView>(d),
{
    let y = decimal(d.year as nat);
    let m = decimal(d.month as nat);
    let dd = decimal(d.day as nat);
    lemma_decimal(d.year as nat);
    lemma_decimal(d.month as nat);
    lemma_decimal(d.day as nat);
    lemma_digits_avoid(y, '-');
    lemma_digits_avoid(m, '-');
    lemma_split_joined(y, '-', joined(m, '-', dd));
    lemma_split_joined(m, '-', dd);
    assert(is_digit(y[0]));
    assert(parse_signed(y, i32::MIN as int, i32::MAX as int) == Ok::<
        int,
        crate::error::NumberErrorKind,
    >(d.year));
    assert(parse_year(y) == Ok::<int, crate::error::ErrorView>(d.year));
    lemma_read_in_range(d.month, crate::error::Component::Month, 1, 12);
    lemma_read_in_range(d.day, crate::error::Component::Day, 1, 31);
}

proof fn lemma_read_time(t: TimeView)
    requires
        0 <= t.hour <= 23,
        0 <= t.minute <= 59,
        second_ok(t.second),
    ensures
        parse_time(format_time(t)) == Ok::<TimeView, crate::error::ErrorView>(t),
        t.second == zero_second() ==> parse_time(format_time_minutes(t)) == Ok::<
            TimeView,
            crate::error::ErrorView,
        >(t),
{
    let h = decimal(t.hour as nat);
    let m = decimal(t.minute as nat);
    lemma_decimal(t.hour as nat);
    lemma_decimal(t.minute as nat);
    lemma_digits_avoid(h, ':');
    lemma_digits_avoid(m, ':');
    lemma_split_joined(h, ':', joined(m, ':', format_second(t.second)));
    lemma_split_joined(m, ':', format_second(t.second));
    lemma_read_in_range(t.hour, crate::error::Component::Hour, 0, 23);
    lemma_read_in_range(t.minute, crate::error::Component::Minute, 0, 59);
    lemma_read_second(t.second);
    lemma_split_joined(h, ':', m);
    lemma_index_of_none(m, ':');
}

/// Every value that reading a date-time gives is legal: a date of the
/// calendar and a time of day in range.
pub proof fn lemma_parsed_is_legal(s: Seq<char>)
    ensures
        parse_datetime(s) matches Ok(v) ==> {
            &&& i32::MIN <= v.date.year <= i32::MAX
            &&& 1 <= v.date.month <= 12
            &&& 1 <= v.date.day <= days_in_month(v.date.year, v.date.month)
            &&& 0 <= v.time.hour <= 23
            &&& 0 <= v.time.minute <= 59
            &&& second_ok(v.time.second)
        },
{
    if let Some(t) = after(s, 'T') {
        if let Some(rest) = after(t, ':') {
            if let Some(second_text) = after(rest, ':') {
                lemma_parse_decimal_fraction(second_text);
            }
        }
    }
}

/// Writing a legal date-time with a non-negative year as
/// `year-month-dayThour:minute:second` and reading it back gives the same
/// value; so does writing it without the seconds where the second is zero.
pub proof fn lemma_round_trip(v: DatetimeView)
    requires
        writable(v),
    ensures
        parse_datetime(format_datetime(v)) == Ok::<DatetimeView, crate::error::ErrorView>(v),
        v.time.second == zero_second() ==> parse_datetime(format_datetime_minutes(v)) == Ok::<
            DatetimeView,
            crate::error::ErrorView,
        >(v),
{
    lemma_date_text(v.date);
    lemma_split_joined(format_date(v.date), 'T', format_time(v.time));
    lemma_split_joined(format_date(v.date), 'T', format_time_minutes(v.time));
    lemma_read_date(v.date);
    lemma_read_time(v.time);
}

} // verus!
