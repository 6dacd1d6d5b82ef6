//! Reading numbers from text: unsigned and signed integers, and unsigned
//! decimals with a fractional part kept digit by digit.
use crate::error::NumberErrorKind;
use crate::text::{chars_of, find_char, index_of, lemma_index_of};
use vstd::prelude::*;
use vstd::string::{StrSliceExecFns, StringExecFns};

verus! {

/// Where the running value of a digit string stops growing: above every
/// bound that is checked against it.
pub const CAP: u64 = 4294967296;

pub open spec fn is_digit(c: char) -> bool {
    '0' <= c && c <= '9'
}

pub open spec fn digit_value(c: char) -> int {
    c as int - '0' as int
}

pub open spec fn all_digits(s: Seq<char>) -> bool {
    forall|i: int| 0 <= i < s.len() ==> is_digit(#[trigger] s[i])
}

/// The number that the decimal digits `s` denote.
pub open spec fn digits_value(s: Seq<char>) -> nat
    decreases s.len(),
{
    if s.len() == 0 {
        0
    } else {
        (10 * digits_value(s.drop_last()) + digit_value(s.last())) as nat
    }
}

/// `n`, or `CAP` where `n` is larger.
pub open spec fn capped(n: nat) -> nat {
    if n < CAP {
        n
    } else {
        CAP as nat
    }
}

/// The character of the digit `d` (0 to 9).
pub open spec fn digit_char(d: nat) -> char {
    ((d + 48) as u8) as char
}

/// The decimal form of `n`: no sign and no leading zero.
pub open spec fn decimal(n: nat) -> Seq<char>
    decreases n,
{
    if n < 10 {
        seq![digit_char(n)]
    } else {
        decimal(n / 10).push(digit_char(n % 10))
    }
}

/// An integer without a sign, of at most `max`.
pub open spec fn parse_unsigned(s: Seq<char>, max: int) -> Result<int, NumberErrorKind> {
    if s.len() == 0 {
        Err(NumberErrorKind::Empty)
    } else if !all_digits(s) {
        Err(NumberErrorKind::InvalidDigit)
    } else if digits_value(s) > max {
        Err(NumberErrorKind::PosOverflow)
    } else {
        Ok(digits_value(s) as int)
    }
}

/// An integer with an optional `+` or `-` sign, within `min ..= max`.
pub open spec fn parse_signed(s: Seq<char>, min: int, max: int) -> Result<
    int,
    NumberErrorKind,
> {
    if s.len() == 0 {
        Err(NumberErrorKind::Empty)
    } else {
        let negative = s[0] == '-';
        let body = if s[0] == '-' || s[0] == '+' {
            s.drop_first()
        } else {
            s
        };
        if body.len() == 0 || !all_digits(body) {
            Err(NumberErrorKind::InvalidDigit)
        } else if negative {
            if -digits_value(body) < min {
                Err(NumberErrorKind::NegOverflow)
            } else {
                Ok(-digits_value(body))
            }
        } else if digits_value(body) > max {
            Err(NumberErrorKind::PosOverflow)
        } else {
            Ok(digits_value(body) as int)
        }
    }
}

/// The values of the digit characters `s`.
pub open spec fn digit_seq(s: Seq<char>) -> Seq<u8> {
    s.map_values(|c: char| digit_value(c) as u8)
}

/// `s` without its trailing zeros.
pub open spec fn trim_zeros(s: Seq<u8>) -> Seq<u8>
    decreases s.len(),
{
    if s.len() > 0 && s.last() == 0 {
        trim_zeros(s.drop_last())
    } else {
        s
    }
}

/// An unsigned decimal: digits, then optionally a point and more digits. The
/// result is the whole part and the digits of the fractional part, without
/// trailing zeros.
pub open spec fn parse_decimal(s: Seq<char>) -> Result<(nat, Seq<u8>), NumberErrorKind> {
    if s.len() == 0 {
        Err(NumberErrorKind::Empty)
    } else {
        match index_of(s, '.') {
            None => if all_digits(s) {
                Ok((digits_value(s), Seq::empty()))
            } else {
                Err(NumberErrorKind::InvalidDigit)
            },
            Some(i) => {
                let whole = s.subrange(0, i);
                let frac = s.subrange(i + 1, s.len() as int);
                if whole.len() == 0 || frac.len() == 0 || !all_digits(whole) || !all_digits(
                    frac,
                ) {
                    Err(NumberErrorKind::InvalidDigit)
                } else {
                    Ok((digits_value(whole), trim_zeros(digit_seq(frac))))
                }
            },
        }
    }
}

/// Reads the digits `v[lo..hi]`: their value, capped, or `None` where one of
/// them is no digit.
fn read_digits(v: &Vec<char>, lo: usize, hi: usize) -> (r: Option<u64>)
    requires
        lo <= hi <= v@.len(),
    ensures
        match r {
            Some(n) => all_digits(v@.subrange(lo as int, hi as int)) && n == capped(
                digits_value(v@.subrange(lo as int, hi as int)),
            ),
            None => !all_digits(v@.subrange(lo as int, hi as int)),
        },
{
    let mut acc: u64 = 0;
    let mut i: usize = lo;
    while i < hi
        invariant
            lo <= i <= hi <= v@.len(),
            all_digits(v@.subrange(lo as int, i as int)),
            acc == capped(digits_value(v@.subrange(lo as int, i as int))),
        decreases hi - i,
    {
        let c = v[i];
        if !('0' <= c && c <= '9') {
            assert(v@.subrange(lo as int, hi as int)[i - lo] == c);
            return None;
        }
        let ghost prev = v@.subrange(lo as int, i as int);
        let ghost next = v@.subrange(lo as int, i + 1);
        assert(next.drop_last() =~= prev);
        assert(next.last() == c);
        let d = (c as u32 - '0' as u32) as u64;
        let t = acc * 10 + d;
        acc = if t > CAP {
            CAP
        } else {
            t
        };
        assert(all_digits(next)) by {
            assert forall|k: int| 0 <= k < next.len() implies is_digit(#[trigger] next[k]) by {
                if k < prev.len() {
                    assert(next[k] == prev[k]);
                }
            }
        }
        i = i + 1;
    }
    Some(acc)
}

/// Reads an integer without a sign, of at most 255.
pub fn parse_u8(s: &str) -> (r: Result<u8, NumberErrorKind>)
    ensures
        parse_unsigned(s@, 255) == match r {
            Ok(v) => Ok(v as int),
            Err(k) => Err(k),
        },
{
    let v = chars_of(s);
    if v.len() == 0 {
        return Err(NumberErrorKind::Empty);
    }
    assert(v@.subrange(0, v@.len() as int) =~= s@);
    match read_digits(&v, 0, v.len()) {
        None => Err(NumberErrorKind::InvalidDigit),
        Some(n) => if n > 255 {
            Err(NumberErrorKind::PosOverflow)
        } else {
            Ok(n as u8)
        },
    }
}

/// Reads an integer with an optional sign, within the range of `i32`.
pub fn parse_i32(s: &str) -> (r: Result<i32, NumberErrorKind>)
    ensures
        parse_signed(s@, i32::MIN as int, i32::MAX as int) == match r {
            Ok(v) => Ok(v as int),
            Err(k) => Err(k),
        },
{
    let v = chars_of(s);
    if v.len() == 0 {
        return Err(NumberErrorKind::Empty);
    }
    let negative = v[0] == '-';
    let start: usize = if v[0] == '-' || v[0] == '+' {
        1
    } else {
        0
    };
    assert(v@.subrange(start as int, v@.len() as int) =~= if start == 1 {
        s@.drop_first()
    } else {
        s@
    });
    if start == v.len() {
        return Err(NumberErrorKind::InvalidDigit);
    }
    match read_digits(&v, start, v.len()) {
        None => Err(NumberErrorKind::InvalidDigit),
        Some(n) => if negative {
            if n > 2147483648 {
                Err(NumberErrorKind::NegOverflow)
            } else {
                Ok((0 - n as i64) as i32)
            }
        } else if n > 2147483647 {
            Err(NumberErrorKind::PosOverflow)
        } else {
            Ok(n as i32)
        },
    }
}

/// The digit values of `v[lo..hi]`, without trailing zeros.
fn fraction_digits(v: &Vec<char>, lo: usize, hi: usize) -> (r: Vec<u8>)
    requires
        lo <= hi <= v@.len(),
        all_digits(v@.subrange(lo as int, hi as int)),
    ensures
        r@ == trim_zeros(digit_seq(v@.subrange(lo as int, hi as int))),
{
    let ghost full = digit_seq(v@.subrange(lo as int, hi as int));
    let mut end: usize = hi;
    while end > lo && v[end - 1] == '0'
        invariant
            lo <= end <= hi <= v@.len(),
            trim_zeros(digit_seq(v@.subrange(lo as int, end as int))) == trim_zeros(full),
        decreases end,
    {
        let ghost cur = digit_seq(v@.subrange(lo as int, end as int));
        assert(digit_seq(v@.subrange(lo as int, end - 1)) =~= cur.drop_last());
        end = end - 1;
    }
    let ghost kept = digit_seq(v@.subrange(lo as int, end as int));
    let mut r: Vec<u8> = Vec::new();
    let mut i: usize = lo;
    while i < end
        invariant
            lo <= i <= end <= hi <= v@.len(),
            all_digits(v@.subrange(lo as int, hi as int)),
            r@ == digit_seq(v@.subrange(lo as int, i as int)),
        decreases end - i,
    {
        assert(v@.subrange(lo as int, hi as int)[i - lo] == v@[i as int]);
        let d = (v[i] as u32 - '0' as u32) as u8;
        r.push(d);
        i = i + 1;
        assert(r@ =~= digit_seq(v@.subrange(lo as int, i as int)));
    }
    assert(kept.len() == 0 || kept.last() != 0);
    r
}

/// Reads an unsigned decimal: its whole part, capped, and the digits of its
/// fractional part without trailing zeros.
pub fn parse_decimal_text(s: &str) -> (r: Result<(u64, Vec<u8>), NumberErrorKind>)
    ensures
        match r {
            Ok((w, f)) => parse_decimal(s@) matches Ok((whole, frac)) && w == capped(whole)
                && f@ == frac,
            Err(k) => parse_decimal(s@) == Err::<(nat, Seq<u8>), _>(k),
        },
{
    let v = chars_of(s);
    if v.len() == 0 {
        return Err(NumberErrorKind::Empty);
    }
    proof {
        lemma_index_of(v@, '.');
    }
    match find_char(&v, '.') {
        None => {
            assert(v@.subrange(0, v@.len() as int) =~= s@);
            match read_digits(&v, 0, v.len()) {
                None => Err(NumberErrorKind::InvalidDigit),
                Some(w) => Ok((w, Vec::new())),
            }
        },
        Some(i) => {
            if i == 0 || i + 1 == v.len() {
                return Err(NumberErrorKind::InvalidDigit);
            }
            match read_digits(&v, 0, i) {
                None => Err(NumberErrorKind::InvalidDigit),
                Some(w) => match read_digits(&v, i + 1, v.len()) {
                    None => Err(NumberErrorKind::InvalidDigit),
                    Some(_) => Ok((w, fraction_digits(&v, i + 1, v.len()))),
                },
            }
        },
    }
}

/// The decimal form of `n`.
pub fn decimal_text(n: u8) -> (r: String)
    ensures
        r@ == decimal(n as nat),
{
    let digits = "0123456789";
    proof {
        reveal_strlit("0123456789");
    }
    let mut r = String::new();
    if n >= 100 {
        let d = (n / 100) as usize;
        r.append(digits.substring_char(d, d + 1));
    }
    if n >= 10 {
        let d = (n / 10 % 10) as usize;
        r.append(digits.substring_char(d, d + 1));
    }
    let d = (n % 10) as usize;
    r.append(digits.substring_char(d, d + 1));
    proof {
        let k = n as nat;
        if k >= 100 {
            assert(decimal(k / 100) =~= seq![digit_char(k / 100)]);
            assert(decimal(k / 10) =~= seq![digit_char(k / 100), digit_char((k / 10) % 10)]);
        } else if k >= 10 {
            assert(decimal(k / 10) =~= seq![digit_char(k / 10)]);
        }
    }
    assert(r@ =~= decimal(n as nat));
    r
}

/// `trim_zeros` keeps a prefix that does not end in zero.
pub proof fn lemma_trim_zeros(s: Seq<u8>)
    ensures
        trim_zeros(s).len() <= s.len(),
        trim_zeros(s) =~= s.subrange(0, trim_zeros(s).len() as int),
        trim_zeros(s).len() == 0 || trim_zeros(s).last() != 0,
    decreases s.len(),
{
    if s.len() > 0 && s.last() == 0 {
        lemma_trim_zeros(s.drop_last());
    }
}

/// The fraction that `parse_decimal` gives is made of decimal digits and
/// does not end in zero.
pub proof fn lemma_parse_decimal_fraction(s: Seq<char>)
    ensures
        parse_decimal(s) matches Ok((w, f)) ==> (forall|i: int| 0 <= i < f.len() ==> #[trigger] f[i]
            < 10) && (f.len() == 0 || f.last() != 0),
{
    if let Some(i) = index_of(s, '.') {
        let frac = s.subrange(i + 1, s.len() as int);
        let d = digit_seq(frac);
        lemma_trim_zeros(d);
        if all_digits(frac) {
            assert forall|k: int| 0 <= k < trim_zeros(d).len() implies #[trigger] trim_zeros(d)[k]
                < 10 by {
                assert(trim_zeros(d)[k] == d[k]);
                assert(is_digit(frac[k]));
            }
        }
    }
}

} // verus!
