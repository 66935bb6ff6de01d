//! Decimal amounts as exact cents.
//!
//! An amount is written as an optional sign, one or more digits and an
//! optional fraction of one or two digits after `.` or `,`. It is read as a
//! whole number of cents; no floating point takes part.

use vstd::prelude::*;
use crate::text::{
    bounded_value, chars_of, copy_range, decimal_value, digit_of, digit_value, digits_end,
    is_digit, opt_text, skip_digits, skip_spaces, spaces_end, text_end, trim_end,
};

verus! {

/// Why an amount text was rejected.
#[derive(Debug, Clone, Copy, PartialEq, Eq, Structural)]
pub enum AmountError {
    /// No number leads the text, or the number is malformed.
    InvalidAmount,
    /// The number carries a sign where none is allowed.
    SignNotAllowed,
    /// The number of cents does not fit the integer range.
    AmountOverflow,
}

/// Whether `c` is a sign, `+` or `-`.
pub open spec fn is_sign(c: char) -> bool {
    c == '+' || c == '-'
}

/// Whether `c` introduces a fraction, as `.` and `,` do.
pub open spec fn is_separator(c: char) -> bool {
    c == '.' || c == ','
}

/// The largest whole part whose hundredfold still fits `i64`.
pub const WHOLE_LIMIT: u64 = 92_233_720_368_547_758;

/// The cents that one or two fractional digits stand for: a single digit
/// counts tenths.
pub open spec fn fraction_cents(frac: Seq<char>) -> int {
    if frac.len() == 1 {
        10 * digit_value(frac[0])
    } else {
        10 * digit_value(frac[0]) + digit_value(frac[1])
    }
}

/// A magnitude in cents with its sign applied, if the magnitude fits `i64`.
pub open spec fn signed_cents(negative: bool, magnitude: int) -> Result<int, AmountError> {
    if magnitude > i64::MAX {
        Err(AmountError::AmountOverflow)
    } else if negative {
        Ok(-magnitude)
    } else {
        Ok(magnitude)
    }
}

/// The cents that a decimal number stands for. The whole of `t` must be the
/// number: an optional sign, digits, and optionally a separator with one or
/// two more digits.
pub open spec fn decimal_cents(t: Seq<char>) -> Result<int, AmountError> {
    let d0: int = if t.len() > 0 && is_sign(t[0]) {
        1
    } else {
        0
    };
    let d1 = digits_end(t, d0);
    let negative = t.len() > 0 && t[0] == '-';
    let whole = decimal_value(t.subrange(d0, d1)) as int;
    if d1 == d0 {
        Err(AmountError::InvalidAmount)
    } else if d1 == t.len() {
        signed_cents(negative, 100 * whole)
    } else if is_separator(t[d1]) && digits_end(t, d1 + 1) == t.len() && 1 <= t.len() - (d1 + 1)
        <= 2 {
        signed_cents(negative, 100 * whole + fraction_cents(t.subrange(d1 + 1, t.len() as int)))
    } else {
        Err(AmountError::InvalidAmount)
    }
}

/// Where the number that starts at `start` ends: after the sign, the digits
/// and, where a separator is followed by a digit, all the digits after it.
pub open spec fn token_end(s: Seq<char>, start: int) -> int {
    let d0 = if 0 <= start < s.len() && is_sign(s[start]) {
        start + 1
    } else {
        start
    };
    let d1 = digits_end(s, d0);
    if 0 <= d1 && d1 + 1 < s.len() && is_separator(s[d1]) && is_digit(s[d1 + 1]) {
        digits_end(s, d1 + 1)
    } else {
        d1
    }
}

/// The note that follows a number ending at `from`: the rest of the text
/// without the white space around it, if anything is left.
pub open spec fn note_of(s: Seq<char>, from: int) -> Option<Seq<char>> {
    let n0 = spaces_end(s, from);
    let n1 = text_end(s, n0, s.len() as int);
    if n0 < n1 {
        Some(s.subrange(n0, n1))
    } else {
        None
    }
}

/// What an amount text means: the cents of the leading number and the note
/// after it, or the reason why the text is rejected. A sign where none is
/// allowed is reported before anything else; a malformed number before one
/// that is too large.
pub open spec fn amount_and_reason(s: Seq<char>, allow_signed: bool) -> Result<
    (int, Option<Seq<char>>),
    AmountError,
> {
    let a = spaces_end(s, 0);
    if 0 <= a < s.len() && is_sign(s[a]) && !allow_signed {
        Err(AmountError::SignNotAllowed)
    } else {
        let e = token_end(s, a);
        match decimal_cents(s.subrange(a, e)) {
            Ok(c) => Ok((c, note_of(s, e))),
            Err(err) => Err(err),
        }
    }
}

/// The cents of the number that is the whole of `t`.
fn cents_of_chars(t: &Vec<char>) -> (r: Result<i64, AmountError>)
    ensures
        match decimal_cents(t@) {
            Ok(c) => r == Ok::<i64, AmountError>(c as i64) && i64::MIN < c <= i64::MAX,
            Err(e) => r == Err::<i64, AmountError>(e),
        },
{
    let n: usize = t.len();
    let negative: bool = n > 0 && t[0] == '-';
    let d0: usize = if n > 0 && (t[0] == '+' || t[0] == '-') {
        1
    } else {
        0
    };
    let d1: usize = skip_digits(t, d0);
    if d1 == d0 {
        return Err(AmountError::InvalidAmount);
    }
    let mut frac: u64 = 0;
    if d1 < n {
        if !(t[d1] == '.' || t[d1] == ',') {
            return Err(AmountError::InvalidAmount);
        }
        let f1: usize = skip_digits(t, d1 + 1);
        let digits: usize = n - (d1 + 1);
        if f1 != n || digits < 1 || digits > 2 {
            return Err(AmountError::InvalidAmount);
        }
        let ghost f = t@.subrange(d1 + 1, n as int);
        assert(f[0] == t@[d1 + 1]);
        frac = 10 * digit_of(t[d1 + 1]);
        if digits == 2 {
            assert(f[1] == t@[d1 + 2]);
            frac = frac + digit_of(t[d1 + 2]);
        }
        assert(frac == fraction_cents(f));
    }
    match bounded_value(t, d0, d1, WHOLE_LIMIT) {
        None => Err(AmountError::AmountOverflow),
        Some(whole) => {
            let magnitude: u64 = 100 * whole + frac;
            if magnitude > i64::MAX as u64 {
                Err(AmountError::AmountOverflow)
            } else if negative {
                Ok(-(magnitude as i64))
            } else {
                Ok(magnitude as i64)
            }
        },
    }
}

/// Reads a decimal number as cents. The text holds the number and nothing
/// else: `12` is 1200 cents, `12.3` is 1230, `-3.5` is -350.
pub fn decimal_to_cents(s: &str) -> (r: Result<i64, AmountError>)
    ensures
        match decimal_cents(s@) {
            Ok(c) => r == Ok::<i64, AmountError>(c as i64) && i64::MIN < c <= i64::MAX,
            Err(e) => r == Err::<i64, AmountError>(e),
        },
{
    let chars = chars_of(s);
    cents_of_chars(&chars)
}

/// Finds the end of the number that starts at `start`.
fn scan_token(v: &Vec<char>, start: usize) -> (e: usize)
    requires
        start <= v.len(),
    ensures
        e == token_end(v@, start as int),
        start <= e <= v.len(),
{
    let n: usize = v.len();
    let d0: usize = if start < n && (v[start] == '+' || v[start] == '-') {
        start + 1
    } else {
        start
    };
    let d1: usize = skip_digits(v, d0);
    if d1 < n && n - d1 > 1 && (v[d1] == '.' || v[d1] == ',') && '0' <= v[d1 + 1] && v[d1 + 1]
        <= '9' {
        skip_digits(v, d1 + 1)
    } else {
        d1
    }
}

/// Parses `amount [note...]`: the leading number as cents, and the rest of
/// the text, without the white space around it, as the note if any is left.
/// A sign is accepted only where `allow_signed` holds.
pub fn parse_amount_and_reason(input: &str, allow_signed: bool) -> (r: Result<
    (i64, Option<String>),
    AmountError,
>)
    ensures
        match amount_and_reason(input@, allow_signed) {
            Ok((c, note)) => r matches Ok((rc, rn)) && rc == c && opt_text(rn) == note,
            Err(e) => r matches Err(re) && re == e,
        },
{
    let chars = chars_of(input);
    let n: usize = chars.len();
    let a: usize = skip_spaces(&chars, 0);
    if a < n && (chars[a] == '+' || chars[a] == '-') && !allow_signed {
        return Err(AmountError::SignNotAllowed);
    }
    let e: usize = scan_token(&chars, a);
    let token = copy_range(&chars, a, e);
    match cents_of_chars(&token) {
        Err(err) => Err(err),
        Ok(cents) => {
            let n0: usize = skip_spaces(&chars, e);
            let n1: usize = trim_end(&chars, n0, n);
            let note: Option<String> = if n0 < n1 {
                Some(input.substring_char(n0, n1).to_owned())
            } else {
                None
            };
            Ok((cents, note))
        },
    }
}

} // verus!
