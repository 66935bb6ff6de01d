//! The pieces of text that amounts, reasons and users are shown with.

use vstd::prelude::*;
use vstd::string::StringExecFns;
use crate::ledger::magnitude;

verus! {

/// The whole currency units of an amount: the cents divided by a hundred,
/// rounded towards zero.
pub open spec fn major_units(cents: int) -> int {
    if cents >= 0 {
        cents / 100
    } else {
        -((-cents) / 100)
    }
}

/// The character that writes the digit `d`.
pub open spec fn digit_char(d: int) -> char {
    ('0' as u32 + d) as char
}

/// The two digits that write the cents left over after the whole units.
pub open spec fn minor_digits(cents: int) -> Seq<char> {
    let rest = magnitude(cents) % 100;
    seq![digit_char(rest / 10), digit_char(rest % 10)]
}

/// The line that shows a reason, or nothing where there is none.
pub open spec fn reason_line(reason: Option<Seq<char>>) -> Seq<char> {
    match reason {
        Some(r) => "Reason: "@ + r + "\n"@,
        None => Seq::empty(),
    }
}

/// The name a user is shown by: the user name behind an `@` where there is
/// one, the first name where there is not.
pub open spec fn shown_name(username: Option<Seq<char>>, first_name: Seq<char>) -> Seq<char> {
    match username {
        Some(u) => "@"@ + u,
        None => first_name,
    }
}

/// The whole currency units of `cents`, rounded towards zero.
pub fn cents_to_major(cents: i64) -> (major: i64)
    ensures
        major == major_units(cents as int),
{
    if cents >= 0 {
        cents / 100
    } else {
        let size: i128 = -(cents as i128);
        (-(size / 100)) as i64
    }
}

/// The text of one digit.
fn digit_text(d: u64) -> (s: &'static str)
    requires
        d <= 9,
    ensures
        s@ == seq![digit_char(d as int)],
{
    proof {
        reveal_strlit("0");
        reveal_strlit("1");
        reveal_strlit("2");
        reveal_strlit("3");
        reveal_strlit("4");
        reveal_strlit("5");
        reveal_strlit("6");
        reveal_strlit("7");
        reveal_strlit("8");
        reveal_strlit("9");
    }
    let s: &'static str = match d {
        0 => "0",
        1 => "1",
        2 => "2",
        3 => "3",
        4 => "4",
        5 => "5",
        6 => "6",
        7 => "7",
        8 => "8",
        _ => "9",
    };
    assert(s@ =~= seq![digit_char(d as int)]);
    s
}

/// The cents of `cents` beyond the whole units, sign dropped, as two
/// digits.
pub fn cents_to_minor(cents: i64) -> (minor: String)
    ensures
        minor@ == minor_digits(cents as int),
{
    let wide: i128 = cents as i128;
    let size: i128 = if wide < 0 {
        -wide
    } else {
        wide
    };
    let rest: u64 = (size % 100) as u64;
    let mut out = String::from_str(digit_text(rest / 10));
    out.append(digit_text(rest % 10));
    assert(out@ =~= minor_digits(cents as int));
    out
}

/// The line that shows `reason`: `Reason: ` and the reason on a line of
/// its own, or the empty text where there is no reason.
pub fn reason_prefix(reason: &Option<String>) -> (line: String)
    ensures
        line@ == reason_line(
            match *reason {
                Some(r) => Some(r@),
                None => None,
            },
        ),
{
    match reason {
        Some(r) => {
            let mut out = String::from_str("Reason: ");
            out.append(r.as_str());
            out.append("\n");
            out
        },
        None => String::new(),
    }
}

/// The name to show a user by.
pub fn display_name(username: &Option<String>, first_name: &str) -> (name: String)
    ensures
        name@ == shown_name(
            match *username {
                Some(u) => Some(u@),
                None => None,
            },
            first_name@,
        ),
{
    match username {
        Some(u) => {
            let mut out = String::from_str("@");
            out.append(u.as_str());
            out
        },
        None => first_name.to_owned(),
    }
}

} // verus!
