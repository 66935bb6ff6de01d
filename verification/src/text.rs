//! Character classes and scanning primitives shared by the text parsers.

use vstd::prelude::*;

verus! {

/// Whether `c` has the Unicode `White_Space` property.
pub open spec fn is_space(c: char) -> bool {
    let u = c as u32;
    ||| 0x09 <= u <= 0x0D
    ||| u == 0x20
    ||| u == 0x85
    ||| u == 0xA0
    ||| u == 0x1680
    ||| 0x2000 <= u <= 0x200A
    ||| u == 0x2028
    ||| u == 0x2029
    ||| u == 0x202F
    ||| u == 0x205F
    ||| u == 0x3000
}

/// Whether `c` is one of the ASCII digits `0` to `9`.
pub open spec fn is_digit(c: char) -> bool {
    '0' <= c <= '9'
}

/// The number that the ASCII digit `c` stands for.
pub open spec fn digit_value(c: char) -> int {
    c as u32 - '0' as u32
}

/// The index of the first character at or after `i` that is no white space
/// (the length of `s` if there is none).
pub open spec fn spaces_end(s: Seq<char>, i: int) -> int
    decreases s.len() - i,
{
    if 0 <= i < s.len() && is_space(s[i]) {
        spaces_end(s, i + 1)
    } else {
        i
    }
}

/// The index of the first character at or after `i` that is no ASCII digit
/// (the length of `s` if there is none).
pub open spec fn digits_end(s: Seq<char>, i: int) -> int
    decreases s.len() - i,
{
    if 0 <= i < s.len() && is_digit(s[i]) {
        digits_end(s, i + 1)
    } else {
        i
    }
}

/// The end of the text that starts at `lo` once trailing white space before
/// `hi` is cut off.
pub open spec fn text_end(s: Seq<char>, lo: int, hi: int) -> int
    decreases hi - lo,
{
    if lo < hi <= s.len() && is_space(s[hi - 1]) {
        text_end(s, lo, hi - 1)
    } else {
        hi
    }
}

/// The value of a run of ASCII digits read as a decimal number.
pub open spec fn decimal_value(digits: Seq<char>) -> nat
    decreases digits.len(),
{
    if digits.len() == 0 {
        0
    } else {
        (10 * decimal_value(digits.drop_last()) + digit_value(digits.last())) as nat
    }
}

/// Whether `c` is white space.
pub fn is_space_char(c: char) -> (b: bool)
    ensures
        b == is_space(c),
{
    let u: u32 = c as u32;
    (0x09 <= u && u <= 0x0D) || u == 0x20 || u == 0x85 || u == 0xA0 || u == 0x1680 || (0x2000 <= u
        && u <= 0x200A) || u == 0x2028 || u == 0x2029 || u == 0x202F || u == 0x205F || u == 0x3000
}

/// Whether `c` is an ASCII digit.
pub fn is_digit_char(c: char) -> (b: bool)
    ensures
        b == is_digit(c),
{
    '0' <= c && c <= '9'
}

/// The characters of `s`, in order.
pub fn chars_of(s: &str) -> (v: Vec<char>)
    ensures
        v@ == s@,
{
    let mut v: Vec<char> = Vec::new();
    for c in it: s.chars()
        invariant
            v@ == it.seq().take(it.index()),
    {
        v.push(c);
    }
    v
}

/// Skips white space: the index of the first character of `v` at or after
/// `i` that is no white space.
pub fn skip_spaces(v: &Vec<char>, i: usize) -> (r: usize)
    requires
        i <= v.len(),
    ensures
        r == spaces_end(v@, i as int),
        i <= r <= v.len(),
{
    let mut j: usize = i;
    while j < v.len() && is_space_char(v[j])
        invariant
            i <= j <= v.len(),
            spaces_end(v@, i as int) == spaces_end(v@, j as int),
        decreases v.len() - j,
    {
        j += 1;
    }
    j
}

/// Skips ASCII digits: the index of the first character of `v` at or after
/// `i` that is no digit.
pub fn skip_digits(v: &Vec<char>, i: usize) -> (r: usize)
    requires
        i <= v.len(),
    ensures
        r == digits_end(v@, i as int),
        i <= r <= v.len(),
        forall|k: int| i <= k < r ==> is_digit(#[trigger] v@[k]),
{
    let mut j: usize = i;
    while j < v.len() && is_digit_char(v[j])
        invariant
            i <= j <= v.len(),
            digits_end(v@, i as int) == digits_end(v@, j as int),
            forall|k: int| i <= k < j ==> is_digit(#[trigger] v@[k]),
        decreases v.len() - j,
    {
        j += 1;
    }
    j
}

/// Cuts trailing white space: the end of the text of `v` between `lo` and
/// `hi`.
pub fn trim_end(v: &Vec<char>, lo: usize, hi: usize) -> (r: usize)
    requires
        lo <= hi <= v.len(),
    ensures
        r == text_end(v@, lo as int, hi as int),
        lo <= r <= hi,
{
    let mut j: usize = hi;
    while lo < j && is_space_char(v[j - 1])
        invariant
            lo <= j <= hi <= v.len(),
            text_end(v@, lo as int, hi as int) == text_end(v@, lo as int, j as int),
        decreases j - lo,
    {
        j -= 1;
    }
    j
}

/// The number that the ASCII digit `c` stands for.
pub fn digit_of(c: char) -> (d: u64)
    requires
        is_digit(c),
    ensures
        d == digit_value(c),
        d <= 9,
{
    let u: u32 = c as u32;
    (u - 48) as u64
}

/// The value of the digits of `t` from `lo` up to `hi`, unless it exceeds
/// `limit`.
pub fn bounded_value(t: &Vec<char>, lo: usize, hi: usize, limit: u64) -> (r: Option<u64>)
    requires
        lo <= hi <= t.len(),
        forall|k: int| lo <= k < hi ==> is_digit(#[trigger] t@[k]),
    ensures
        r.is_some() == (decimal_value(t@.subrange(lo as int, hi as int)) <= limit),
        r matches Some(v) ==> v == decimal_value(t@.subrange(lo as int, hi as int)),
{
    let mut acc: u64 = 0;
    let mut over: bool = false;
    let mut i: usize = lo;
    assert(t@.subrange(lo as int, lo as int) =~= Seq::<char>::empty());
    while i < hi
        invariant
            lo <= i <= hi <= t.len(),
            forall|k: int| lo <= k < hi ==> is_digit(#[trigger] t@[k]),
            acc <= limit,
            !over ==> acc == decimal_value(t@.subrange(lo as int, i as int)),
            over ==> decimal_value(t@.subrange(lo as int, i as int)) > limit,
        decreases hi - i,
    {
        let d: u64 = digit_of(t[i]);
        proof {
            let next = t@.subrange(lo as int, i + 1);
            assert(next.drop_last() =~= t@.subrange(lo as int, i as int));
            assert(next.last() == t@[i as int]);
        }
        if !over {
            let v: u128 = 10 * (acc as u128) + d as u128;
            if v > limit as u128 {
                over = true;
            } else {
                acc = v as u64;
            }
        }
        i += 1;
    }
    if over {
        None
    } else {
        Some(acc)
    }
}

/// A copy of the characters of `v` from `lo` up to `hi`.
pub fn copy_range(v: &Vec<char>, lo: usize, hi: usize) -> (out: Vec<char>)
    requires
        lo <= hi <= v.len(),
    ensures
        out@ == v@.subrange(lo as int, hi as int),
{
    let mut out: Vec<char> = Vec::new();
    let mut i: usize = lo;
    while i < hi
        invariant
            lo <= i <= hi <= v.len(),
            out@ == v@.subrange(lo as int, i as int),
        decreases hi - i,
    {
        out.push(v[i]);
        i += 1;
        assert(out@ =~= v@.subrange(lo as int, i as int));
    }
    out
}

/// The text of an optional string.
pub open spec fn opt_text(o: Option<String>) -> Option<Seq<char>> {
    match o {
        Some(s) => Some(s@),
        None => None,
    }
}

/// Whether two texts are the same, character by character.
pub fn same_text(a: &str, b: &str) -> (same: bool)
    ensures
        same == (a@ == b@),
{
    let x = chars_of(a);
    let y = chars_of(b);
    if x.len() != y.len() {
        return false;
    }
    let mut i: usize = 0;
    while i < x.len()
        invariant
            i <= x.len(),
            x@ == a@,
            y@ == b@,
            x.len() == y.len(),
            forall|k: int| 0 <= k < i ==> x@[k] == y@[k],
        decreases x.len() - i,
    {
        if x[i] != y[i] {
            assert(a@[i as int] != b@[i as int]);
            return false;
        }
        i += 1;
    }
    assert(x@ =~= y@);
    true
}

/// A copy of an optional text.
pub fn copy_text(text: &Option<String>) -> (copy: Option<String>)
    ensures
        opt_text(copy) == opt_text(*text),
{
    match text {
        Some(t) => Some(t.clone()),
        None => None,
    }
}

/// The number that a text writes in the way of Rust's integer literals
/// without a suffix: an optional sign and then digits and nothing else, if
/// the number fits `i64`.
pub open spec fn integer_of(t: Seq<char>) -> Option<int> {
    let d0: int = if t.len() > 0 && (t[0] == '+' || t[0] == '-') {
        1
    } else {
        0
    };
    let size = decimal_value(t.subrange(d0, t.len() as int)) as int;
    let value = if t.len() > 0 && t[0] == '-' {
        -size
    } else {
        size
    };
    if d0 < t.len() && digits_end(t, d0) == t.len() && i64::MIN <= value <= i64::MAX {
        Some(value)
    } else {
        None
    }
}

/// Reads an integer: an optional sign and then digits and nothing else.
pub fn parse_integer(t: &Vec<char>) -> (r: Option<i64>)
    ensures
        match integer_of(t@) {
            Some(v) => r == Some(v as i64),
            None => r.is_none(),
        },
{
    let n: usize = t.len();
    let negative: bool = n > 0 && t[0] == '-';
    let d0: usize = if n > 0 && (t[0] == '+' || t[0] == '-') {
        1
    } else {
        0
    };
    if d0 >= n {
        return None;
    }
    let d1: usize = skip_digits(t, d0);
    if d1 != n {
        return None;
    }
    match bounded_value(t, d0, n, 0x8000_0000_0000_0000) {
        None => None,
        Some(size) => {
            if negative {
                Some((-(size as i128)) as i64)
            } else if size > i64::MAX as u64 {
                None
            } else {
                Some(size as i64)
            }
        },
    }
}

} // verus!
