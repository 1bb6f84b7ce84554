//! Small verified helpers over strings and character sequences.

use vstd::prelude::*;

verus! {

/// Decides equality of two string slices by their character sequences.
pub fn str_eq(a: &str, b: &str) -> (r: bool)
    ensures
        r == (a@ == b@),
{
    let sa = a.to_owned();
    let sb = b.to_owned();
    sa.eq(&sb)
}

/// The characters of a string slice, in order.
pub fn chars_of(s: &str) -> (r: Vec<char>)
    ensures
        r@ == s@,
{
    let n = s.unicode_len();
    let mut out: Vec<char> = Vec::new();
    let mut i: usize = 0;
    while i < n
        invariant
            n == s@.len(),
            i <= n,
            out@ =~= s@.subrange(0, i as int),
        decreases n - i,
    {
        out.push(s.get_char(i));
        proof {
            assert(out@ =~= s@.subrange(0, i + 1));
        }
        i += 1;
    }
    proof {
        assert(s@.subrange(0, n as int) =~= s@);
    }
    out
}

/// Reads the decimal digits of `chars` between `a` and `b` as a number;
/// yields nothing when the range is empty, holds a non-digit, or the number
/// does not fit.
pub(crate) fn parse_i64(chars: &Vec<char>, a: usize, b: usize) -> (r: Option<i64>)
    requires
        a <= b <= chars@.len(),
{
    if a >= b {
        return None;
    }
    let mut acc: i64 = 0;
    let mut i = a;
    while i < b
        invariant
            a <= i <= b,
            b <= chars@.len(),
            acc >= 0,
        decreases b - i,
    {
        let u = chars[i] as u32;
        if u < 48 || u > 57 {
            return None;
        }
        let d = (u - 48) as i64;
        if acc > (i64::MAX - d) / 10 {
            return None;
        }
        acc = acc * 10 + d;
        i += 1;
    }
    Some(acc)
}

/// Whether the name holds a `'.'` character.
pub fn name_has_dot(name: &str) -> (r: bool)
    ensures
        r == name@.contains('.'),
{
    let chars = chars_of(name);
    let n = chars.len();
    let mut i: usize = 0;
    while i < n
        invariant
            n == chars@.len(),
            chars@ == name@,
            i <= n,
            forall|j: int| 0 <= j < i ==> name@[j] != '.',
        decreases n - i,
    {
        if chars[i] == '.' {
            return true;
        }
        i += 1;
    }
    false
}

/// Whether the vector holds a string with these characters.
pub fn contains_string(v: &Vec<String>, s: &str) -> (r: bool)
    ensures
        r == exists|i: int| 0 <= i < v@.len() && (#[trigger] v@[i])@ == s@,
{
    let n = v.len();
    let mut i: usize = 0;
    while i < n
        invariant
            n == v@.len(),
            i <= n,
            forall|j: int| 0 <= j < i ==> (#[trigger] v@[j])@ != s@,
        decreases n - i,
    {
        if str_eq(v[i].as_str(), s) {
            return true;
        }
        i += 1;
    }
    false
}

/// The decimal spelling of a number.
pub(crate) fn usize_to_string(n: usize) -> String {
    if n == 0 {
        return "0".to_owned();
    }
    let mut digits: Vec<&'static str> = Vec::new();
    let mut m = n;
    while m > 0
        invariant
            digits@.len() <= 20,
            m <= n,
        decreases m,
    {
        if digits.len() >= 20 {
            break;
        }
        let d = m % 10;
        digits.push(digit_str(d));
        m = m / 10;
    }
    let mut out = String::new();
    let mut i = digits.len();
    while i > 0
        invariant
            i <= digits@.len(),
        decreases i,
    {
        i = i - 1;
        out.append(digits[i]);
    }
    out
}

/// The digit character for a value below ten.
fn digit_str(d: usize) -> &'static str {
    match d {
        0 => "0",
        1 => "1",
        2 => "2",
        3 => "3",
        4 => "4",
        5 => "5",
        6 => "6",
        7 => "7",
        8 => "8",
        _ => "9",
    }
}

} // verus!
