//! Small character and string helpers shared by the protocol modules.

use vstd::prelude::*;
use vstd::string::*;

verus! {

/// Appends one character to a string (`String::push`).
#[verifier::external_body]
pub(crate) fn string_push(s: &mut String, c: char)
    ensures
        final(s)@ == old(s)@.push(c),
{
    s.push(c);
}

/// The characters of a string slice, as a vector.
pub fn str_to_chars(s: &str) -> (res: Vec<char>)
    ensures
        res@ == s@,
{
    let n = s.unicode_len();
    let mut res: Vec<char> = Vec::new();
    let mut i: usize = 0;
    while i < n
        invariant
            n == s@.len(),
            i <= n,
            res@ == s@.subrange(0, i as int),
        decreases n - i,
    {
        res.push(s.get_char(i));
        i = i + 1;
    }
    assert(res@ =~= s@);
    res
}

/// Builds a string from a sequence of characters.
pub fn chars_to_string(v: &[char]) -> (res: String)
    ensures
        res@ == v@,
{
    let mut res = String::new();
    let mut i: usize = 0;
    while i < v.len()
        invariant
            i <= v.len(),
            res@ == v@.subrange(0, i as int),
        decreases v.len() - i,
    {
        string_push(&mut res, v[i]);
        i = i + 1;
    }
    assert(res@ =~= v@);
    res
}


/// Unicode `White_Space` characters (the property `char::is_whitespace` tests).
pub open spec fn is_whitespace_spec(c: char) -> bool {
    let v = c as u32;
    ||| 0x09 <= v <= 0x0d
    ||| v == 0x20
    ||| v == 0x85
    ||| v == 0xa0
    ||| v == 0x1680
    ||| 0x2000 <= v <= 0x200a
    ||| v == 0x2028
    ||| v == 0x2029
    ||| v == 0x202f
    ||| v == 0x205f
    ||| v == 0x3000
}

/// Whether `c` has the Unicode `White_Space` property.
pub fn is_whitespace(c: char) -> (r: bool)
    ensures
        r == is_whitespace_spec(c),
{
    let v = c as u32;
    (0x09 <= v && v <= 0x0d) || v == 0x20 || v == 0x85 || v == 0xa0 || v == 0x1680 || (0x2000
        <= v && v <= 0x200a) || v == 0x2028 || v == 0x2029 || v == 0x202f || v == 0x205f || v
        == 0x3000
}

/// The characters of `s` that are not white space, in order.
pub open spec fn strip_whitespace(s: Seq<char>) -> Seq<char>
    decreases s.len(),
{
    if s.len() == 0 {
        s
    } else if is_whitespace_spec(s.last()) {
        strip_whitespace(s.drop_last())
    } else {
        strip_whitespace(s.drop_last()).push(s.last())
    }
}

/// Removes every white-space character from `s`.
pub fn remove_whitespace(s: &str) -> (res: Vec<char>)
    ensures
        res@ == strip_whitespace(s@),
{
    let chars = str_to_chars(s);
    let mut res: Vec<char> = Vec::new();
    let mut i: usize = 0;
    while i < chars.len()
        invariant
            chars@ == s@,
            i <= chars.len(),
            res@ == strip_whitespace(s@.take(i as int)),
        decreases chars.len() - i,
    {
        assert(s@.take(i + 1).drop_last() =~= s@.take(i as int));
        let c = chars[i];
        if !is_whitespace(c) {
            res.push(c);
        }
        i = i + 1;
    }
    assert(s@.take(chars.len() as int) =~= s@);
    res
}

/// Value of a hexadecimal digit (`0-9`, `a-f`, `A-F`).
pub open spec fn hex_digit_spec(c: char) -> Option<u8> {
    let v = c as u32;
    if 0x30 <= v <= 0x39 {
        Some((v - 0x30) as u8)
    } else if 0x61 <= v <= 0x66 {
        Some((v - 0x61 + 10) as u8)
    } else if 0x41 <= v <= 0x46 {
        Some((v - 0x41 + 10) as u8)
    } else {
        None
    }
}

/// Value of a hexadecimal digit, if `c` is one.
pub fn hex_digit(c: char) -> (r: Option<u8>)
    ensures
        r == hex_digit_spec(c),
{
    let v = c as u32;
    if 0x30 <= v && v <= 0x39 {
        Some((v - 0x30) as u8)
    } else if 0x61 <= v && v <= 0x66 {
        Some((v - 0x61 + 10) as u8)
    } else if 0x41 <= v && v <= 0x46 {
        Some((v - 0x41 + 10) as u8)
    } else {
        None
    }
}

/// The byte that `u8::from_str_radix(&[a, b], 16)` gives for a two-character
/// string: two hex digits, or a `+` sign followed by one.
pub open spec fn radix16_pair_spec(a: char, b: char) -> Option<u8> {
    match (hex_digit_spec(a), hex_digit_spec(b)) {
        (Some(x), Some(y)) => Some((x * 16 + y) as u8),
        (None, Some(y)) => if a == '+' { Some(y) } else { None },
        _ => None,
    }
}

/// Parses a two-character string as a base-16 `u8`.
pub fn radix16_pair(a: char, b: char) -> (r: Option<u8>)
    ensures
        r == radix16_pair_spec(a, b),
{
    match (hex_digit(a), hex_digit(b)) {
        (Some(x), Some(y)) => Some(x * 16 + y),
        (None, Some(y)) => if a == '+' { Some(y) } else { None },
        _ => None,
    }
}

} // verus!
