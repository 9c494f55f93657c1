//! Matching device replies against byte templates.
//!
//! A template is a string of two-character tokens, white space ignored:
//! a pair of hex digits must match one reply byte; `%?` skips one byte;
//! `%b`/`%B`, `%w`/`%W`, `%d` and `%q` capture 1, 2, 4 and 8 bytes;
//! `%x`/`%s` capture a field behind a big-endian 16-bit length, `%z` one
//! behind an 8-bit length; `%*` captures the rest, and `%#` captures the
//! rest without consuming it, so that the tokens after it still see those
//! bytes. The endianness markers `<` and `>` may stand right after `%` and
//! are ignored. The whole reply must be consumed.

use vstd::prelude::*;
use crate::error::NetMDError;
use crate::text::{hex_digit, hex_digit_spec, is_whitespace, is_whitespace_spec, str_to_chars};

verus! {

/// Characters that may appear in a template besides white space.
pub open spec fn template_char(c: char) -> bool {
    let v = c as u32;
    ||| 0x61 <= v <= 0x7a
    ||| 0x41 <= v <= 0x5a
    ||| 0x30 <= v <= 0x39
    ||| c == '%'
    ||| c == '?'
    ||| c == '*'
    ||| c == '#'
}

/// Captures `n` bytes at `index`, if the reply has them.
pub open spec fn capture(data: Seq<u8>, index: int, n: int) -> Option<(int, Option<Seq<u8>>)> {
    if 0 <= index && index + n <= data.len() {
        Some((index + n, Some(data.subrange(index, index + n))))
    } else {
        None
    }
}

/// Effect of one two-character token at `index`: the next index and the
/// captured field, or `None` when the token does not match the reply.
pub open spec fn scan_token(a: char, b: char, index: int, data: Seq<u8>) -> Option<(int, Option<Seq<u8>>)> {
    if a == '%' {
        if b == '?' {
            Some((index + 1, None))
        } else if b == 'b' || b == 'B' {
            capture(data, index, 1)
        } else if b == 'w' || b == 'W' {
            capture(data, index, 2)
        } else if b == 'd' {
            capture(data, index, 4)
        } else if b == 'q' {
            capture(data, index, 8)
        } else if b == 'x' || b == 's' {
            if 0 <= index && index + 2 <= data.len() {
                capture(data, index + 2, data[index] * 256 + data[index + 1])
            } else {
                None
            }
        } else if b == 'z' {
            if 0 <= index && index + 1 <= data.len() {
                capture(data, index + 1, data[index] as int)
            } else {
                None
            }
        } else if b == '*' {
            if 0 <= index <= data.len() {
                capture(data, index, data.len() - index)
            } else {
                None
            }
        } else if b == '#' {
            if 0 <= index <= data.len() {
                Some((index, Some(data.subrange(index, data.len() as int))))
            } else {
                None
            }
        } else {
            None
        }
    } else {
        match (hex_digit_spec(a), hex_digit_spec(b)) {
            (Some(x), Some(y)) => if 0 <= index < data.len() && data[index] == x * 16 + y {
                Some((index + 1, None))
            } else {
                None
            },
            _ => None,
        }
    }
}

/// One template character applied to the scan state
/// `(pending first character of a token, index, captured fields)`.
pub open spec fn scan_step(st: Option<(Option<char>, int, Seq<Seq<u8>>)>, c: char, data: Seq<u8>) -> Option<
    (Option<char>, int, Seq<Seq<u8>>),
> {
    match st {
        None => None,
        Some((pending, index, pieces)) => {
            if is_whitespace_spec(c) {
                st
            } else if pending == Some('%') && (c == '<' || c == '>') {
                st
            } else if !template_char(c) {
                None
            } else {
                match pending {
                    None => Some((Some(c), index, pieces)),
                    Some(a) => match scan_token(a, c, index, data) {
                        None => None,
                        Some((next, piece)) => Some(
                            (
                                None,
                                next,
                                match piece {
                                    Some(p) => pieces.push(p),
                                    None => pieces,
                                },
                            ),
                        ),
                    },
                }
            }
        },
    }
}

/// The scan state after the characters of `t`, from the start of the reply.
pub open spec fn scan_fold(t: Seq<char>, data: Seq<u8>) -> Option<(Option<char>, int, Seq<Seq<u8>>)>
    decreases t.len(),
{
    if t.len() == 0 {
        Some((None, 0, Seq::empty()))
    } else {
        scan_step(scan_fold(t.drop_last(), data), t.last(), data)
    }
}

/// The fields captured by matching `data` against `template`, or `None`
/// when the template is malformed, a token does not match, a token is left
/// half-written, or bytes are left over.
pub open spec fn scan_spec(template: Seq<char>, data: Seq<u8>) -> Option<Seq<Seq<u8>>> {
    match scan_fold(template, data) {
        Some((pending, index, pieces)) => if pending is None && index == data.len() {
            Some(pieces)
        } else {
            None
        },
        None => None,
    }
}

/// Once the index has run past the end of the reply, no later state brings it back.
proof fn lemma_overshoot_stays(t: Seq<char>, data: Seq<u8>, i: int, j: int)
    requires
        0 <= i <= j <= t.len(),
        scan_fold(t.take(i), data) matches Some(st) && st.1 > data.len(),
    ensures
        scan_fold(t.take(j), data) matches Some(st) ==> st.1 > data.len(),
    decreases j - i,
{
    if j > i {
        lemma_overshoot_stays(t, data, i, j - 1);
        assert(t.take(j).drop_last() =~= t.take(j - 1));
    }
}

/// Exec counterpart of [`scan_token`].
fn scan_token_exec<'a>(a: char, b: char, index: usize, data: &'a [u8]) -> (r: Option<(usize, Option<&'a [u8]>)>)
    requires
        index <= data@.len(),
        !(a == '%' && b == '?' && index == data@.len()),
    ensures
        match scan_token(a, b, index as int, data@) {
            None => r is None,
            Some((next, piece)) => r matches Some((n, p)) && n == next && n <= data@.len() && match piece {
                None => p is None,
                Some(x) => p matches Some(s) && s@ == x,
            },
        },
{
    let len = data.len();
    if a == '%' {
        let n: usize = if b == '?' {
            return Some((index + 1, None));
        } else if b == 'b' || b == 'B' {
            1
        } else if b == 'w' || b == 'W' {
            2
        } else if b == 'd' {
            4
        } else if b == 'q' {
            8
        } else if b == 'x' || b == 's' {
            if len - index < 2 {
                return None;
            }
            let l = (data[index] as usize) * 256 + data[index + 1] as usize;
            if len - (index + 2) < l {
                return None;
            }
            return Some((index + 2 + l, Some(vstd::slice::slice_subrange(data, index + 2, index + 2 + l))));
        } else if b == 'z' {
            if len - index < 1 {
                return None;
            }
            let l = data[index] as usize;
            if len - (index + 1) < l {
                return None;
            }
            return Some((index + 1 + l, Some(vstd::slice::slice_subrange(data, index + 1, index + 1 + l))));
        } else if b == '*' {
            len - index
        } else if b == '#' {
            return Some((index, Some(vstd::slice::slice_subrange(data, index, len))));
        } else {
            return None;
        };
        if len - index < n {
            return None;
        }
        Some((index + n, Some(vstd::slice::slice_subrange(data, index, index + n))))
    } else {
        match (hex_digit(a), hex_digit(b)) {
            (Some(x), Some(y)) => {
                if index < len && data[index] == x * 16 + y {
                    Some((index + 1, None))
                } else {
                    None
                }
            },
            _ => None,
        }
    }
}

/// Matches `data` against `template` and returns the captured fields.
pub fn scan<'a>(template: &str, data: &'a [u8]) -> (res: Result<Vec<&'a [u8]>, NetMDError>)
    ensures
        match scan_spec(template@, data@) {
            Some(pieces) => res matches Ok(v) && v@.len() == pieces.len() && forall|k: int|
                0 <= k < pieces.len() ==> (#[trigger] v@[k])@ == pieces[k],
            None => res matches Err(e) && e == NetMDError::Scan,
        },
{
    let t = str_to_chars(template);
    let mut pending: Option<char> = None;
    let mut index: usize = 0;
    let mut result: Vec<&'a [u8]> = Vec::new();
    let mut i: usize = 0;
    while i < t.len()
        invariant
            t@ == template@,
            i <= t.len(),
            index <= data@.len(),
            scan_fold(t@.take(i as int), data@) matches Some(st) && st.0 == pending && st.1
                == index as int && st.2.len() == result@.len() && forall|k: int|
                0 <= k < result@.len() ==> (#[trigger] result@[k])@ == st.2[k],
        decreases t.len() - i,
    {
        let c = t[i];
        let ghost before = t@.take(i as int);
        assert(t@.take(i + 1).drop_last() =~= before);
        if is_whitespace(c) {
        } else if pending == Some('%') && (c == '<' || c == '>') {
        } else {
            let v = c as u32;
            let allowed = (0x61 <= v && v <= 0x7a) || (0x41 <= v && v <= 0x5a) || (0x30 <= v && v
                <= 0x39) || c == '%' || c == '?' || c == '*' || c == '#';
            if !allowed {
                proof {
                    lemma_none_stays(t@, data@, i as int + 1, t@.len() as int);
                    assert(t@.take(t@.len() as int) =~= t@);
                }
                return Err(NetMDError::Scan);
            }
            match pending {
                None => {
                    pending = Some(c);
                },
                Some(a) => {
                    if a == '%' && c == '?' && index == data.len() {
                        proof {
                            lemma_overshoot_stays(t@, data@, i as int + 1, t@.len() as int);
                            assert(t@.take(t@.len() as int) =~= t@);
                        }
                        return Err(NetMDError::Scan);
                    }
                    match scan_token_exec(a, c, index, data) {
                        None => {
                            proof {
                                lemma_none_stays(t@, data@, i as int + 1, t@.len() as int);
                                assert(t@.take(t@.len() as int) =~= t@);
                            }
                            return Err(NetMDError::Scan);
                        },
                        Some((next, piece)) => {
                            index = next;
                            pending = None;
                            match piece {
                                Some(p) => {
                                    result.push(p);
                                },
                                None => {},
                            }
                        },
                    }
                },
            }
        }
        i = i + 1;
    }
    assert(t@.take(t@.len() as int) =~= t@);
    if pending.is_some() || index != data.len() {
        return Err(NetMDError::Scan);
    }
    Ok(result)
}

/// A failed scan stays failed.
proof fn lemma_none_stays(t: Seq<char>, data: Seq<u8>, i: int, j: int)
    requires
        0 <= i <= j <= t.len(),
        scan_fold(t.take(i), data) is None,
    ensures
        scan_fold(t.take(j), data) is None,
    decreases j - i,
{
    if j > i {
        lemma_none_stays(t, data, i, j - 1);
        assert(t.take(j).drop_last() =~= t.take(j - 1));
    }
}

} // verus!
