//! Disc-level commands: titles, flags, capacity and subunit identifier.

use vstd::prelude::*;
use vstd::slice::slice_to_vec;
use crate::error::NetMDError;
use crate::query::{be16, be32, Query, QueryBuilder};
use crate::scan::{scan, scan_spec};
use crate::util::{lemma_be_value_2, 
    bcd_value, be_value, encode_to_sjis, parse_bcd_u16, parse_bcd_u8, parse_string, parse_u16, parse_u8,
    sjis_decode_of, sjis_encode_of,
};
use crate::chars::{append_chars, find_from, find_seq, lemma_find_bounds, lemma_find_concat, lemma_find_first, matches_at, contains_chars, contains_seq, starts_with_chars, starts_with_seq, sub_chars};
use crate::device::SHARP_VENDOR_ID;
use crate::text::{chars_to_string, str_to_chars};
use crate::title::sanitize_title_spec;
pub use crate::title::sanitize_title;

verus! {

/// Query of the disc flags.
pub fn disc_flags_query() -> (q: Query)
    ensures
        q.0@ == seq![0x00u8, 0x18u8, 0x06u8, 0x01u8, 0x10u8, 0x10u8, 0x00u8, 0xffu8, 0x00u8, 0x00u8, 0x01u8, 0x00u8, 0x0bu8],
{
    let b = QueryBuilder::new();
    let lit: Vec<u8> = vec![0x00u8, 0x18u8, 0x06u8, 0x01u8, 0x10u8, 0x10u8, 0x00u8, 0xffu8, 0x00u8, 0x00u8, 0x01u8, 0x00u8, 0x0bu8];
    assert(lit@ =~= seq![0x00u8, 0x18u8, 0x06u8, 0x01u8, 0x10u8, 0x10u8, 0x00u8, 0xffu8, 0x00u8, 0x00u8, 0x01u8, 0x00u8, 0x0bu8]);
    let b = b.bytes(lit.as_slice());
    let q = b.build();
    assert(q.0@ =~= seq![0x00u8, 0x18u8, 0x06u8, 0x01u8, 0x10u8, 0x10u8, 0x00u8, 0xffu8, 0x00u8, 0x00u8, 0x01u8, 0x00u8, 0x0bu8]);
    q
}

/// The disc flag byte.
pub fn parse_disc_flags_reply(reply: &[u8]) -> (r: Result<u8, NetMDError>)
    ensures
        match scan_spec("%? 1806 01101000 1000 0001000b %b"@, reply@) {
            None => r matches Err(e) && e == NetMDError::Scan,
            Some(p) => if p.len() > 0 { if p[0].len() == 1 { r == Ok::<u8, NetMDError>(p[0][0]) } else { r matches Err(e) && e == NetMDError::InvalidDataLength } } else { r matches Err(e) && e == NetMDError::UnexpectedResponse },
        },
{
    let p = match scan("%? 1806 01101000 1000 0001000b %b", reply) {
        Ok(p) => p,
        Err(e) => {
            return Err(e);
        },
    };
    if !(p.len() > 0) {
        return Err(NetMDError::UnexpectedResponse);
    }
    parse_u8(p[0])
}

/// Query of the disc capacity.
pub fn disc_capacity_query() -> (q: Query)
    ensures
        q.0@ == seq![0x00u8, 0x18u8, 0x06u8, 0x02u8, 0x10u8, 0x10u8, 0x00u8, 0x30u8, 0x80u8, 0x03u8, 0x00u8, 0xffu8, 0x00u8, 0x00u8, 0x00u8, 0x00u8, 0x00u8],
{
    let b = QueryBuilder::new();
    let lit: Vec<u8> = vec![0x00u8, 0x18u8, 0x06u8, 0x02u8, 0x10u8, 0x10u8, 0x00u8, 0x30u8, 0x80u8, 0x03u8, 0x00u8, 0xffu8, 0x00u8, 0x00u8, 0x00u8, 0x00u8, 0x00u8];
    assert(lit@ =~= seq![0x00u8, 0x18u8, 0x06u8, 0x02u8, 0x10u8, 0x10u8, 0x00u8, 0x30u8, 0x80u8, 0x03u8, 0x00u8, 0xffu8, 0x00u8, 0x00u8, 0x00u8, 0x00u8, 0x00u8]);
    let b = b.bytes(lit.as_slice());
    let q = b.build();
    assert(q.0@ =~= seq![0x00u8, 0x18u8, 0x06u8, 0x02u8, 0x10u8, 0x10u8, 0x00u8, 0x30u8, 0x80u8, 0x03u8, 0x00u8, 0xffu8, 0x00u8, 0x00u8, 0x00u8, 0x00u8, 0x00u8]);
    q
}

/// Query of the disc subunit identifier.
pub fn disc_subunit_identifier_query() -> (q: Query)
    ensures
        q.0@ == seq![0x00u8, 0x18u8, 0x09u8, 0x00u8, 0xffu8, 0x00u8, 0x00u8, 0x00u8, 0x00u8, 0x00u8],
{
    let b = QueryBuilder::new();
    let lit: Vec<u8> = vec![0x00u8, 0x18u8, 0x09u8, 0x00u8, 0xffu8, 0x00u8, 0x00u8, 0x00u8, 0x00u8, 0x00u8];
    assert(lit@ =~= seq![0x00u8, 0x18u8, 0x09u8, 0x00u8, 0xffu8, 0x00u8, 0x00u8, 0x00u8, 0x00u8, 0x00u8]);
    let b = b.bytes(lit.as_slice());
    let q = b.build();
    assert(q.0@ =~= seq![0x00u8, 0x18u8, 0x09u8, 0x00u8, 0xffu8, 0x00u8, 0x00u8, 0x00u8, 0x00u8, 0x00u8]);
    q
}

/// Checks the reply of writing the disc title.
pub fn parse_set_disc_title_reply(reply: &[u8]) -> (r: Result<(), NetMDError>)
    ensures
        match scan_spec("%? 1807 02201801 00%? 3000 0a00 5000 %?%? 0000 %?%?"@, reply@) {
            None => r matches Err(e) && e == NetMDError::Scan,
            Some(p) => r matches Ok(_),
        },
{
    let p = match scan("%? 1807 02201801 00%? 3000 0a00 5000 %?%? 0000 %?%?", reply) {
        Ok(p) => p,
        Err(e) => {
            return Err(e);
        },
    };
    Ok(())
}

/// The group separator of a title table.
pub open spec fn title_delim(w_char: bool) -> Seq<char> {
    if w_char {
        seq!['／', '／']
    } else {
        seq!['/', '/']
    }
}

/// The marker of the disc-title entry of a title table.
pub open spec fn title_marker(w_char: bool) -> Seq<char> {
    if w_char {
        seq!['０', '；']
    } else {
        seq!['0', ';']
    }
}

fn delim_chars(w_char: bool) -> (r: Vec<char>)
    ensures
        r@ == title_delim(w_char),
{
    let r = if w_char {
        vec!['／', '／']
    } else {
        vec!['/', '/']
    };
    assert(r@ =~= title_delim(w_char));
    r
}

fn marker_chars(w_char: bool) -> (r: Vec<char>)
    ensures
        r@ == title_marker(w_char),
{
    let r = if w_char {
        vec!['０', '；']
    } else {
        vec!['0', ';']
    };
    assert(r@ =~= title_marker(w_char));
    r
}

/// Whether `s` ends with `d`.
pub open spec fn ends_with_seq(s: Seq<char>, d: Seq<char>) -> bool {
    d.len() <= s.len() && s.skip(s.len() - d.len()) == d
}

/// The part of `s` before the first `d` (all of `s` without one).
pub open spec fn first_piece(s: Seq<char>, d: Seq<char>) -> Seq<char> {
    match find_seq(s, d) {
        Some(i) => s.take(i),
        None => s,
    }
}

/// The user-facing disc title of a raw title: with group entries (the raw
/// title ends in the separator) the text of a leading disc-title entry, if
/// any; otherwise the whole raw title.
pub open spec fn disc_title_spec(raw: Seq<char>, w_char: bool) -> Seq<char> {
    let d = title_delim(w_char);
    let m = title_marker(w_char);
    if ends_with_seq(raw, d) {
        let first = first_piece(raw, d);
        if starts_with_seq(first, m) {
            first.skip(m.len() as int)
        } else {
            Seq::empty()
        }
    } else {
        raw
    }
}

fn ends_with_chars(s: &[char], d: &[char]) -> (r: bool)
    ensures
        r == ends_with_seq(s@, d@),
{
    if d.len() > s.len() {
        return false;
    }
    let start = s.len() - d.len();
    let tail = sub_chars(s, start, s.len());
    assert(tail@ =~= s@.skip(start as int));
    let mut k: usize = 0;
    while k < d.len()
        invariant
            k <= d@.len(),
            tail@.len() == d@.len(),
            tail@ == s@.skip(s@.len() - d@.len()),
            d@.len() <= s@.len(),
            forall|j: int| 0 <= j < k ==> tail@[j] == d@[j],
        decreases d@.len() - k,
    {
        if tail[k] != d[k] {
            assert(tail@[k as int] != d@[k as int]);
            assert(tail@ != d@);
            return false;
        }
        k = k + 1;
    }
    assert(tail@ =~= d@);
    true
}

/// The user-facing disc title of a raw title (see [`disc_title_spec`]).
pub fn disc_title_from_raw(raw_title: &str, w_char: bool) -> (r: String)
    ensures
        r@ == disc_title_spec(raw_title@, w_char),
{
    let raw = str_to_chars(raw_title);
    let d = delim_chars(w_char);
    let m = marker_chars(w_char);
    if ends_with_chars(raw.as_slice(), d.as_slice()) {
        assert(raw@.skip(0) =~= raw@);
        let first = match find_from(raw.as_slice(), 0, d.as_slice()) {
            Some(i) => sub_chars(raw.as_slice(), 0, i),
            None => sub_chars(raw.as_slice(), 0, raw.len()),
        };
        assert(first@ =~= first_piece(raw@, d@));
        if starts_with_chars(first.as_slice(), m.as_slice()) {
            let t = sub_chars(first.as_slice(), m.len(), first.len());
            assert(t@ =~= first@.skip(m@.len() as int));
            chars_to_string(t.as_slice())
        } else {
            String::new()
        }
    } else {
        chars_to_string(raw.as_slice())
    }
}

/// How a device wants its disc title written.
#[derive(Debug, Clone, Copy, PartialEq, Eq, Structural)]
pub enum DiscTitleWriteFlow {
    /// Close and reopen the disc-title descriptor for writing.
    Standard,
    /// Open the UTOC1 descriptor for writing (Sharp devices).
    Sharp,
}

/// The title write flow of a device vendor: Sharp's own, else the standard one.
pub fn disc_title_write_flow(vendor_id: u16) -> (r: DiscTitleWriteFlow)
    ensures
        r == (if vendor_id == 0x04dd { DiscTitleWriteFlow::Sharp } else { DiscTitleWriteFlow::Standard }),
{
    if vendor_id == SHARP_VENDOR_ID {
        DiscTitleWriteFlow::Sharp
    } else {
        DiscTitleWriteFlow::Standard
    }
}

/// A raw title renamed to `title` with its group entries kept: the leading
/// disc-title entry is replaced (dropped for an empty title) or one is put
/// in front; a raw title without entries is just replaced.
pub open spec fn renamed_spec(raw: Seq<char>, title: Seq<char>, w_char: bool) -> Seq<char> {
    let d = title_delim(w_char);
    let m = title_marker(w_char);
    if contains_seq(raw, d) {
        if starts_with_seq(raw, m) {
            let rest = raw.skip(find_seq(raw, d)->0 + d.len());
            if title.len() == 0 {
                rest
            } else {
                m + title + d + rest
            }
        } else {
            m + title + d + raw
        }
    } else {
        title
    }
}

/// In `m + t + d + rest` the first separator is the one after the title,
/// for a title with no separator in it that does not end with its character.
proof fn lemma_first_piece_after_title(t: Seq<char>, rest: Seq<char>, w_char: bool)
    requires
        t.len() > 0,
        !contains_seq(t, title_delim(w_char)),
        t.last() != title_delim(w_char)[0],
    ensures
        first_piece(title_marker(w_char) + t + title_delim(w_char) + rest, title_delim(w_char)) == title_marker(w_char) + t,
{
    let d = title_delim(w_char);
    let m = title_marker(w_char);
    let a = m + t;
    let x = a + (d + rest);
    assert(m + t + d + rest =~= x);
    assert forall|i: int| 0 <= i < a.len() implies !matches_at(x, i, d) by {
        if matches_at(x, i, d) {
            assert(x.subrange(i, i + 2) == d);
            assert(x[i] == d[0] && x[i + 1] == d[1]) by {
                assert(x.subrange(i, i + 2)[0] == x[i]);
                assert(x.subrange(i, i + 2)[1] == x[i + 1]);
            }
            if i < 2 {
                assert(x[i] == m[i]);
            } else if i == a.len() - 1 {
                assert(x[i] == t.last());
            } else {
                assert(matches_at(t, i - 2, d)) by {
                    assert(t.subrange(i - 2, i) =~= x.subrange(i, i + 2));
                }
                lemma_find_first(t, d, i - 2);
            }
        }
    }
    lemma_find_concat(a, d + rest, d);
    assert((d + rest).take(2) =~= d);
    assert(find_seq(d + rest, d) == Some(0int));
    assert(x.take(a.len() as int) =~= a);
}

/// Renaming a disc and reading its title back gives the new title: for a
/// raw title that ends with the separator or has none, and a non-empty new
/// title that holds no separator and does not end with its character.
pub proof fn lemma_rename_read_back(raw: Seq<char>, title: Seq<char>, w_char: bool)
    requires
        ends_with_seq(raw, title_delim(w_char)) || !contains_seq(raw, title_delim(w_char)),
        title.len() > 0,
        !contains_seq(title, title_delim(w_char)),
        title.last() != title_delim(w_char)[0],
    ensures
        disc_title_spec(renamed_spec(raw, title, w_char), w_char) == title,
{
    let d = title_delim(w_char);
    let m = title_marker(w_char);
    if contains_seq(raw, d) {
        let rest = if starts_with_seq(raw, m) {
            lemma_find_bounds(raw, d);
            raw.skip(find_seq(raw, d)->0 + d.len())
        } else {
            raw
        };
        let x = m + title + d + rest;
        assert(renamed_spec(raw, title, w_char) == x);
        lemma_first_piece_after_title(title, rest, w_char);
        assert(ends_with_seq(x, d)) by {
            if rest.len() >= 2 {
                assert(rest.skip(rest.len() - 2) =~= raw.skip(raw.len() - 2));
                assert(x.skip(x.len() - 2) =~= rest.skip(rest.len() - 2));
            } else if rest.len() == 1 {
                assert(rest[0] == raw.last());
                assert(raw.skip(raw.len() - 2)[1] == raw.last());
                assert(x.skip(x.len() - 2) =~= d);
            } else {
                assert(x.skip(x.len() - 2) =~= d);
            }
        }
        assert(starts_with_seq(m + title, m)) by {
            assert((m + title).take(2) =~= m);
        }
        assert((m + title).skip(2) =~= title);
    } else {
        assert(renamed_spec(raw, title, w_char) == title);
        if ends_with_seq(title, d) {
            assert(matches_at(title, title.len() - 2, d)) by {
                assert(title.subrange(title.len() - 2, title.len() as int) =~= title.skip(title.len() - 2));
            }
            lemma_find_first(title, d, title.len() - 2);
        }
    }
}

/// Renames a raw disc title, keeping its group entries (see [`renamed_spec`]).
pub fn renamed_disc_raw_title(raw_title: &str, title: &str, w_char: bool) -> (r: String)
    ensures
        r@ == renamed_spec(raw_title@, title@, w_char),
{
    let raw = str_to_chars(raw_title);
    let t = str_to_chars(title);
    let d = delim_chars(w_char);
    let m = marker_chars(w_char);
    let n = raw.len();
    if contains_chars(raw.as_slice(), d.as_slice()) {
        if starts_with_chars(raw.as_slice(), m.as_slice()) {
            assert(raw@.skip(0) =~= raw@);
            let at = match find_from(raw.as_slice(), 0, d.as_slice()) {
                Some(i) => i,
                None => {
                    assert(false);
                    0
                },
            };
            assert(at + d@.len() <= n);
            let rest = sub_chars(raw.as_slice(), at + d.len(), n);
            assert(rest@ =~= raw@.skip(at + d@.len()));
            if t.len() == 0 {
                chars_to_string(rest.as_slice())
            } else {
                let mut out: Vec<char> = Vec::new();
                append_chars(&mut out, m.as_slice());
                append_chars(&mut out, t.as_slice());
                append_chars(&mut out, d.as_slice());
                append_chars(&mut out, rest.as_slice());
                chars_to_string(out.as_slice())
            }
        } else {
            let mut out: Vec<char> = Vec::new();
            append_chars(&mut out, m.as_slice());
            append_chars(&mut out, t.as_slice());
            append_chars(&mut out, d.as_slice());
            append_chars(&mut out, raw.as_slice());
            chars_to_string(out.as_slice())
        }
    } else {
        chars_to_string(t.as_slice())
    }
}

/// The raw title to write when renaming the disc to `title`: `None` when the
/// sanitized title is already the user-facing title.
pub fn rename_disc_plan(raw_title: &str, title: &str, w_char: bool) -> (r: Option<String>)
    requires
        4 * title@.len() <= usize::MAX,
    ensures
        ({
            let t = sanitize_title_spec(title@, w_char);
            &&& t == disc_title_spec(raw_title@, w_char) ==> r is None
            &&& t != disc_title_spec(raw_title@, w_char) ==> (r matches Some(s) && s@ == renamed_spec(raw_title@, t, w_char))
        }),
{
    let t = sanitize_title(title, w_char);
    let current = disc_title_from_raw(raw_title, w_char);
    let tc = str_to_chars(t.as_str());
    let cc = str_to_chars(current.as_str());
    if chars_equal(tc.as_slice(), cc.as_slice()) {
        None
    } else {
        Some(renamed_disc_raw_title(raw_title, t.as_str(), w_char))
    }
}

/// Whether two character sequences are equal.
pub fn chars_equal(a: &[char], b: &[char]) -> (r: bool)
    ensures
        r == (a@ == b@),
{
    if a.len() != b.len() {
        return false;
    }
    let mut k: usize = 0;
    while k < a.len()
        invariant
            k <= a@.len(),
            a@.len() == b@.len(),
            forall|j: int| 0 <= j < k ==> a@[j] == b@[j],
        decreases a@.len() - k,
    {
        if a[k] != b[k] {
            return false;
        }
        k = k + 1;
    }
    assert(a@ =~= b@);
    true
}

/// A title write: the encoded new title and the encoded lengths of the new
/// and the current title.
pub struct TitleWrite {
    pub sjis: Vec<u8>,
    pub new_len: u16,
    pub old_len: u16,
}

/// What writing `title` over the current title takes: nothing when the
/// sanitized title equals the current one; otherwise the encoded title and
/// both encoded lengths. An unknown current title (it could not be read)
/// counts as zero bytes and is never equal. A title that cannot be encoded
/// is an error, and so is an encoded length past 16 bits (the query holds
/// four hex digits).
pub open spec fn title_write_spec(title: Seq<char>, current: Option<Seq<char>>, w_char: bool) -> Result<
    Option<(Seq<u8>, u16, u16)>,
    NetMDError,
> {
    let t = sanitize_title_spec(title, w_char);
    match current {
        Some(c) => if t == c {
            Ok(None)
        } else if sjis_encode_of(c).1 || sjis_encode_of(t).1 {
            Err(NetMDError::TextEncoding)
        } else if sjis_encode_of(t).0.len() > 0xffff || sjis_encode_of(c).0.len() > 0xffff {
            Err(NetMDError::InvalidInput)
        } else {
            Ok(Some((sjis_encode_of(t).0, sjis_encode_of(t).0.len() as u16, sjis_encode_of(c).0.len() as u16)))
        },
        None => if sjis_encode_of(t).1 {
            Err(NetMDError::TextEncoding)
        } else if sjis_encode_of(t).0.len() > 0xffff {
            Err(NetMDError::InvalidInput)
        } else {
            Ok(Some((sjis_encode_of(t).0, sjis_encode_of(t).0.len() as u16, 0u16)))
        },
    }
}

/// Plans writing `title` over the current title (see [`title_write_spec`]).
pub fn title_write_plan(title: &str, current: Option<&str>, w_char: bool) -> (r: Result<Option<TitleWrite>, NetMDError>)
    requires
        4 * title@.len() <= usize::MAX,
    ensures
        match (r, title_write_spec(title@, match current {
            Some(c) => Some(c@),
            None => None,
        }, w_char)) {
            (Ok(None), Ok(None)) => true,
            (Ok(Some(w)), Ok(Some((b, n, o)))) => w.sjis@ == b && w.new_len == n && w.old_len == o,
            (Err(a), Err(b)) => a == b,
            _ => false,
        },
{
    let t = sanitize_title(title, w_char);
    let old_len: usize = match current {
        Some(c) => {
            let tc = str_to_chars(t.as_str());
            let cc = str_to_chars(c);
            if chars_equal(tc.as_slice(), cc.as_slice()) {
                return Ok(None);
            }
            match encode_to_sjis(c) {
                Ok(v) => v.len(),
                Err(e) => {
                    return Err(e);
                },
            }
        },
        None => 0,
    };
    let new = match encode_to_sjis(t.as_str()) {
        Ok(v) => v,
        Err(e) => {
            return Err(e);
        },
    };
    if new.len() > 0xffff || old_len > 0xffff {
        return Err(NetMDError::InvalidInput);
    }
    Ok(Some(TitleWrite { new_len: new.len() as u16, old_len: old_len as u16, sjis: new }))
}

/// The bytes of a disc-title write.
pub open spec fn set_disc_title_spec(w_char: bool, new_len: u16, old_len: u16, sjis: Seq<u8>) -> Seq<u8> {
    seq![0x00u8, 0x18u8, 0x07u8, 0x02u8, 0x20u8, 0x18u8, 0x01u8, 0x00u8, if w_char { 1u8 } else { 0u8 }, 0x30u8, 0x00u8, 0x0au8, 0x00u8, 0x50u8, 0x00u8]
        + be16(new_len) + seq![0x00u8, 0x00u8] + be16(old_len) + sjis
}

/// The query that writes the raw disc title (already Shift-JIS encoded).
pub fn set_disc_title_query(w_char: bool, new_len: u16, old_len: u16, sjis: &[u8]) -> (q: Query)
    ensures
        q.0@ == set_disc_title_spec(w_char, new_len, old_len, sjis@),
{
    let head: Vec<u8> = vec![0x00u8, 0x18u8, 0x07u8, 0x02u8, 0x20u8, 0x18u8, 0x01u8, 0x00u8];
    let mid: Vec<u8> = vec![0x30u8, 0x00u8, 0x0au8, 0x00u8, 0x50u8, 0x00u8];
    let zero2: Vec<u8> = vec![0x00u8, 0x00u8];
    let w: u8 = if w_char {
        1
    } else {
        0
    };
    let q = QueryBuilder::new().bytes(head.as_slice()).u8(w).bytes(mid.as_slice()).u16(new_len).bytes(
        zero2.as_slice(),
    ).u16(old_len).bytes(sjis).build();
    assert(q.0@ =~= set_disc_title_spec(w_char, new_len, old_len, sjis@));
    q
}

/// The bytes of a raw disc-title chunk read.
pub open spec fn disk_title_chunk_spec(w_char: bool, remaining: u16, done: u16) -> Seq<u8> {
    seq![0x00u8, 0x18u8, 0x06u8, 0x02u8, 0x20u8, 0x18u8, 0x01u8, 0x00u8, if w_char { 1u8 } else { 0u8 }, 0x30u8, 0x00u8, 0x0au8, 0x00u8, 0xffu8, 0x00u8]
        + be16(remaining) + be16(done)
}

/// The query that reads the next chunk of the raw disc title.
pub fn disk_title_chunk_query(w_char: bool, remaining: u16, done: u16) -> (q: Query)
    ensures
        q.0@ == disk_title_chunk_spec(w_char, remaining, done),
{
    let head: Vec<u8> = vec![0x00u8, 0x18u8, 0x06u8, 0x02u8, 0x20u8, 0x18u8, 0x01u8, 0x00u8];
    let mid: Vec<u8> = vec![0x30u8, 0x00u8, 0x0au8, 0x00u8, 0xffu8, 0x00u8];
    let w: u8 = if w_char {
        1
    } else {
        0
    };
    let q = QueryBuilder::new().bytes(head.as_slice()).u8(w).bytes(mid.as_slice()).u16(remaining).u16(done).build();
    assert(q.0@ =~= disk_title_chunk_spec(w_char, remaining, done));
    q
}

/// The template of the first chunk reply.
pub open spec fn first_chunk_template() -> Seq<char> {
    "%? 1806 02201801 00%? 3000 0a00 1000 %w0000 %?%?000a %w %*"@
}

/// The template of the following chunk replies.
pub open spec fn next_chunk_template() -> Seq<char> {
    "%? 1806 02201801 00%? 3000 0a00 1000 %w%?%? %*"@
}

/// Reading the raw disc title chunk by chunk: bytes done, bytes left,
/// total bytes, and the decoded text of each chunk.
pub struct DiskTitleReader {
    pub done: u16,
    pub remaining: u16,
    pub total: u16,
    pub parts: Vec<String>,
}

/// The reading state after one chunk of `size` bytes of text: an error when
/// the counts leave 16 bits or pass the total.
pub open spec fn chunk_step(done: u16, total: u16, size: int) -> Option<(u16, u16)> {
    if done + size > 0xffff || done + size > total {
        None
    } else {
        Some(((done + size) as u16, (total - (done + size)) as u16))
    }
}

impl DiskTitleReader {
    /// The texts read so far.
    pub open spec fn texts(&self) -> Seq<Seq<char>> {
        self.parts@.map_values(|s: String| s@)
    }

    /// A reader before the first chunk.
    pub fn new() -> (r: DiskTitleReader)
        ensures
            r.done == 0 && r.remaining == 0 && r.total == 1 && r.texts().len() == 0,
    {
        DiskTitleReader { done: 0, remaining: 0, total: 1, parts: Vec::new() }
    }

    /// Whether every chunk has been read.
    pub fn finished(&self) -> (b: bool)
        ensures
            b == (self.done >= self.total),
    {
        self.done >= self.total
    }

    /// The query of the next chunk.
    pub fn query(&self, w_char: bool) -> (q: Query)
        ensures
            q.0@ == disk_title_chunk_spec(w_char, self.remaining, self.done),
    {
        disk_title_chunk_query(w_char, self.remaining, self.done)
    }

    /// Takes in a chunk reply: the first one carries the chunk size (counting
    /// six header bytes) and the total; later ones the chunk size.
    pub fn accept(&mut self, reply: &[u8]) -> (r: Result<(), NetMDError>)
        ensures
            ({
                let first = old(self).remaining == 0;
                let t = if first { first_chunk_template() } else { next_chunk_template() };
                match scan_spec(t, reply@) {
                    None => r matches Err(e) && e == NetMDError::Scan,
                    Some(p) => if (first && p.len() != 3) || (!first && p.len() != 2) {
                        r matches Err(e) && e == NetMDError::UnexpectedResponse
                    } else if p[0].len() != 2 || (first && p[1].len() != 2) {
                        r matches Err(e) && e == NetMDError::InvalidDataLength
                    } else {
                        let data = if first { p[2] } else { p[1] };
                        let total = if first { be_value(p[1]) as u16 } else { old(self).total };
                        let size = if first { be_value(p[0]) - 6 } else { be_value(p[0]) as int };
                        if sjis_decode_of(data).1 {
                            r matches Err(e) && e == NetMDError::TextEncoding
                        } else if size < 0 {
                            r matches Err(e) && e == NetMDError::UnexpectedResponse
                        } else {
                            match chunk_step(old(self).done, total, size) {
                                None => r matches Err(e) && e == NetMDError::UnexpectedResponse,
                                Some((done, remaining)) => r is Ok && final(self).done == done && final(self).remaining == remaining
                                    && final(self).total == total && final(self).texts() == old(self).texts().push(sjis_decode_of(data).0),
                            }
                        }
                    },
                }
            }),
    {
        let first = self.remaining == 0;
        let p = if first {
            match scan("%? 1806 02201801 00%? 3000 0a00 1000 %w0000 %?%?000a %w %*", reply) {
                Ok(p) => p,
                Err(e) => {
                    return Err(e);
                },
            }
        } else {
            match scan("%? 1806 02201801 00%? 3000 0a00 1000 %w%?%? %*", reply) {
                Ok(p) => p,
                Err(e) => {
                    return Err(e);
                },
            }
        };
        let ghost t = if first {
            first_chunk_template()
        } else {
            next_chunk_template()
        };
        let ghost pieces = scan_spec(t, reply@)->0;
        assert(scan_spec(t, reply@) == Some(pieces));
        assert(p@.len() == pieces.len());
        if (first && p.len() != 3) || (!first && p.len() != 2) {
            return Err(NetMDError::UnexpectedResponse);
        }
        assert(p@[0]@ == pieces[0]);
        assert(p@[1]@ == pieces[1]);
        proof {
            if pieces[0].len() == 2 {
                lemma_be_value_2(pieces[0]);
            }
            if pieces[1].len() == 2 {
                lemma_be_value_2(pieces[1]);
            }
        }
        assert(first ==> p@[2]@ == pieces[2]);
        let cz = match parse_u16(p[0]) {
            Ok(v) => v,
            Err(e) => {
                return Err(e);
            },
        };
        let total = if first {
            match parse_u16(p[1]) {
                Ok(v) => v,
                Err(e) => {
                    return Err(e);
                },
            }
        } else {
            self.total
        };
        let data = if first {
            p[2]
        } else {
            p[1]
        };
        let text = match parse_string(data) {
            Ok(t) => t,
            Err(e) => {
                return Err(e);
            },
        };
        let size: u16 = if first {
            if cz < 6 {
                return Err(NetMDError::UnexpectedResponse);
            }
            cz - 6
        } else {
            cz
        };
        if size as u32 + self.done as u32 > 0xffff || size as u32 + self.done as u32 > total as u32 {
            return Err(NetMDError::UnexpectedResponse);
        }
        let done = self.done + size;
        self.done = done;
        self.remaining = total - done;
        self.total = total;
        self.parts.push(text);
        assert(self.texts() =~= old(self).texts().push(sjis_decode_of(data@).0));
        Ok(())
    }

    /// The raw title: the chunk texts joined.
    pub fn title(&self) -> (s: String)
        ensures
            s@ == joined(self.texts()),
    {
        let mut out: Vec<char> = Vec::new();
        let mut k: usize = 0;
        while k < self.parts.len()
            invariant
                k <= self.parts@.len(),
                out@ == joined(self.texts().take(k as int)),
            decreases self.parts@.len() - k,
        {
            assert(self.texts().take(k + 1).drop_last() =~= self.texts().take(k as int));
            let c = str_to_chars(self.parts[k].as_str());
            append_chars(&mut out, c.as_slice());
            k = k + 1;
        }
        assert(self.texts().take(self.parts@.len() as int) =~= self.texts());
        chars_to_string(out.as_slice())
    }
}

/// Texts joined end to end.
pub open spec fn joined(parts: Seq<Seq<char>>) -> Seq<char>
    decreases parts.len(),
{
    if parts.len() == 0 {
        Seq::empty()
    } else {
        joined(parts.drop_last()) + parts.last()
    }
}

/// The template of a capacity reply.
pub open spec fn capacity_template() -> Seq<char> {
    "%? 1806 02101000 3080 0300 1000 001d0000 001b %?03 0017 8000 0005 %W %B %B %B 0005 %W %B %B %B 0005 %W %B %B %B"@
}

/// One capacity time `[h, m, s, f]` from pieces `4g .. 4g + 4`: a BCD word, three BCD bytes.
pub open spec fn capacity_time(p: Seq<Seq<u8>>, g: int) -> Seq<u32> {
    seq![
        bcd_value(be_value(p[4 * g])) as u16 as u32,
        bcd_value(p[4 * g + 1][0] as nat) as u8 as u32,
        bcd_value(p[4 * g + 2][0] as nat) as u8 as u32,
        bcd_value(p[4 * g + 3][0] as nat) as u8 as u32,
    ]
}

/// Whether pieces `4g .. 4g + 4` have the sizes of a capacity time.
pub open spec fn capacity_sizes_ok(p: Seq<Seq<u8>>, g: int) -> bool {
    p[4 * g].len() == 2 && p[4 * g + 1].len() == 1 && p[4 * g + 2].len() == 1 && p[4 * g + 3].len() == 1
}

fn capacity_group(p: &Vec<&[u8]>, g: usize) -> (r: Result<[u32; 4], NetMDError>)
    requires
        g < 3,
        p@.len() >= 12,
    ensures
        capacity_sizes_ok(p@.map_values(|x: &[u8]| x@), g as int) ==> (r matches Ok(t) && t@ == capacity_time(p@.map_values(|x: &[u8]| x@), g as int)),
        !capacity_sizes_ok(p@.map_values(|x: &[u8]| x@), g as int) ==> (r matches Err(e) && e == NetMDError::InvalidDataLength),
{
    let ghost ps = p@.map_values(|x: &[u8]| x@);
    let a = match parse_bcd_u16(p[4 * g]) {
        Ok(v) => v,
        Err(e) => {
            return Err(e);
        },
    };
    let b = match parse_bcd_u8(p[4 * g + 1]) {
        Ok(v) => v,
        Err(e) => {
            return Err(e);
        },
    };
    let c = match parse_bcd_u8(p[4 * g + 2]) {
        Ok(v) => v,
        Err(e) => {
            return Err(e);
        },
    };
    let d = match parse_bcd_u8(p[4 * g + 3]) {
        Ok(v) => v,
        Err(e) => {
            return Err(e);
        },
    };
    let t = [a as u32, b as u32, c as u32, d as u32];
    assert(t@ =~= capacity_time(ps, g as int));
    Ok(t)
}

/// The disc capacity `[recorded, total, available]` in a capacity reply.
pub fn parse_disc_capacity_reply(reply: &[u8]) -> (r: Result<[[u32; 4]; 3], NetMDError>)
    ensures
        match scan_spec(capacity_template(), reply@) {
            None => r matches Err(e) && e == NetMDError::Scan,
            Some(p) => if p.len() < 12 {
                r matches Err(e) && e == NetMDError::UnexpectedResponse
            } else if !(capacity_sizes_ok(p, 0) && capacity_sizes_ok(p, 1) && capacity_sizes_ok(p, 2)) {
                r matches Err(e) && e == NetMDError::InvalidDataLength
            } else {
                r matches Ok(c) && c@[0]@ == capacity_time(p, 0) && c@[1]@ == capacity_time(p, 1) && c@[2]@
                    == capacity_time(p, 2)
            },
        },
{
    let p = match scan(
        "%? 1806 02101000 3080 0300 1000 001d0000 001b %?03 0017 8000 0005 %W %B %B %B 0005 %W %B %B %B 0005 %W %B %B %B",
        reply,
    ) {
        Ok(p) => p,
        Err(e) => {
            return Err(e);
        },
    };
    if p.len() < 12 {
        return Err(NetMDError::UnexpectedResponse);
    }
    let ghost ps = p@.map_values(|x: &[u8]| x@);
    let t0 = match capacity_group(&p, 0) {
        Ok(t) => t,
        Err(e) => {
            return Err(e);
        },
    };
    let t1 = match capacity_group(&p, 1) {
        Ok(t) => t,
        Err(e) => {
            return Err(e);
        },
    };
    let t2 = match capacity_group(&p, 2) {
        Ok(t) => t,
        Err(e) => {
            return Err(e);
        },
    };
    Ok([t0, t1, t2])
}


/// The template of a disc subunit identifier reply.
pub open spec fn subunit_template() -> Seq<char> {
    "%? 1809 00 1000 %?%? %?%? %w %b %b %b %b %w %*"@
}

/// The descriptor body of a subunit identifier reply, with the size of a
/// root object list ID and the number of root object lists.
pub struct SubunitDescriptor {
    pub buffer: Vec<u8>,
    pub list_id_size: usize,
    pub root_lists: usize,
}

/// Reads the subunit identifier reply: the list ID size (a byte), the
/// number of root object lists (a word) and the rest of the descriptor.
pub fn parse_disc_subunit_identifier_reply(reply: &[u8]) -> (r: Result<SubunitDescriptor, NetMDError>)
    ensures
        match scan_spec(subunit_template(), reply@) {
            None => r matches Err(e) && e == NetMDError::Scan,
            Some(p) => if p.len() < 7 {
                r matches Err(e) && e == NetMDError::UnexpectedResponse
            } else if p[2].len() != 1 || p[5].len() != 2 {
                r matches Err(e) && e == NetMDError::InvalidDataLength
            } else {
                r matches Ok(d) && d.buffer@ == p[6] && d.list_id_size == p[2][0] && d.root_lists == be_value(p[5])
            },
        },
{
    let p = match scan("%? 1809 00 1000 %?%? %?%? %w %b %b %b %b %w %*", reply) {
        Ok(p) => p,
        Err(e) => {
            return Err(e);
        },
    };
    let ghost pieces = scan_spec(subunit_template(), reply@)->0;
    if p.len() < 7 {
        return Err(NetMDError::UnexpectedResponse);
    }
    assert(p@[2]@ == pieces[2] && p@[5]@ == pieces[5] && p@[6]@ == pieces[6]);
    let size = match parse_u8(p[2]) {
        Ok(v) => v,
        Err(e) => {
            return Err(e);
        },
    };
    proof {
        if pieces[2].len() == 1 {
            reveal_with_fuel(be_value, 2);
            assert(pieces[2].drop_last() =~= Seq::<u8>::empty());
        }
        if pieces[5].len() == 2 {
            lemma_be_value_2(pieces[5]);
        }
    }
    let lists = match parse_u16(p[5]) {
        Ok(v) => v,
        Err(e) => {
            return Err(e);
        },
    };
    Ok(SubunitDescriptor { buffer: slice_to_vec(p[6]), list_id_size: size as usize, root_lists: lists as usize })
}

/// Where the supported media types of a subunit descriptor begin: after the
/// root object list IDs, two length words, the attributes and version
/// bytes, and the media type count.
pub open spec fn media_types_start(list_id_size: int, root_lists: int) -> int {
    root_lists * list_id_size + 7
}

/// Whether the descriptor holds every byte that is read: the media type
/// count and its entries of eight bytes each.
pub open spec fn subunit_fits_spec(buf: Seq<u8>, list_id_size: int, root_lists: int) -> bool {
    let start = media_types_start(list_id_size, root_lists);
    &&& start <= buf.len()
    &&& start + 8 * buf[start - 1] <= buf.len()
}

/// The NetMD level among the first `k` media types: the implementation
/// profile of the last one of type `0x301`.
pub open spec fn level_among(buf: Seq<u8>, start: int, k: int) -> Option<u8>
    decreases k,
{
    if k <= 0 {
        None
    } else {
        let e = start + 8 * (k - 1);
        if buf[e] as int * 256 + buf[e + 1] as int == 0x301 {
            Some(buf[e + 2])
        } else {
            level_among(buf, start, k - 1)
        }
    }
}

/// The NetMD level a subunit descriptor reports.
pub open spec fn subunit_level_spec(buf: Seq<u8>, list_id_size: int, root_lists: int) -> Option<u8> {
    let start = media_types_start(list_id_size, root_lists);
    level_among(buf, start, buf[start - 1] as int)
}

/// Whether every byte the walk reads is present (see [`subunit_fits_spec`]).
pub fn subunit_fits(d: &SubunitDescriptor) -> (b: bool)
    requires
        d.list_id_size <= 0xff,
        d.root_lists <= 0xffff,
    ensures
        b == subunit_fits_spec(d.buffer@, d.list_id_size as int, d.root_lists as int),
{
    assert(d.root_lists * d.list_id_size <= 0xffff * 0xff) by (nonlinear_arith)
        requires
            d.list_id_size <= 0xff,
            d.root_lists <= 0xffff,
    ;
    let start = d.root_lists * d.list_id_size + 7;
    if start > d.buffer.len() {
        return false;
    }
    let amt = d.buffer[start - 1] as usize;
    start + 8 * amt <= d.buffer.len()
}

/// The NetMD level in a subunit descriptor: the implementation profile of
/// the last supported media type `0x301`, if any.
pub fn subunit_level(d: &SubunitDescriptor) -> (r: Option<u8>)
    requires
        d.list_id_size <= 0xff,
        d.root_lists <= 0xffff,
        subunit_fits_spec(d.buffer@, d.list_id_size as int, d.root_lists as int),
    ensures
        r == subunit_level_spec(d.buffer@, d.list_id_size as int, d.root_lists as int),
{
    assert(d.root_lists * d.list_id_size <= 0xffff * 0xff) by (nonlinear_arith)
        requires
            d.list_id_size <= 0xff,
            d.root_lists <= 0xffff,
    ;
    let start = d.root_lists * d.list_id_size + 7;
    let amt = d.buffer[start - 1] as usize;
    let mut level: Option<u8> = None;
    let mut k: usize = 0;
    while k < amt
        invariant
            start == media_types_start(d.list_id_size as int, d.root_lists as int),
            amt == d.buffer@[start - 1],
            start + 8 * amt <= d.buffer@.len(),
            start <= 0xffff * 0xff + 7,
            amt <= 0xff,
            k <= amt,
            level == level_among(d.buffer@, start as int, k as int),
        decreases amt - k,
    {
        let e = start + 8 * k;
        let t = d.buffer[e] as u16 * 256 + d.buffer[e + 1] as u16;
        if t == 0x301 {
            level = Some(d.buffer[e + 2]);
        }
        k = k + 1;
    }
    level
}

} // verus!
