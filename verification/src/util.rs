//! Parsing and formatting helpers shared across protocol modules.

use vstd::prelude::*;
use crate::error::NetMDError;
use crate::chars::{append_chars, dec_padded, dec_padded_spec};
use crate::text::chars_to_string;

verus! {

/// Appends the bytes of `src` to `dst`.
pub fn append_bytes(dst: &mut Vec<u8>, src: &[u8])
    ensures
        final(dst)@ == old(dst)@ + src@,
{
    dst.extend_from_slice(src);
    assert(final(dst)@ =~= old(dst)@ + src@);
}

/// Decimal value of a binary-coded-decimal number: each nibble, from the
/// least significant one up, is one decimal digit.
pub open spec fn bcd_value(bcd: nat) -> nat
    decreases bcd,
{
    if bcd == 0 {
        0
    } else {
        bcd % 16 + 10 * bcd_value(bcd / 16)
    }
}

/// Decodes a BCD number, nibble by nibble from the least significant one.
pub fn bcd_to_int(bcd: u16) -> (value: u16)
    ensures
        value == bcd_value(bcd as nat),
{
    let mut rest: u32 = bcd as u32;
    let mut value: u32 = 0;
    let mut scale: u32 = 1;
    while rest != 0
        invariant
            (scale == 1 && rest < 0x10000) || (scale == 10 && rest < 0x1000) || (scale == 100
                && rest < 0x100) || (scale == 1000 && rest < 0x10) || (scale == 10000 && rest == 0),
            value < 2 * scale,
            value + scale * bcd_value(rest as nat) == bcd_value(bcd as nat),
        decreases rest,
    {
        let nibble = rest & 0x0f;
        assert(rest & 0x0f == rest % 16) by (bit_vector);
        assert(rest >> 4 == rest / 16) by (bit_vector);
        let ghost old_value = value;
        let ghost old_rest = rest;
        let ghost old_scale = scale;
        value = value + nibble * scale;
        rest = rest >> 4;
        scale = scale * 10;
        assert(bcd_value(old_rest as nat) == nibble + 10 * bcd_value(rest as nat));
    }
    value as u16
}


/// Big-endian value of a byte sequence.
pub open spec fn be_value(b: Seq<u8>) -> nat
    decreases b.len(),
{
    if b.len() == 0 {
        0
    } else {
        be_value(b.drop_last()) * 256 + b.last() as nat
    }
}

/// The value of two big-endian bytes.
pub proof fn lemma_be_value_2(b: Seq<u8>)
    requires
        b.len() == 2,
    ensures
        be_value(b) == b[0] * 256 + b[1],
        be_value(b) < 0x10000,
{
    reveal_with_fuel(be_value, 3);
    assert(b.drop_last().drop_last() =~= Seq::<u8>::empty());
}

/// Reads a one-byte value; any other length is an error.
pub fn parse_u8(buf: &[u8]) -> (r: Result<u8, NetMDError>)
    ensures
        buf@.len() == 1 ==> r == Ok::<u8, NetMDError>(buf@[0]),
        buf@.len() != 1 ==> r == Err::<u8, NetMDError>(NetMDError::InvalidDataLength),
{
    if buf.len() != 1 {
        return Err(NetMDError::InvalidDataLength);
    }
    Ok(buf[0])
}

/// Reads a big-endian 16-bit value; any length but two is an error.
pub fn parse_u16(buf: &[u8]) -> (r: Result<u16, NetMDError>)
    ensures
        buf@.len() == 2 ==> r == Ok::<u16, NetMDError>(be_value(buf@) as u16),
        buf@.len() != 2 ==> r == Err::<u16, NetMDError>(NetMDError::InvalidDataLength),
{
    if buf.len() != 2 {
        return Err(NetMDError::InvalidDataLength);
    }
    proof {
        reveal_with_fuel(be_value, 3);
        assert(buf@.drop_last().drop_last() =~= Seq::<u8>::empty());
        assert(buf@.drop_last().last() == buf@[0]);
    }
    Ok(buf[0] as u16 * 256 + buf[1] as u16)
}

/// Reads a big-endian 32-bit value; any length but four is an error.
pub fn parse_u32(buf: &[u8]) -> (r: Result<u32, NetMDError>)
    ensures
        buf@.len() == 4 ==> r == Ok::<u32, NetMDError>(be_value(buf@) as u32),
        buf@.len() != 4 ==> r == Err::<u32, NetMDError>(NetMDError::InvalidDataLength),
{
    if buf.len() != 4 {
        return Err(NetMDError::InvalidDataLength);
    }
    proof {
        reveal_with_fuel(be_value, 5);
        let b = buf@;
        assert(b.drop_last().drop_last().drop_last().drop_last() =~= Seq::<u8>::empty());
        assert(b.drop_last().drop_last().drop_last().last() == b[0]);
        assert(b.drop_last().drop_last().last() == b[1]);
        assert(b.drop_last().last() == b[2]);
    }
    Ok(buf[0] as u32 * 0x1000000 + buf[1] as u32 * 0x10000 + buf[2] as u32 * 256 + buf[3] as u32)
}

/// Reads a one-byte BCD value.
pub fn parse_bcd_u8(buf: &[u8]) -> (r: Result<u8, NetMDError>)
    ensures
        buf@.len() == 1 ==> r == Ok::<u8, NetMDError>(bcd_value(buf@[0] as nat) as u8),
        buf@.len() != 1 ==> r == Err::<u8, NetMDError>(NetMDError::InvalidDataLength),
{
    let val = parse_u8(buf)?;
    Ok(bcd_to_int(val as u16) as u8)
}

/// Reads a two-byte BCD value.
pub fn parse_bcd_u16(buf: &[u8]) -> (r: Result<u16, NetMDError>)
    ensures
        buf@.len() == 2 ==> r == Ok::<u16, NetMDError>(bcd_value(be_value(buf@)) as u16),
        buf@.len() != 2 ==> r == Err::<u16, NetMDError>(NetMDError::InvalidDataLength),
{
    let val = parse_u16(buf)?;
    proof {
        reveal_with_fuel(be_value, 3);
    }
    Ok(bcd_to_int(val))
}

/// Frames in a time `[hours, minutes, seconds, frames]` (512 frames a second).
pub open spec fn time_frames_spec(t: [u32; 4]) -> int {
    ((t@[0] * 60 + t@[1]) * 60 + t@[2]) * 512 + t@[3]
}

/// Frames in a time `[hours, minutes, seconds, frames]`.
pub fn time_to_frames(time: &[u32; 4]) -> (r: u32)
    requires
        time_frames_spec(*time) <= u32::MAX,
    ensures
        r == time_frames_spec(*time),
{
    let h = time[0];
    let m = time[1];
    let s = time[2];
    let f = time[3];
    assert(h * 60 <= (h * 60 + m) * 60 * 512 + s * 512 + f) by (nonlinear_arith);
    assert((h * 60 + m) * 60 <= ((h * 60 + m) * 60 + s) * 512 + f) by (nonlinear_arith);
    assert(((h * 60 + m) * 60 + s) * 512 <= ((h * 60 + m) * 60 + s) * 512 + f) by (nonlinear_arith);
    assert(time_frames_spec(*time) == ((h * 60 + m) * 60 + s) * 512 + f);
    ((h * 60 + m) * 60 + s) * 512 + f
}

/// A frame count as `hh:mm:ss+fff`.
pub open spec fn format_frames_spec(v: u32) -> Seq<char> {
    let f = v % 512;
    let secs = v / 512;
    let s = secs % 60;
    let mins = secs / 60;
    let m = mins % 60;
    let h = mins / 60;
    dec_padded_spec(h as nat, 2) + seq![':'] + dec_padded_spec(m as nat, 2) + seq![':'] + dec_padded_spec(
        s as nat,
        2,
    ) + seq!['+'] + dec_padded_spec(f as nat, 3)
}

/// Formats a frame count as `hh:mm:ss+fff` (hours, minutes, seconds, frames).
pub fn format_time_from_frames(value: u32) -> (r: String)
    ensures
        r@ == format_frames_spec(value),
{
    let f = value % 512;
    let value = (value - f) / 512;
    let s = value % 60;
    let value = (value - s) / 60;
    let m = value % 60;
    let h = (value - m) / 60;
    let mut out: Vec<char> = dec_padded(h as u64, 2);
    out.push(':');
    let mm = dec_padded(m as u64, 2);
    append_chars(&mut out, mm.as_slice());
    out.push(':');
    let ss = dec_padded(s as u64, 2);
    append_chars(&mut out, ss.as_slice());
    out.push('+');
    let ff = dec_padded(f as u64, 3);
    append_chars(&mut out, ff.as_slice());
    chars_to_string(out.as_slice())
}

/// Splitting a frame count into hours, minutes, seconds and frames and
/// counting the frames again gives the count back.
pub proof fn lemma_frames_round_trip(v: u32)
    ensures
        ({
            let f = v % 512;
            let secs = v / 512;
            let s = secs % 60;
            let mins = secs / 60;
            let m = mins % 60;
            let h = mins / 60;
            ((h * 60 + m) * 60 + s) * 512 + f == v
        }),
{
    let f = v % 512;
    let secs = v / 512;
    let s = secs % 60;
    let mins = secs / 60;
    let m = mins % 60;
    let h = mins / 60;
    assert(h * 60 + m == mins);
    assert(mins * 60 + s == secs);
    assert(secs * 512 + f == v);
}

/// A time whose minutes and seconds are below 60 and whose frames are below
/// 512 is split back into itself.
pub proof fn lemma_time_round_trip(t: [u32; 4])
    requires
        t@[1] < 60,
        t@[2] < 60,
        t@[3] < 512,
        time_frames_spec(t) <= u32::MAX,
    ensures
        ({
            let v = time_frames_spec(t);
            &&& v % 512 == t@[3]
            &&& (v / 512) % 60 == t@[2]
            &&& (v / 512 / 60) % 60 == t@[1]
            &&& v / 512 / 60 / 60 == t@[0]
        }),
{
    let h = t@[0] as int;
    let m = t@[1] as int;
    let s = t@[2] as int;
    let f = t@[3] as int;
    let v = ((h * 60 + m) * 60 + s) * 512 + f;
    assert(v % 512 == f && v / 512 == (h * 60 + m) * 60 + s) by (nonlinear_arith)
        requires
            v == ((h * 60 + m) * 60 + s) * 512 + f,
            0 <= f < 512,
            h >= 0,
            0 <= m < 60,
            0 <= s < 60,
    ;
    let secs = (h * 60 + m) * 60 + s;
    assert(secs % 60 == s && secs / 60 == h * 60 + m) by (nonlinear_arith)
        requires
            secs == (h * 60 + m) * 60 + s,
            0 <= s < 60,
            h >= 0,
            0 <= m < 60,
    ;
    let mins = h * 60 + m;
    assert(mins % 60 == m && mins / 60 == h) by (nonlinear_arith)
        requires
            mins == h * 60 + m,
            0 <= m < 60,
            h >= 0,
    ;
}

/// What `encoding_rs::SHIFT_JIS.encode` makes of a string: the encoded bytes,
/// and whether some character had no Shift-JIS mapping.
pub uninterp spec fn sjis_encode_of(s: Seq<char>) -> (Seq<u8>, bool);

/// What `encoding_rs::SHIFT_JIS.decode` makes of bytes (after its BOM
/// sniffing): the decoded text, and whether malformed input was replaced.
pub uninterp spec fn sjis_decode_of(b: Seq<u8>) -> (Seq<char>, bool);

/// `encoding_rs::SHIFT_JIS.encode`: its bytes and error flag are named
/// [`sjis_encode_of`] of the input; nothing else is claimed. (The crate only
/// panics when a buffer size overflows `usize`, which no in-memory string reaches.)
#[verifier::external_body]
pub(crate) fn sjis_encode_raw(s: &str) -> (r: (Vec<u8>, bool))
    ensures
        r.0@ == sjis_encode_of(s@).0,
        r.1 == sjis_encode_of(s@).1,
{
    let (encoded, _encoding, errors) = encoding_rs::SHIFT_JIS.encode(s);
    (encoded.into_owned(), errors)
}

/// `encoding_rs::SHIFT_JIS.decode`: its text and error flag are named
/// [`sjis_decode_of`] of the input; nothing else is claimed.
#[verifier::external_body]
fn sjis_decode_raw(b: &[u8]) -> (r: (String, bool))
    ensures
        r.0@ == sjis_decode_of(b@).0,
        r.1 == sjis_decode_of(b@).1,
{
    let (decoded, _encoding, errors) = encoding_rs::SHIFT_JIS.decode(b);
    (decoded.into_owned(), errors)
}

/// Decodes a Shift-JIS title; malformed input is an error.
pub fn parse_string(buf: &[u8]) -> (r: Result<String, NetMDError>)
    ensures
        !sjis_decode_of(buf@).1 ==> (r matches Ok(s) && s@ == sjis_decode_of(buf@).0),
        sjis_decode_of(buf@).1 ==> (r matches Err(e) && e == NetMDError::TextEncoding),
{
    let (title, errors) = sjis_decode_raw(buf);
    if errors {
        return Err(NetMDError::TextEncoding);
    }
    Ok(title)
}

/// Encodes a title in Shift-JIS; a character without a mapping is an error.
pub fn encode_to_sjis(utf8: &str) -> (r: Result<Vec<u8>, NetMDError>)
    ensures
        !sjis_encode_of(utf8@).1 ==> (r matches Ok(v) && v@ == sjis_encode_of(utf8@).0),
        sjis_encode_of(utf8@).1 ==> (r matches Err(e) && e == NetMDError::TextEncoding),
{
    let (encoded, errors) = sjis_encode_raw(utf8);
    if errors {
        return Err(NetMDError::TextEncoding);
    }
    Ok(encoded)
}

/// Length of a title once encoded in Shift-JIS.
pub fn get_length_after_sjis_encode(utf8: &str) -> (r: Result<usize, NetMDError>)
    ensures
        !sjis_encode_of(utf8@).1 ==> (r matches Ok(n) && n == sjis_encode_of(utf8@).0.len()),
        sjis_encode_of(utf8@).1 ==> (r matches Err(e) && e == NetMDError::TextEncoding),
{
    let encoded = encode_to_sjis(utf8)?;
    Ok(encoded.len())
}

} // verus!
