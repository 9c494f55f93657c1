//! Per-track commands: titles, count, information, flags, erase and move.

use vstd::prelude::*;
use vstd::slice::slice_to_vec;
use crate::error::NetMDError;
use crate::query::{be16, be32, Query, QueryBuilder};
use crate::scan::{scan, scan_spec};
use crate::util::{bcd_value, be_value, parse_bcd_u8, parse_string, parse_u16, parse_u8, sjis_decode_of};
use crate::descriptor::Descriptor;
use crate::types::{ChannelCount, Encoding};
pub use crate::title::sanitize_title;

verus! {

/// Query of a track title (0-based track; `0x02` half-width, `0x03` full-width).
pub fn track_title_query(track: u16, table: u8) -> (q: Query)
    ensures
        q.0@ == seq![0x00u8, 0x18u8, 0x06u8, 0x02u8, 0x20u8, 0x18u8] + seq![table] + be16(track) + seq![0x30u8, 0x00u8, 0x0au8, 0x00u8, 0xffu8, 0x00u8, 0x00u8, 0x00u8, 0x00u8, 0x00u8],
{
    let b = QueryBuilder::new();
    let lit: Vec<u8> = vec![0x00u8, 0x18u8, 0x06u8, 0x02u8, 0x20u8, 0x18u8];
    assert(lit@ =~= seq![0x00u8, 0x18u8, 0x06u8, 0x02u8, 0x20u8, 0x18u8]);
    let b = b.bytes(lit.as_slice());
    let b = b.u8(table);
    let b = b.u16(track);
    let lit: Vec<u8> = vec![0x30u8, 0x00u8, 0x0au8, 0x00u8, 0xffu8, 0x00u8, 0x00u8, 0x00u8, 0x00u8, 0x00u8];
    assert(lit@ =~= seq![0x30u8, 0x00u8, 0x0au8, 0x00u8, 0xffu8, 0x00u8, 0x00u8, 0x00u8, 0x00u8, 0x00u8]);
    let b = b.bytes(lit.as_slice());
    let q = b.build();
    assert(q.0@ =~= seq![0x00u8, 0x18u8, 0x06u8, 0x02u8, 0x20u8, 0x18u8] + seq![table] + be16(track) + seq![0x30u8, 0x00u8, 0x0au8, 0x00u8, 0xffu8, 0x00u8, 0x00u8, 0x00u8, 0x00u8, 0x00u8]);
    q
}

/// The title in a track-title reply.
pub fn parse_track_title_reply(reply: &[u8]) -> (r: Result<String, NetMDError>)
    ensures
        match scan_spec("%? 1806 022018%? %?%? %?%? %?%? 1000 00%?0000 00%?000a %x"@, reply@) {
            None => r matches Err(e) && e == NetMDError::Scan,
            Some(p) => if p.len() >= 1 { (!sjis_decode_of(p[0]).1 ==> (r matches Ok(s) && s@ == sjis_decode_of(p[0]).0)) && (sjis_decode_of(p[0]).1 ==> (r matches Err(e) && e == NetMDError::TextEncoding)) } else { r matches Err(e) && e == NetMDError::UnexpectedResponse },
        },
{
    let p = match scan("%? 1806 022018%? %?%? %?%? %?%? 1000 00%?0000 00%?000a %x", reply) {
        Ok(p) => p,
        Err(e) => {
            return Err(e);
        },
    };
    if p.len() < 1 {
        return Err(NetMDError::UnexpectedResponse);
    }
    parse_string(p[0])
}

/// Query of the number of tracks.
pub fn track_count_query() -> (q: Query)
    ensures
        q.0@ == seq![0x00u8, 0x18u8, 0x06u8, 0x02u8, 0x10u8, 0x10u8, 0x01u8, 0x30u8, 0x00u8, 0x10u8, 0x00u8, 0xffu8, 0x00u8, 0x00u8, 0x00u8, 0x00u8, 0x00u8],
{
    let b = QueryBuilder::new();
    let lit: Vec<u8> = vec![0x00u8, 0x18u8, 0x06u8, 0x02u8, 0x10u8, 0x10u8, 0x01u8, 0x30u8, 0x00u8, 0x10u8, 0x00u8, 0xffu8, 0x00u8, 0x00u8, 0x00u8, 0x00u8, 0x00u8];
    assert(lit@ =~= seq![0x00u8, 0x18u8, 0x06u8, 0x02u8, 0x10u8, 0x10u8, 0x01u8, 0x30u8, 0x00u8, 0x10u8, 0x00u8, 0xffu8, 0x00u8, 0x00u8, 0x00u8, 0x00u8, 0x00u8]);
    let b = b.bytes(lit.as_slice());
    let q = b.build();
    assert(q.0@ =~= seq![0x00u8, 0x18u8, 0x06u8, 0x02u8, 0x10u8, 0x10u8, 0x01u8, 0x30u8, 0x00u8, 0x10u8, 0x00u8, 0xffu8, 0x00u8, 0x00u8, 0x00u8, 0x00u8, 0x00u8]);
    q
}

/// The number of tracks.
pub fn parse_track_count_reply(reply: &[u8]) -> (r: Result<u8, NetMDError>)
    ensures
        match scan_spec("%? 1806 02101001 %?%? %?%? 1000 00%?0000 0006 0010000200%b"@, reply@) {
            None => r matches Err(e) && e == NetMDError::Scan,
            Some(p) => if p.len() == 1 { if p[0].len() == 1 { r == Ok::<u8, NetMDError>(p[0][0]) } else { r matches Err(e) && e == NetMDError::InvalidDataLength } } else { r matches Err(e) && e == NetMDError::UnexpectedResponse },
        },
{
    let p = match scan("%? 1806 02101001 %?%? %?%? 1000 00%?0000 0006 0010000200%b", reply) {
        Ok(p) => p,
        Err(e) => {
            return Err(e);
        },
    };
    if !(p.len() == 1) {
        return Err(NetMDError::UnexpectedResponse);
    }
    parse_u8(p[0])
}

/// Checks the reply of writing a track title.
pub fn parse_set_track_title_reply(reply: &[u8]) -> (r: Result<(), NetMDError>)
    ensures
        match scan_spec("%? 1807 022018%? %?%? 3000 0a00 5000 %?%? 0000 %?%?"@, reply@) {
            None => r matches Err(e) && e == NetMDError::Scan,
            Some(p) => r matches Ok(_),
        },
{
    let p = match scan("%? 1807 022018%? %?%? 3000 0a00 5000 %?%? 0000 %?%?", reply) {
        Ok(p) => p,
        Err(e) => {
            return Err(e);
        },
    };
    Ok(())
}

/// Query of raw per-track information.
pub fn track_info_query(track: u16, p1: u16, p2: u16) -> (q: Query)
    ensures
        q.0@ == seq![0x00u8, 0x18u8, 0x06u8, 0x02u8, 0x20u8, 0x10u8, 0x01u8] + be16(track) + be16(p1) + be16(p2) + seq![0xffu8, 0x00u8, 0x00u8, 0x00u8, 0x00u8, 0x00u8],
{
    let b = QueryBuilder::new();
    let lit: Vec<u8> = vec![0x00u8, 0x18u8, 0x06u8, 0x02u8, 0x20u8, 0x10u8, 0x01u8];
    assert(lit@ =~= seq![0x00u8, 0x18u8, 0x06u8, 0x02u8, 0x20u8, 0x10u8, 0x01u8]);
    let b = b.bytes(lit.as_slice());
    let b = b.u16(track);
    let b = b.u16(p1);
    let b = b.u16(p2);
    let lit: Vec<u8> = vec![0xffu8, 0x00u8, 0x00u8, 0x00u8, 0x00u8, 0x00u8];
    assert(lit@ =~= seq![0xffu8, 0x00u8, 0x00u8, 0x00u8, 0x00u8, 0x00u8]);
    let b = b.bytes(lit.as_slice());
    let q = b.build();
    assert(q.0@ =~= seq![0x00u8, 0x18u8, 0x06u8, 0x02u8, 0x20u8, 0x10u8, 0x01u8] + be16(track) + be16(p1) + be16(p2) + seq![0xffu8, 0x00u8, 0x00u8, 0x00u8, 0x00u8, 0x00u8]);
    q
}

/// The raw per-track information.
pub fn parse_track_info_reply(reply: &[u8]) -> (r: Result<Vec<u8>, NetMDError>)
    ensures
        match scan_spec("%? 1806 02201001 %?%? %?%? %?%? 1000 00%?0000 %x"@, reply@) {
            None => r matches Err(e) && e == NetMDError::Scan,
            Some(p) => if p.len() >= 1 { r matches Ok(v) && v@ == p[0] } else { r matches Err(e) && e == NetMDError::UnexpectedResponse },
        },
{
    let p = match scan("%? 1806 02201001 %?%? %?%? %?%? 1000 00%?0000 %x", reply) {
        Ok(p) => p,
        Err(e) => {
            return Err(e);
        },
    };
    if p.len() < 1 {
        return Err(NetMDError::UnexpectedResponse);
    }
    Ok(slice_to_vec(p[0]))
}

/// Query of a track's flags.
pub fn track_flags_query(track: u16) -> (q: Query)
    ensures
        q.0@ == seq![0x00u8, 0x18u8, 0x06u8, 0x01u8, 0x20u8, 0x10u8, 0x01u8] + be16(track) + seq![0xffu8, 0x00u8, 0x00u8, 0x01u8, 0x00u8, 0x08u8],
{
    let b = QueryBuilder::new();
    let lit: Vec<u8> = vec![0x00u8, 0x18u8, 0x06u8, 0x01u8, 0x20u8, 0x10u8, 0x01u8];
    assert(lit@ =~= seq![0x00u8, 0x18u8, 0x06u8, 0x01u8, 0x20u8, 0x10u8, 0x01u8]);
    let b = b.bytes(lit.as_slice());
    let b = b.u16(track);
    let lit: Vec<u8> = vec![0xffu8, 0x00u8, 0x00u8, 0x01u8, 0x00u8, 0x08u8];
    assert(lit@ =~= seq![0xffu8, 0x00u8, 0x00u8, 0x01u8, 0x00u8, 0x08u8]);
    let b = b.bytes(lit.as_slice());
    let q = b.build();
    assert(q.0@ =~= seq![0x00u8, 0x18u8, 0x06u8, 0x01u8, 0x20u8, 0x10u8, 0x01u8] + be16(track) + seq![0xffu8, 0x00u8, 0x00u8, 0x01u8, 0x00u8, 0x08u8]);
    q
}

/// A track's flag byte.
pub fn parse_track_flags_reply(reply: &[u8]) -> (r: Result<u8, NetMDError>)
    ensures
        match scan_spec("%? 1806 01201001 %?%? 10 00 00010008 %b"@, reply@) {
            None => r matches Err(e) && e == NetMDError::Scan,
            Some(p) => if p.len() > 0 { if p[0].len() == 1 { r == Ok::<u8, NetMDError>(p[0][0]) } else { r matches Err(e) && e == NetMDError::InvalidDataLength } } else { r matches Err(e) && e == NetMDError::UnexpectedResponse },
        },
{
    let p = match scan("%? 1806 01201001 %?%? 10 00 00010008 %b", reply) {
        Ok(p) => p,
        Err(e) => {
            return Err(e);
        },
    };
    if !(p.len() > 0) {
        return Err(NetMDError::UnexpectedResponse);
    }
    parse_u8(p[0])
}

/// Query that erases a track (0-based).
pub fn erase_track_query(track: u16) -> (q: Query)
    ensures
        q.0@ == seq![0x00u8, 0x18u8, 0x40u8, 0xffu8, 0x01u8, 0x00u8, 0x20u8, 0x10u8, 0x01u8] + be16(track),
{
    let b = QueryBuilder::new();
    let lit: Vec<u8> = vec![0x00u8, 0x18u8, 0x40u8, 0xffu8, 0x01u8, 0x00u8, 0x20u8, 0x10u8, 0x01u8];
    assert(lit@ =~= seq![0x00u8, 0x18u8, 0x40u8, 0xffu8, 0x01u8, 0x00u8, 0x20u8, 0x10u8, 0x01u8]);
    let b = b.bytes(lit.as_slice());
    let b = b.u16(track);
    let q = b.build();
    assert(q.0@ =~= seq![0x00u8, 0x18u8, 0x40u8, 0xffu8, 0x01u8, 0x00u8, 0x20u8, 0x10u8, 0x01u8] + be16(track));
    q
}

/// Query that moves a track (0-based positions).
pub fn move_track_query(source: u16, dest: u16) -> (q: Query)
    ensures
        q.0@ == seq![0x00u8, 0x18u8, 0x43u8, 0xffu8, 0x00u8, 0x00u8, 0x20u8, 0x10u8, 0x01u8] + be16(source) + seq![0x20u8, 0x10u8, 0x01u8] + be16(dest),
{
    let b = QueryBuilder::new();
    let lit: Vec<u8> = vec![0x00u8, 0x18u8, 0x43u8, 0xffu8, 0x00u8, 0x00u8, 0x20u8, 0x10u8, 0x01u8];
    assert(lit@ =~= seq![0x00u8, 0x18u8, 0x43u8, 0xffu8, 0x00u8, 0x00u8, 0x20u8, 0x10u8, 0x01u8]);
    let b = b.bytes(lit.as_slice());
    let b = b.u16(source);
    let lit: Vec<u8> = vec![0x20u8, 0x10u8, 0x01u8];
    assert(lit@ =~= seq![0x20u8, 0x10u8, 0x01u8]);
    let b = b.bytes(lit.as_slice());
    let b = b.u16(dest);
    let q = b.build();
    assert(q.0@ =~= seq![0x00u8, 0x18u8, 0x43u8, 0xffu8, 0x00u8, 0x00u8, 0x20u8, 0x10u8, 0x01u8] + be16(source) + seq![0x20u8, 0x10u8, 0x01u8] + be16(dest));
    q
}

/// Query that erases the whole disc.
pub fn erase_disc_query() -> (q: Query)
    ensures
        q.0@ == seq![0x00u8, 0x18u8, 0x40u8, 0xffu8, 0x00u8, 0x00u8],
{
    let b = QueryBuilder::new();
    let lit: Vec<u8> = vec![0x00u8, 0x18u8, 0x40u8, 0xffu8, 0x00u8, 0x00u8];
    assert(lit@ =~= seq![0x00u8, 0x18u8, 0x40u8, 0xffu8, 0x00u8, 0x00u8]);
    let b = b.bytes(lit.as_slice());
    let q = b.build();
    assert(q.0@ =~= seq![0x00u8, 0x18u8, 0x40u8, 0xffu8, 0x00u8, 0x00u8]);
    q
}

/// Checks the reply of erasing the disc.
pub fn parse_erase_disc_reply(reply: &[u8]) -> (r: Result<(), NetMDError>)
    ensures
        match scan_spec("%? 1840 00 0000"@, reply@) {
            None => r matches Err(e) && e == NetMDError::Scan,
            Some(p) => r matches Ok(_),
        },
{
    let p = match scan("%? 1840 00 0000", reply) {
        Ok(p) => p,
        Err(e) => {
            return Err(e);
        },
    };
    Ok(())
}

/// The title table of a track title: `0x03` full-width, `0x02` half-width.
pub fn title_table(w_char: bool) -> (r: u8)
    ensures
        r == (if w_char { 3u8 } else { 2u8 }),
{
    if w_char {
        3
    } else {
        2
    }
}

/// The descriptor of a track title table.
pub fn title_descriptor(w_char: bool) -> (r: Descriptor)
    ensures
        r == (if w_char { Descriptor::AudioUtoc4Td } else { Descriptor::AudioUtoc1Td }),
{
    if w_char {
        Descriptor::AudioUtoc4Td
    } else {
        Descriptor::AudioUtoc1Td
    }
}

/// The encoding a track reports: `0x90` SP, `0x92` LP2, `0x93` LP4.
pub fn track_encoding_from_byte(value: u8) -> (r: Result<Encoding, NetMDError>)
    ensures
        value == 0x90 ==> r == Ok::<Encoding, NetMDError>(Encoding::Sp),
        value == 0x92 ==> r == Ok::<Encoding, NetMDError>(Encoding::Lp2),
        value == 0x93 ==> r == Ok::<Encoding, NetMDError>(Encoding::Lp4),
        !(value == 0x90 || value == 0x92 || value == 0x93) ==> r == Err::<Encoding, NetMDError>(NetMDError::UnexpectedResponse),
{
    match value {
        0x90 => Ok(Encoding::Sp),
        0x92 => Ok(Encoding::Lp2),
        0x93 => Ok(Encoding::Lp4),
        _ => Err(NetMDError::UnexpectedResponse),
    }
}

/// The channel count a track reports: `0x00` stereo, `0x01` mono.
pub fn channel_count_from_byte(value: u8) -> (r: Result<ChannelCount, NetMDError>)
    ensures
        value == 0x00 ==> r == Ok::<ChannelCount, NetMDError>(ChannelCount::Stereo),
        value == 0x01 ==> r == Ok::<ChannelCount, NetMDError>(ChannelCount::Mono),
        value > 0x01 ==> r == Err::<ChannelCount, NetMDError>(NetMDError::UnexpectedResponse),
{
    match value {
        0x00 => Ok(ChannelCount::Stereo),
        0x01 => Ok(ChannelCount::Mono),
        _ => Err(NetMDError::UnexpectedResponse),
    }
}

/// The track length `[h, m, s, f]` in a track information block: four BCD bytes.
pub fn parse_track_length(raw: &[u8]) -> (r: Result<[u32; 4], NetMDError>)
    ensures
        match scan_spec("0001 0006 0000 %B %B %B %B"@, raw@) {
            None => r matches Err(e) && e == NetMDError::Scan,
            Some(p) => if p.len() < 4 {
                r matches Err(e) && e == NetMDError::UnexpectedResponse
            } else if p[0].len() != 1 || p[1].len() != 1 || p[2].len() != 1 || p[3].len() != 1 {
                r matches Err(e) && e == NetMDError::InvalidDataLength
            } else {
                r matches Ok(t) && t@ == seq![
                    bcd_value(p[0][0] as nat) as u8 as u32,
                    bcd_value(p[1][0] as nat) as u8 as u32,
                    bcd_value(p[2][0] as nat) as u8 as u32,
                    bcd_value(p[3][0] as nat) as u8 as u32,
                ]
            },
        },
{
    let p = match scan("0001 0006 0000 %B %B %B %B", raw) {
        Ok(p) => p,
        Err(e) => {
            return Err(e);
        },
    };
    if p.len() < 4 {
        return Err(NetMDError::UnexpectedResponse);
    }
    let h = match parse_bcd_u8(p[0]) {
        Ok(v) => v,
        Err(e) => {
            return Err(e);
        },
    };
    let m = match parse_bcd_u8(p[1]) {
        Ok(v) => v,
        Err(e) => {
            return Err(e);
        },
    };
    let sec = match parse_bcd_u8(p[2]) {
        Ok(v) => v,
        Err(e) => {
            return Err(e);
        },
    };
    let f = match parse_bcd_u8(p[3]) {
        Ok(v) => v,
        Err(e) => {
            return Err(e);
        },
    };
    let out = [h as u32, m as u32, sec as u32, f as u32];
    assert(out@ =~= seq![h as u32, m as u32, sec as u32, f as u32]);
    Ok(out)
}

/// The encoding and channel count in a track information block.
pub fn parse_track_encoding(raw: &[u8]) -> (r: Result<(Encoding, ChannelCount), NetMDError>)
    ensures
        match scan_spec("8007 0004 0110 %b %b"@, raw@) {
            None => r matches Err(e) && e == NetMDError::Scan,
            Some(p) => if p.len() < 2 {
                r matches Err(e) && e == NetMDError::UnexpectedResponse
            } else if p[0].len() != 1 {
                r matches Err(e) && e == NetMDError::InvalidDataLength
            } else if !(p[0][0] == 0x90 || p[0][0] == 0x92 || p[0][0] == 0x93) {
                r matches Err(e) && e == NetMDError::UnexpectedResponse
            } else if p[1].len() != 1 {
                r matches Err(e) && e == NetMDError::InvalidDataLength
            } else if p[1][0] > 1 {
                r matches Err(e) && e == NetMDError::UnexpectedResponse
            } else {
                r matches Ok((enc, ch)) && enc.value_spec() == p[0][0] && ch == (if p[1][0] == 0 {
                    ChannelCount::Stereo
                } else {
                    ChannelCount::Mono
                })
            },
        },
{
    let p = match scan("8007 0004 0110 %b %b", raw) {
        Ok(p) => p,
        Err(e) => {
            return Err(e);
        },
    };
    if p.len() < 2 {
        return Err(NetMDError::UnexpectedResponse);
    }
    let e = match parse_u8(p[0]) {
        Ok(v) => v,
        Err(err) => {
            return Err(err);
        },
    };
    let enc = match track_encoding_from_byte(e) {
        Ok(v) => v,
        Err(err) => {
            return Err(err);
        },
    };
    let c = match parse_u8(p[1]) {
        Ok(v) => v,
        Err(err) => {
            return Err(err);
        },
    };
    let ch = match channel_count_from_byte(c) {
        Ok(v) => v,
        Err(err) => {
            return Err(err);
        },
    };
    Ok((enc, ch))
}

/// The bytes of a title write: table, track, new and old encoded lengths, title.
pub open spec fn set_track_title_spec(track: u16, w_char: bool, new_len: u16, old_len: u16, sjis: Seq<u8>) -> Seq<u8> {
    seq![0x00u8, 0x18u8, 0x07u8, 0x02u8, 0x20u8, 0x18u8, if w_char { 3u8 } else { 2u8 }] + be16(track) + seq![0x30u8, 0x00u8, 0x0au8, 0x00u8, 0x50u8, 0x00u8] + be16(new_len)
        + seq![0x00u8, 0x00u8] + be16(old_len) + sjis
}

/// The query that writes a track title (already Shift-JIS encoded).
pub fn set_track_title_query(track: u16, w_char: bool, new_len: u16, old_len: u16, sjis: &[u8]) -> (q: Query)
    ensures
        q.0@ == set_track_title_spec(track, w_char, new_len, old_len, sjis@),
{
    let head: Vec<u8> = vec![0x00u8, 0x18u8, 0x07u8, 0x02u8, 0x20u8, 0x18u8];
    let mid: Vec<u8> = vec![0x30u8, 0x00u8, 0x0au8, 0x00u8, 0x50u8, 0x00u8];
    let zero2: Vec<u8> = vec![0x00u8, 0x00u8];
    let q = QueryBuilder::new().bytes(head.as_slice()).u8(title_table(w_char)).u16(track).bytes(mid.as_slice()).u16(
        new_len,
    ).bytes(zero2.as_slice()).u16(old_len).bytes(sjis).build();
    assert(q.0@ =~= set_track_title_spec(track, w_char, new_len, old_len, sjis@));
    q
}

} // verus!
