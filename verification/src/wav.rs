//! WAV/RIFF inspection of upload payloads.
//!
//! Walks the RIFF chunk list to find the `fmt ` and `data` chunks, detects
//! 2-channel 44.1 kHz ATRAC3 streams (format tag `0x0270`) and picks their
//! wire format from the byte rate.

use vstd::prelude::*;
use crate::error::{NetMDError, WavProblem};
use crate::types::Wireformat;

verus! {

/// Sony ATRAC3 WAVE format tag.
pub const WAVE_FORMAT_SONY_ATRAC3: u16 = 0x0270;

/// Microsoft PCM WAVE format tag.
pub const WAVE_FORMAT_PCM: u16 = 0x0001;

/// The fields of a WAVE `fmt ` chunk that uploads need.
#[derive(Debug, Clone, Copy, PartialEq, Eq, Structural)]
pub struct WavFmt {
    pub format_tag: u16,
    pub channels: u16,
    pub sample_rate: u32,
    pub byte_rate: u32,
    pub block_align: u16,
}

/// A parsed WAV file: its format and where its `data` chunk lies.
#[derive(Debug, Clone, Copy, PartialEq, Eq, Structural)]
pub struct WavInfo {
    pub fmt: WavFmt,
    pub data_offset: usize,
    pub data_len: usize,
}

/// Little-endian 16-bit value at `o`.
pub open spec fn u16_le_spec(d: Seq<u8>, o: int) -> u16 {
    (d[o] + 256 * d[o + 1]) as u16
}

/// Little-endian 32-bit value at `o`.
pub open spec fn u32_le_spec(d: Seq<u8>, o: int) -> u32 {
    (d[o] + 256 * d[o + 1] + 65536 * d[o + 2] + 16777216 * d[o + 3]) as u32
}

fn u16_le(b: &[u8], o: usize) -> (v: u16)
    requires
        o + 2 <= b@.len(),
    ensures
        v == u16_le_spec(b@, o as int),
{
    b[o] as u16 + 256 * (b[o + 1] as u16)
}

fn u32_le(b: &[u8], o: usize) -> (v: u32)
    requires
        o + 4 <= b@.len(),
    ensures
        v == u32_le_spec(b@, o as int),
{
    b[o] as u32 + 256 * (b[o + 1] as u32) + 65536 * (b[o + 2] as u32) + 16777216 * (b[o + 3] as u32)
}

/// Whether the four bytes at `o` spell `tag`.
pub open spec fn tag_at(d: Seq<u8>, o: int, tag: Seq<u8>) -> bool {
    0 <= o && o + 4 <= d.len() && d.subrange(o, o + 4) == tag
}

pub open spec fn riff_tag() -> Seq<u8> {
    seq![0x52u8, 0x49u8, 0x46u8, 0x46u8]
}

pub open spec fn wave_tag() -> Seq<u8> {
    seq![0x57u8, 0x41u8, 0x56u8, 0x45u8]
}

pub open spec fn fmt_tag() -> Seq<u8> {
    seq![0x66u8, 0x6du8, 0x74u8, 0x20u8]
}

pub open spec fn data_tag() -> Seq<u8> {
    seq![0x64u8, 0x61u8, 0x74u8, 0x61u8]
}

/// Whether the payload starts with a `RIFF....WAVE` header.
pub open spec fn is_riff_wave(d: Seq<u8>) -> bool {
    d.len() >= 12 && tag_at(d, 0, riff_tag()) && tag_at(d, 8, wave_tag())
}

/// The `fmt ` fields of a chunk body starting at `b`.
pub open spec fn fmt_at(d: Seq<u8>, b: int) -> WavFmt {
    WavFmt {
        format_tag: u16_le_spec(d, b),
        channels: u16_le_spec(d, b + 2),
        sample_rate: u32_le_spec(d, b + 4),
        byte_rate: u32_le_spec(d, b + 8),
        block_align: u16_le_spec(d, b + 14),
    }
}

/// The chunk walk from `pos`: the last complete `fmt ` chunk of at least
/// 16 bytes and the last `data` chunk seen, stopping at the first chunk that
/// runs past the end, or as soon as both have been seen.
pub open spec fn chunk_walk(d: Seq<u8>, pos: int, fmt: Option<WavFmt>, data: Option<(int, int)>) -> (
    Option<WavFmt>,
    Option<(int, int)>,
)
    decreases d.len() - pos,
{
    if pos < 0 || pos + 8 > d.len() {
        (fmt, data)
    } else {
        let size = u32_le_spec(d, pos + 4) as int;
        let body = pos + 8;
        if body + size > d.len() {
            (fmt, data)
        } else {
            let fmt2 = if tag_at(d, pos, fmt_tag()) && size >= 16 {
                Some(fmt_at(d, body))
            } else {
                fmt
            };
            let data2 = if tag_at(d, pos, data_tag()) {
                Some((body, size))
            } else {
                data
            };
            let next = body + size + size % 2;
            if fmt2 is Some && data2 is Some || next + 8 > d.len() {
                (fmt2, data2)
            } else {
                chunk_walk(d, next, fmt2, data2)
            }
        }
    }
}

/// What [`parse_wav`] makes of a payload.
pub open spec fn parse_wav_spec(d: Seq<u8>) -> Result<(WavFmt, int, int), WavProblem> {
    if !is_riff_wave(d) {
        Err(WavProblem::NotRiffWave)
    } else {
        match chunk_walk(d, 12, None, None) {
            (None, _) => Err(WavProblem::MissingFmt),
            (Some(_), None) => Err(WavProblem::MissingData),
            (Some(f), Some((off, len))) => Ok((f, off, len)),
        }
    }
}

proof fn lemma_walk_bounds(d: Seq<u8>, pos: int, fmt: Option<WavFmt>, data: Option<(int, int)>)
    requires
        data matches Some((o, l)) ==> 0 <= o && 0 <= l && o + l <= d.len(),
    ensures
        chunk_walk(d, pos, fmt, data).1 matches Some((o, l)) ==> 0 <= o && 0 <= l && o + l <= d.len(),
    decreases d.len() - pos,
{
    if !(pos < 0 || pos + 8 > d.len()) {
        let size = u32_le_spec(d, pos + 4) as int;
        let body = pos + 8;
        if body + size <= d.len() {
            let fmt2 = if tag_at(d, pos, fmt_tag()) && size >= 16 {
                Some(fmt_at(d, body))
            } else {
                fmt
            };
            let data2 = if tag_at(d, pos, data_tag()) {
                Some((body, size))
            } else {
                data
            };
            let next = body + size + size % 2;
            if !(fmt2 is Some && data2 is Some || next + 8 > d.len()) {
                lemma_walk_bounds(d, next, fmt2, data2);
            }
        }
    }
}

fn tag_is(d: &[u8], o: usize, t0: u8, t1: u8, t2: u8, t3: u8) -> (r: bool)
    requires
        o + 4 <= d@.len(),
    ensures
        r == (d@.subrange(o as int, o + 4) == seq![t0, t1, t2, t3]),
{
    let r = d[o] == t0 && d[o + 1] == t1 && d[o + 2] == t2 && d[o + 3] == t3;
    if r {
        assert(d@.subrange(o as int, o + 4) =~= seq![t0, t1, t2, t3]);
    } else {
        assert(d@.subrange(o as int, o + 4) != seq![t0, t1, t2, t3]) by {
            if d@.subrange(o as int, o + 4) == seq![t0, t1, t2, t3] {
                assert(d@.subrange(o as int, o + 4)[0] == t0);
                assert(d@.subrange(o as int, o + 4)[1] == t1);
                assert(d@.subrange(o as int, o + 4)[2] == t2);
                assert(d@.subrange(o as int, o + 4)[3] == t3);
            }
        }
    }
    r
}

fn read_fmt(d: &[u8], b: usize) -> (f: WavFmt)
    requires
        b + 16 <= d@.len(),
    ensures
        f == fmt_at(d@, b as int),
{
    let n = d.len();
    assert(b + 16 <= n);
    WavFmt {
        format_tag: u16_le(d, b),
        channels: u16_le(d, b + 2),
        sample_rate: u32_le(d, b + 4),
        byte_rate: u32_le(d, b + 8),
        block_align: u16_le(d, b + 14),
    }
}

fn is_riff_wave_exec(data: &[u8]) -> (r: bool)
    ensures
        r == is_riff_wave(data@),
{
    data.len() >= 12 && tag_is(data, 0, 0x52, 0x49, 0x46, 0x46) && tag_is(data, 8, 0x57, 0x41, 0x56, 0x45)
}

/// Parses a RIFF/WAVE payload, locating its `fmt ` and `data` chunks.
pub fn parse_wav(data: &[u8]) -> (r: Result<WavInfo, NetMDError>)
    ensures
        match parse_wav_spec(data@) {
            Ok((f, off, len)) => r matches Ok(info) && info.fmt == f && info.data_offset == off
                && info.data_len == len,
            Err(p) => r matches Err(e) && e == NetMDError::InvalidWav(p),
        },
        r matches Ok(info) ==> info.data_offset + info.data_len <= data@.len(),
{
    if !is_riff_wave_exec(data) {
        return Err(NetMDError::InvalidWav(WavProblem::NotRiffWave));
    }
    let len = data.len();
    let mut fmt: Option<WavFmt> = None;
    let mut data_chunk: Option<(usize, usize)> = None;
    let mut pos: usize = 12;
    proof {
        lemma_walk_bounds(data@, 12, None, None);
    }
    loop
        invariant_except_break
            len == data@.len(),
            pos >= 12,
            pos <= len,
            data_chunk matches Some((o, l)) ==> o + l <= len,
            chunk_walk(data@, 12, None, None) == chunk_walk(
                data@,
                pos as int,
                fmt,
                match data_chunk {
                    Some((o, l)) => Some((o as int, l as int)),
                    None => None,
                },
            ),
        ensures
            chunk_walk(data@, 12, None, None) == (
                fmt,
                match data_chunk {
                    Some((o, l)) => Some((o as int, l as int)),
                    None => None,
                },
            ),
            data_chunk matches Some((o, l)) ==> o + l <= data@.len(),
        decreases len - pos,
    {
        if len - pos < 8 {
            break;
        }
        let size = u32_le(data, pos + 4) as usize;
        let body_start = pos + 8;
        if size > len - body_start {
            break;
        }
        let is_fmt = tag_is(data, pos, 0x66, 0x6d, 0x74, 0x20);
        let is_data = tag_is(data, pos, 0x64, 0x61, 0x74, 0x61);
        if is_fmt && size >= 16 {
            fmt = Some(read_fmt(data, body_start));
        }
        if is_data {
            data_chunk = Some((body_start, size));
        }
        if data_chunk.is_some() && fmt.is_some() {
            break;
        }
        let advance = size + (size % 2);
        if advance > len - body_start || len - (body_start + advance) < 8 {
            break;
        }
        pos = body_start + advance;
    }
    let fmt = match fmt {
        Some(f) => f,
        None => {
            return Err(NetMDError::InvalidWav(WavProblem::MissingFmt));
        },
    };
    let (data_offset, data_len) = match data_chunk {
        Some(c) => c,
        None => {
            return Err(NetMDError::InvalidWav(WavProblem::MissingData));
        },
    };
    Ok(WavInfo { fmt, data_offset, data_len })
}

/// The ATRAC3 wire format a `fmt ` chunk describes, chosen by byte rate,
/// when it is a 2-channel 44.1 kHz ATRAC3 stream.
pub open spec fn atrac3_wireformat_spec(f: WavFmt) -> Option<Wireformat> {
    if f.format_tag != 0x0270 || f.channels != 2 || f.sample_rate != 44100 {
        None
    } else if f.byte_rate > 16000 {
        Some(Wireformat::Lp2)
    } else if f.byte_rate > 13000 {
        Some(Wireformat::L105kbps)
    } else if f.byte_rate > 8000 {
        Some(Wireformat::Lp4)
    } else {
        None
    }
}

/// A 2-channel 44.1 kHz ATRAC3 stream is read by its byte rate: above
/// 16000 bytes a second it is LP2 (132 kbps), above 13000 up to 16000 the
/// 105 kbps mode, above 8000 up to 13000 LP4 (66 kbps), and at 8000 or
/// less no wire format. So each ATRAC3 wire format comes from some byte
/// rate, and PCM from none.
pub proof fn lemma_atrac3_byte_rates(f: WavFmt)
    requires
        f.format_tag == 0x0270,
        f.channels == 2,
        f.sample_rate == 44100,
    ensures
        f.byte_rate > 16000 ==> atrac3_wireformat_spec(f) == Some(Wireformat::Lp2),
        13000 < f.byte_rate <= 16000 ==> atrac3_wireformat_spec(f) == Some(Wireformat::L105kbps),
        8000 < f.byte_rate <= 13000 ==> atrac3_wireformat_spec(f) == Some(Wireformat::Lp4),
        f.byte_rate <= 8000 ==> atrac3_wireformat_spec(f) is None,
        atrac3_wireformat_spec(f) != Some(Wireformat::Pcm),
{
}

/// The ATRAC3 wire format of a `fmt ` chunk (see [`atrac3_wireformat_spec`]).
pub fn atrac3_wireformat(fmt: &WavFmt) -> (r: Option<Wireformat>)
    ensures
        r == atrac3_wireformat_spec(*fmt),
{
    if fmt.format_tag != WAVE_FORMAT_SONY_ATRAC3 || fmt.channels != 2 {
        return None;
    }
    if fmt.sample_rate != 44100 {
        return None;
    }
    if fmt.byte_rate > 16000 {
        Some(Wireformat::Lp2)
    } else if fmt.byte_rate > 13000 {
        Some(Wireformat::L105kbps)
    } else if fmt.byte_rate > 8000 {
        Some(Wireformat::Lp4)
    } else {
        None
    }
}

/// Outcome of looking for the `fmt ` chunk in a payload prefix.
#[derive(Debug, Clone, Copy, PartialEq, Eq, Structural)]
pub enum FmtProbe {
    /// Not a RIFF/WAVE payload.
    NotRiff,
    /// The `fmt ` chunk, found within the prefix.
    Found(WavFmt),
    /// The `fmt ` chunk is not (entirely) within the prefix.
    Truncated,
}

/// Looking for the `fmt ` chunk from `pos` on, skipping other chunks
/// without requiring their bodies to be present.
pub open spec fn fmt_walk(d: Seq<u8>, pos: int) -> FmtProbe
    decreases d.len() - pos,
{
    if pos < 0 || pos + 8 > d.len() {
        FmtProbe::Truncated
    } else {
        let size = u32_le_spec(d, pos + 4) as int;
        let body = pos + 8;
        if tag_at(d, pos, fmt_tag()) {
            if size < 16 || body + 16 > d.len() {
                FmtProbe::Truncated
            } else {
                FmtProbe::Found(fmt_at(d, body))
            }
        } else {
            let next = body + size + size % 2;
            if next + 8 > d.len() {
                FmtProbe::Truncated
            } else {
                fmt_walk(d, next)
            }
        }
    }
}

/// The `fmt ` chunk of a RIFF/WAVE prefix (see [`fmt_walk`]).
pub fn parse_wav_fmt(data: &[u8]) -> (r: FmtProbe)
    ensures
        r == (if !is_riff_wave(data@) {
            FmtProbe::NotRiff
        } else {
            fmt_walk(data@, 12)
        }),
{
    if !is_riff_wave_exec(data) {
        return FmtProbe::NotRiff;
    }
    let len = data.len();
    let mut pos: usize = 12;
    loop
        invariant
            len == data@.len(),
            is_riff_wave(data@),
            pos <= len,
            fmt_walk(data@, 12) == fmt_walk(data@, pos as int),
        decreases len - pos,
    {
        if len - pos < 8 {
            return FmtProbe::Truncated;
        }
        let size = u32_le(data, pos + 4) as usize;
        let body_start = pos + 8;
        if tag_is(data, pos, 0x66, 0x6d, 0x74, 0x20) {
            if size < 16 || len - body_start < 16 {
                return FmtProbe::Truncated;
            }
            return FmtProbe::Found(read_fmt(data, body_start));
        }
        let advance: u64 = size as u64 + (size as u64 % 2);
        if advance > (len - body_start) as u64 || len - (body_start + advance as usize) < 8 {
            return FmtProbe::Truncated;
        }
        pos = body_start + advance as usize;
    }
}

/// Outcome of a header-only ATRAC3 probe.
#[derive(Debug, Clone, Copy, PartialEq, Eq, Structural)]
pub enum HeaderProbe {
    /// The prefix is not a RIFF/WAVE file.
    NotWav,
    /// The `fmt ` chunk is in the prefix: `Some` format for ATRAC3, `None` otherwise.
    Found(Option<Wireformat>),
    /// The prefix is RIFF/WAVE but its `fmt ` chunk lies beyond it.
    Inconclusive,
}

/// Probes a payload prefix for an ATRAC3 stream from its `fmt ` chunk alone.
pub fn atrac3_format(header: &[u8]) -> (r: HeaderProbe)
    ensures
        r == (match (if !is_riff_wave(header@) {
            FmtProbe::NotRiff
        } else {
            fmt_walk(header@, 12)
        }) {
            FmtProbe::NotRiff => HeaderProbe::NotWav,
            FmtProbe::Found(f) => HeaderProbe::Found(atrac3_wireformat_spec(f)),
            FmtProbe::Truncated => HeaderProbe::Inconclusive,
        }),
{
    match parse_wav_fmt(header) {
        FmtProbe::NotRiff => HeaderProbe::NotWav,
        FmtProbe::Found(fmt) => HeaderProbe::Found(atrac3_wireformat(&fmt)),
        FmtProbe::Truncated => HeaderProbe::Inconclusive,
    }
}

/// The wire format and raw payload of a 2-channel 44.1 kHz ATRAC3 WAV.
pub fn atrac3_info(data: &[u8]) -> (r: Option<(Wireformat, &[u8])>)
    ensures
        match parse_wav_spec(data@) {
            Ok((f, off, len)) => match atrac3_wireformat_spec(f) {
                Some(w) => r matches Some((rw, payload)) && rw == w && payload@ == data@.subrange(off, off + len),
                None => r is None,
            },
            Err(_) => r is None,
        },
{
    let info = match parse_wav(data) {
        Ok(i) => i,
        Err(_) => {
            return None;
        },
    };
    let format = match atrac3_wireformat(&info.fmt) {
        Some(f) => f,
        None => {
            return None;
        },
    };
    let _len = data.len();
    let payload = vstd::slice::slice_subrange(data, info.data_offset, info.data_offset + info.data_len);
    Some((format, payload))
}

/// Whether a payload is a WAV file in plain PCM.
pub fn is_pcm(data: &[u8]) -> (r: bool)
    ensures
        r == (parse_wav_spec(data@) matches Ok((f, _, _)) && f.format_tag == 0x0001),
{
    match parse_wav(data) {
        Ok(i) => i.fmt.format_tag == WAVE_FORMAT_PCM,
        Err(_) => false,
    }
}

} // verus!
