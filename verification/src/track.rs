//! Upload payload framing: frame sizes per wire format and padded sizes.

use vstd::prelude::*;
use crate::types::{DiscFormat, Wireformat};

verus! {

/// Key-encryption key of the secure download.
pub const KEK: [u8; 8] = [0x14, 0xe3, 0x83, 0x4e, 0xe2, 0xd3, 0xcc, 0xa5];

/// Content ID sent when setting up a download.
pub const CONTENT_ID: [u8; 20] = [
    0x01, 0x0f, 0x50, 0x00, 0x00, 0x04, 0x00, 0x00, 0x00, 0x48, 0xa2, 0x8d, 0x3e, 0x1a, 0x3b, 0x0c,
    0x44, 0xaf, 0x2f, 0xa0,
];

/// Bytes in one frame of a wire format.
pub open spec fn frame_size_spec(format: Wireformat) -> nat {
    match format {
        Wireformat::Pcm => 2048,
        Wireformat::Lp2 => 192,
        Wireformat::L105kbps => 152,
        Wireformat::Lp4 => 96,
    }
}

/// Bytes in one frame of a wire format.
pub fn frame_size(format: Wireformat) -> (r: usize)
    ensures
        r == frame_size_spec(format),
{
    match format {
        Wireformat::Pcm => 2048,
        Wireformat::Lp2 => 192,
        Wireformat::L105kbps => 152,
        Wireformat::Lp4 => 96,
    }
}

/// Disc format a wire format is recorded as.
pub open spec fn disc_for_wire_spec(format: Wireformat) -> DiscFormat {
    match format {
        Wireformat::Pcm => DiscFormat::SpStereo,
        Wireformat::Lp2 => DiscFormat::Lp2,
        Wireformat::L105kbps => DiscFormat::Lp2,
        Wireformat::Lp4 => DiscFormat::Lp4,
    }
}

/// Disc format a wire format is recorded as.
pub fn disc_for_wire(format: Wireformat) -> (r: DiscFormat)
    ensures
        r == disc_for_wire_spec(format),
{
    match format {
        Wireformat::Pcm => DiscFormat::SpStereo,
        Wireformat::Lp2 => DiscFormat::Lp2,
        Wireformat::L105kbps => DiscFormat::Lp2,
        Wireformat::Lp4 => DiscFormat::Lp4,
    }
}

/// A track to upload: titles, wire format and payload.
pub struct MdTrack {
    pub title: String,
    pub full_width_title: Option<String>,
    pub format: Wireformat,
    pub data: Vec<u8>,
}

/// `len` rounded up to a multiple of `fs`.
pub open spec fn padded_len(len: int, fs: int) -> int {
    if len % fs != 0 {
        len + (fs - len % fs)
    } else {
        len
    }
}

impl MdTrack {
    /// Payload size once padded to whole frames.
    pub fn total_size(&self) -> (r: usize)
        requires
            self.data@.len() + 2048 <= usize::MAX,
        ensures
            r == padded_len(self.data@.len() as int, frame_size_spec(self.format) as int),
    {
        let fs = frame_size(self.format);
        let len = self.data.len();
        if len % fs != 0 {
            len + (fs - (len % fs))
        } else {
            len
        }
    }

    /// Number of frames of the padded payload (truncated to 32 bits).
    pub fn frame_count(&self) -> (r: u32)
        requires
            self.data@.len() + 2048 <= usize::MAX,
        ensures
            r == (padded_len(self.data@.len() as int, frame_size_spec(self.format) as int) / frame_size_spec(
                self.format,
            ) as int) as u32,
    {
        (self.total_size() / frame_size(self.format)) as u32
    }
}

/// The padded size is a whole number of frames, at least the payload, and
/// less than one frame more.
pub proof fn lemma_padded_len(len: nat, fs: nat)
    requires
        fs > 0,
    ensures
        padded_len(len as int, fs as int) % (fs as int) == 0,
        len <= padded_len(len as int, fs as int) < len + fs,
{
    let r = len as int % fs as int;
    vstd::arithmetic::div_mod::lemma_fundamental_div_mod(len as int, fs as int);
    if r != 0 {
        let q = len as int / fs as int;
        assert(padded_len(len as int, fs as int) == fs * (q + 1)) by (nonlinear_arith)
            requires
                len == fs * q + r,
                padded_len(len as int, fs as int) == len + (fs - r),
        ;
        vstd::arithmetic::div_mod::lemma_mod_multiples_basic(q + 1, fs as int);
        assert((q + 1) * fs == fs * (q + 1)) by (nonlinear_arith);
    }
}

} // verus!
