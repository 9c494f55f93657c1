//! Shared data types: wire enums, status words and the disc listing.

use vstd::prelude::*;
use crate::error::NetMDError;
use crate::scan::{scan, scan_spec};
use crate::secure::{hex_char, hex_digit_char};
use crate::text::string_push;

verus! {

/// USB control transfer timeout, in milliseconds.
pub const USB_TIMEOUT_MILLIS: u64 = 500;

/// Base interval between retries of an interim reply, in milliseconds.
pub const INTERIM_RETRY_INTERVAL_MS: u64 = 100;

/// How many interim replies are waited out before giving up.
pub const MAX_INTERIM_ATTEMPTS: u32 = 4;

/// Base interval between polls of the reply length, in milliseconds.
pub const READ_REPLY_POLL_INTERVAL_MS: u64 = 10;

/// Status byte at the head of every reply.
#[derive(Debug, Clone, Copy, PartialEq, Eq, Structural)]
pub enum ProtocolReply {
    Control,
    Status,
    SpecificInquiry,
    Notify,
    GeneralInquiry,
    NotImplemented,
    Accepted,
    Rejected,
    InTransition,
    Implemented,
    Changed,
    Interim,
    /// A byte the protocol does not define.
    Unknown(u8),
}

/// The status a reply byte stands for.
pub open spec fn protocol_reply_spec(value: u8) -> ProtocolReply {
    if value == 0x00 {
        ProtocolReply::Control
    } else if value == 0x01 {
        ProtocolReply::Status
    } else if value == 0x02 {
        ProtocolReply::SpecificInquiry
    } else if value == 0x03 {
        ProtocolReply::Notify
    } else if value == 0x04 {
        ProtocolReply::GeneralInquiry
    } else if value == 0x08 {
        ProtocolReply::NotImplemented
    } else if value == 0x09 {
        ProtocolReply::Accepted
    } else if value == 0x0a {
        ProtocolReply::Rejected
    } else if value == 0x0b {
        ProtocolReply::InTransition
    } else if value == 0x0c {
        ProtocolReply::Implemented
    } else if value == 0x0d {
        ProtocolReply::Changed
    } else if value == 0x0f {
        ProtocolReply::Interim
    } else {
        ProtocolReply::Unknown(value)
    }
}

impl ProtocolReply {
    /// The byte this status is sent as.
    pub open spec fn byte_spec(self) -> u8 {
        match self {
            ProtocolReply::Control => 0x00,
            ProtocolReply::Status => 0x01,
            ProtocolReply::SpecificInquiry => 0x02,
            ProtocolReply::Notify => 0x03,
            ProtocolReply::GeneralInquiry => 0x04,
            ProtocolReply::NotImplemented => 0x08,
            ProtocolReply::Accepted => 0x09,
            ProtocolReply::Rejected => 0x0a,
            ProtocolReply::InTransition => 0x0b,
            ProtocolReply::Implemented => 0x0c,
            ProtocolReply::Changed => 0x0d,
            ProtocolReply::Interim => 0x0f,
            ProtocolReply::Unknown(b) => b,
        }
    }

    /// Decodes a status byte.
    pub fn from_byte(value: u8) -> (r: ProtocolReply)
        ensures
            r == protocol_reply_spec(value),
    {
        match value {
            0x00 => ProtocolReply::Control,
            0x01 => ProtocolReply::Status,
            0x02 => ProtocolReply::SpecificInquiry,
            0x03 => ProtocolReply::Notify,
            0x04 => ProtocolReply::GeneralInquiry,
            0x08 => ProtocolReply::NotImplemented,
            0x09 => ProtocolReply::Accepted,
            0x0a => ProtocolReply::Rejected,
            0x0b => ProtocolReply::InTransition,
            0x0c => ProtocolReply::Implemented,
            0x0d => ProtocolReply::Changed,
            0x0f => ProtocolReply::Interim,
            other => ProtocolReply::Unknown(other),
        }
    }

    /// The byte this status is sent as.
    pub fn to_byte(self) -> (b: u8)
        ensures
            b == self.byte_spec(),
    {
        match self {
            ProtocolReply::Control => 0x00,
            ProtocolReply::Status => 0x01,
            ProtocolReply::SpecificInquiry => 0x02,
            ProtocolReply::Notify => 0x03,
            ProtocolReply::GeneralInquiry => 0x04,
            ProtocolReply::NotImplemented => 0x08,
            ProtocolReply::Accepted => 0x09,
            ProtocolReply::Rejected => 0x0a,
            ProtocolReply::InTransition => 0x0b,
            ProtocolReply::Implemented => 0x0c,
            ProtocolReply::Changed => 0x0d,
            ProtocolReply::Interim => 0x0f,
            ProtocolReply::Unknown(b) => b,
        }
    }
}

impl From<u8> for ProtocolReply {
    fn from(value: u8) -> (r: ProtocolReply) {
        ProtocolReply::from_byte(value)
    }
}

impl vstd::std_specs::convert::FromSpecImpl<u8> for ProtocolReply {
    open spec fn obeys_from_spec() -> bool {
        true
    }

    open spec fn from_spec(v: u8) -> ProtocolReply {
        protocol_reply_spec(v)
    }
}

/// Every status byte is sent back as itself.
pub proof fn lemma_protocol_reply_round_trip(value: u8)
    ensures
        protocol_reply_spec(value).byte_spec() == value,
{
}

/// Disc recording format.
#[derive(Debug, Clone, Copy, PartialEq, Eq, Structural)]
pub enum DiscFormat {
    Lp4,
    Lp2,
    SpMono,
    SpStereo,
}

impl DiscFormat {
    pub open spec fn value_spec(self) -> u8 {
        match self {
            DiscFormat::Lp4 => 0,
            DiscFormat::Lp2 => 2,
            DiscFormat::SpMono => 4,
            DiscFormat::SpStereo => 6,
        }
    }

    /// The byte sent for this format.
    pub fn value(self) -> (b: u8)
        ensures
            b == self.value_spec(),
    {
        match self {
            DiscFormat::Lp4 => 0,
            DiscFormat::Lp2 => 2,
            DiscFormat::SpMono => 4,
            DiscFormat::SpStereo => 6,
        }
    }
}

/// Format of the audio payload sent to the device.
#[derive(Debug, Clone, Copy, PartialEq, Eq, Structural)]
pub enum Wireformat {
    Pcm,
    L105kbps,
    Lp2,
    Lp4,
}

impl Wireformat {
    pub open spec fn value_spec(self) -> u8 {
        match self {
            Wireformat::Pcm => 0,
            Wireformat::L105kbps => 0x90,
            Wireformat::Lp2 => 0x94,
            Wireformat::Lp4 => 0xa8,
        }
    }

    /// The byte sent for this format.
    pub fn value(self) -> (b: u8)
        ensures
            b == self.value_spec(),
    {
        match self {
            Wireformat::Pcm => 0,
            Wireformat::L105kbps => 0x90,
            Wireformat::Lp2 => 0x94,
            Wireformat::Lp4 => 0xa8,
        }
    }
}

/// Encoding of a recorded track.
#[derive(Debug, Clone, Copy, PartialEq, Eq, Structural)]
pub enum Encoding {
    Sp,
    Lp2,
    Lp4,
}

impl Encoding {
    pub open spec fn value_spec(self) -> u8 {
        match self {
            Encoding::Sp => 0x90,
            Encoding::Lp2 => 0x92,
            Encoding::Lp4 => 0x93,
        }
    }

    /// The byte the device reports for this encoding.
    pub fn value(self) -> (b: u8)
        ensures
            b == self.value_spec(),
    {
        match self {
            Encoding::Sp => 0x90,
            Encoding::Lp2 => 0x92,
            Encoding::Lp4 => 0x93,
        }
    }
}

/// Channel mode byte.
#[derive(Debug, Clone, Copy, PartialEq, Eq, Structural)]
pub enum Channels {
    Mono,
    Stereo,
}

impl Channels {
    pub open spec fn value_spec(self) -> u8 {
        match self {
            Channels::Mono => 0x01,
            Channels::Stereo => 0x00,
        }
    }

    /// The byte sent for this channel mode.
    pub fn value(self) -> (b: u8)
        ensures
            b == self.value_spec(),
    {
        match self {
            Channels::Mono => 0x01,
            Channels::Stereo => 0x00,
        }
    }
}

/// Number of audio channels of a track.
#[derive(Debug, Clone, Copy, PartialEq, Eq, Structural)]
pub enum ChannelCount {
    Mono,
    Stereo,
}

impl ChannelCount {
    pub open spec fn value_spec(self) -> u8 {
        match self {
            ChannelCount::Mono => 1,
            ChannelCount::Stereo => 2,
        }
    }

    /// The channel count as a number.
    pub fn value(self) -> (b: u8)
        ensures
            b == self.value_spec(),
    {
        match self {
            ChannelCount::Mono => 1,
            ChannelCount::Stereo => 2,
        }
    }
}

/// Copy protection of a track.
#[derive(Debug, Clone, Copy, PartialEq, Eq, Structural)]
pub enum TrackFlag {
    Protected,
    Unprotected,
}

impl TrackFlag {
    pub open spec fn value_spec(self) -> u8 {
        match self {
            TrackFlag::Protected => 0x03,
            TrackFlag::Unprotected => 0x00,
        }
    }

    /// The flag byte of this state.
    pub fn value(self) -> (b: u8)
        ensures
            b == self.value_spec(),
    {
        match self {
            TrackFlag::Protected => 0x03,
            TrackFlag::Unprotected => 0x00,
        }
    }

    /// Reads a track-flag byte: `0x03` is protected, anything else unprotected.
    pub fn from_byte(value: u8) -> (f: TrackFlag)
        ensures
            f == (if value == 0x03 { TrackFlag::Protected } else { TrackFlag::Unprotected }),
    {
        if value == 0x03 {
            TrackFlag::Protected
        } else {
            TrackFlag::Unprotected
        }
    }
}

/// Bits of the disc flag byte.
#[derive(Debug, Clone, Copy, PartialEq, Eq, Structural)]
pub enum DiscFlag {
    Writable,
    WriteProtected,
}

impl DiscFlag {
    pub open spec fn value_spec(self) -> u8 {
        match self {
            DiscFlag::Writable => 0x10,
            DiscFlag::WriteProtected => 0x40,
        }
    }

    /// The bit of this flag.
    pub fn value(self) -> (b: u8)
        ensures
            b == self.value_spec(),
    {
        match self {
            DiscFlag::Writable => 0x10,
            DiscFlag::WriteProtected => 0x40,
        }
    }
}

/// The disc flag byte as the device reports it.
#[derive(Debug, Clone, Copy, PartialEq, Eq, Structural)]
pub struct DiscFlags {
    raw: u8,
}

impl DiscFlags {
    pub closed spec fn raw_spec(self) -> u8 {
        self.raw
    }

    /// Wraps a raw flag byte.
    pub fn from_bits(raw: u8) -> (f: DiscFlags)
        ensures
            f.raw_spec() == raw,
    {
        DiscFlags { raw }
    }

    /// The raw flag byte.
    pub fn raw(self) -> (r: u8)
        ensures
            r == self.raw_spec(),
    {
        self.raw
    }

    /// Whether the bit of `flag` is set.
    pub fn contains(self, flag: DiscFlag) -> (r: bool)
        ensures
            r == (self.raw_spec() & flag.value_spec() != 0),
    {
        self.raw & flag.value() != 0
    }

    /// Whether the write-protect bit (`0x40`) is set.
    pub fn is_write_protected(self) -> (r: bool)
        ensures
            r == (self.raw_spec() & 0x40 != 0),
    {
        self.contains(DiscFlag::WriteProtected)
    }

    /// Writable bit (`0x10`) set and write-protect bit clear.
    pub fn is_writable(self) -> (r: bool)
        ensures
            r == (self.raw_spec() & 0x10 != 0 && self.raw_spec() & 0x40 == 0),
    {
        self.contains(DiscFlag::Writable) && !self.is_write_protected()
    }

    /// The bits other than the writable and write-protect bits.
    pub fn unknown_bits(self) -> (r: u8)
        ensures
            r == self.raw_spec() & !0x50u8,
    {
        let known = DiscFlag::Writable.value() | DiscFlag::WriteProtected.value();
        assert(0x10u8 | 0x40u8 == 0x50u8) by (bit_vector);
        self.raw & !known
    }
}

/// Status mode byte and operating status word.
#[derive(Debug, Clone, Copy, PartialEq, Eq, Structural)]
pub struct FullOperatingStatus {
    pub mode: u8,
    pub status: OperatingStatus,
}

/// Operating status word of the device.
#[derive(Debug, Clone, Copy, PartialEq, Eq, Structural)]
pub enum OperatingStatus {
    Ready,
    BlankDisc,
    Unknown(u16),
}

/// The operating status a status word stands for.
pub open spec fn operating_status_spec(value: u16) -> OperatingStatus {
    if value == 0xc5ff {
        OperatingStatus::Ready
    } else if value == 0xffff {
        OperatingStatus::BlankDisc
    } else {
        OperatingStatus::Unknown(value)
    }
}

impl OperatingStatus {
    pub open spec fn raw_spec(self) -> u16 {
        match self {
            OperatingStatus::Ready => 0xc5ff,
            OperatingStatus::BlankDisc => 0xffff,
            OperatingStatus::Unknown(value) => value,
        }
    }

    /// The status word of this status.
    pub fn raw(self) -> (r: u16)
        ensures
            r == self.raw_spec(),
    {
        match self {
            OperatingStatus::Ready => 0xc5ff,
            OperatingStatus::BlankDisc => 0xffff,
            OperatingStatus::Unknown(value) => value,
        }
    }
}

/// Decodes an operating status word.
pub fn operating_status_from_u16(value: u16) -> (s: OperatingStatus)
    ensures
        s == operating_status_spec(value),
{
    if value == 0xc5ff {
        OperatingStatus::Ready
    } else if value == 0xffff {
        OperatingStatus::BlankDisc
    } else {
        OperatingStatus::Unknown(value)
    }
}

/// Decoding a status word and encoding it again gives the word back; a
/// status other than an `Unknown` that holds a known word survives the
/// opposite round trip.
pub proof fn lemma_operating_status_round_trip(value: u16, status: OperatingStatus)
    ensures
        operating_status_spec(value).raw_spec() == value,
        !(status matches OperatingStatus::Unknown(v) && (v == 0xc5ff || v == 0xffff))
            ==> operating_status_spec(status.raw_spec()) == status,
{
}

/// High-level playback state.
#[derive(Debug, Clone, Copy, PartialEq, Eq, Structural)]
pub enum PlaybackState {
    Ready,
    Playing,
    Paused,
    FastForward,
    Rewind,
    ReadingToc,
    NoDisc,
    DiscBlank,
    ReadyForTransfer,
    Unknown(u16),
}

/// The playback state an operating status word stands for.
pub open spec fn playback_state_spec(value: u16) -> PlaybackState {
    if value == 50687 {
        PlaybackState::Ready
    } else if value == 50037 {
        PlaybackState::Playing
    } else if value == 50045 {
        PlaybackState::Paused
    } else if value == 49983 {
        PlaybackState::FastForward
    } else if value == 49999 {
        PlaybackState::Rewind
    } else if value == 65315 {
        PlaybackState::ReadingToc
    } else if value == 65296 {
        PlaybackState::NoDisc
    } else if value == 65535 {
        PlaybackState::DiscBlank
    } else if value == 65319 {
        PlaybackState::ReadyForTransfer
    } else {
        PlaybackState::Unknown(value)
    }
}

impl PlaybackState {
    /// Maps an operating status word to a playback state.
    pub fn from_u16(value: u16) -> (s: PlaybackState)
        ensures
            s == playback_state_spec(value),
    {
        match value {
            50687 => PlaybackState::Ready,
            50037 => PlaybackState::Playing,
            50045 => PlaybackState::Paused,
            49983 => PlaybackState::FastForward,
            49999 => PlaybackState::Rewind,
            65315 => PlaybackState::ReadingToc,
            65296 => PlaybackState::NoDisc,
            65535 => PlaybackState::DiscBlank,
            65319 => PlaybackState::ReadyForTransfer,
            other => PlaybackState::Unknown(other),
        }
    }
}

/// Position within the current track; `minute` counts hours in too.
#[derive(Debug, Clone, Copy, PartialEq, Eq, Structural)]
pub struct PlaybackTime {
    pub minute: u32,
    pub second: u32,
    pub frame: u32,
}

/// A playback status snapshot.
#[derive(Debug, Clone, Copy, PartialEq, Eq, Structural)]
pub struct DeviceStatus {
    pub disc_present: bool,
    pub state: PlaybackState,
    pub track: Option<u32>,
    pub time: Option<PlaybackTime>,
}

/// Network MD protocol level of a device.
#[derive(Debug, Clone, Copy, PartialEq, Eq, Structural)]
pub enum NetMDLevel {
    Level1,
    Level2,
    Level3,
}

impl NetMDLevel {
    pub open spec fn value_spec(self) -> u8 {
        match self {
            NetMDLevel::Level1 => 0x20,
            NetMDLevel::Level2 => 0x50,
            NetMDLevel::Level3 => 0x70,
        }
    }

    /// The byte of this level.
    pub fn value(self) -> (b: u8)
        ensures
            b == self.value_spec(),
    {
        match self {
            NetMDLevel::Level1 => 0x20,
            NetMDLevel::Level2 => 0x50,
            NetMDLevel::Level3 => 0x70,
        }
    }
}

/// The four-byte reply-length header; its third byte is the reply length.
pub struct ReadRequestHeader(pub [u8; 4]);

impl ReadRequestHeader {
    /// A zeroed header.
    pub fn new() -> (h: ReadRequestHeader)
        ensures
            h.0@ == seq![0u8, 0u8, 0u8, 0u8],
    {
        ReadRequestHeader([0u8; 4])
    }

    /// The announced reply length.
    pub fn len(&self) -> (n: usize)
        ensures
            n == self.0@[2],
    {
        self.0[2] as usize
    }

    /// Whether no reply is waiting.
    pub fn is_empty(&self) -> (b: bool)
        ensures
            b == (self.0@[2] == 0),
    {
        self.len() == 0
    }
}

/// Each byte as `0x` and two lowercase hex digits, followed by `, `.
pub open spec fn byte_list_spec(b: Seq<u8>) -> Seq<char>
    decreases b.len(),
{
    if b.len() == 0 {
        Seq::empty()
    } else {
        byte_list_spec(b.drop_last()) + seq!['0', 'x', hex_char(b.last() / 16), hex_char(b.last() % 16), ',', ' ']
    }
}

/// A raw reply from the device.
pub struct ReadRequestData(pub Vec<u8>);

impl ReadRequestData {
    /// A zeroed buffer of `size` bytes.
    pub fn new(size: usize) -> (d: ReadRequestData)
        ensures
            d.0@ == Seq::new(size as nat, |i: int| 0u8),
    {
        let mut v: Vec<u8> = Vec::new();
        let mut i: usize = 0;
        while i < size
            invariant
                i <= size,
                v@ == Seq::new(i as nat, |k: int| 0u8),
            decreases size - i,
        {
            v.push(0);
            i = i + 1;
            assert(v@ =~= Seq::new(i as nat, |k: int| 0u8));
        }
        ReadRequestData(v)
    }

    /// The bytes as `[0x01, 0x02, ]`: each byte in two lowercase hex
    /// digits after `0x`, followed by `, `, all between brackets.
    pub fn display(&self) -> (r: String)
        ensures
            r@ == seq!['['] + byte_list_spec(self.0@) + seq![']'],
    {
        let mut s = String::new();
        string_push(&mut s, '[');
        let mut i: usize = 0;
        while i < self.0.len()
            invariant
                i <= self.0@.len(),
                s@ == seq!['['] + byte_list_spec(self.0@.take(i as int)),
            decreases self.0@.len() - i,
        {
            assert(self.0@.take(i + 1).drop_last() =~= self.0@.take(i as int));
            let b = self.0[i];
            string_push(&mut s, '0');
            string_push(&mut s, 'x');
            string_push(&mut s, hex_digit_char(b / 16));
            string_push(&mut s, hex_digit_char(b % 16));
            string_push(&mut s, ',');
            string_push(&mut s, ' ');
            i = i + 1;
            assert(s@ =~= seq!['['] + byte_list_spec(self.0@.take(i as int)));
        }
        assert(self.0@.take(self.0@.len() as int) =~= self.0@);
        string_push(&mut s, ']');
        s
    }

    /// Matches the reply against a template (see [`crate::scan`]).
    pub fn scan<'a>(&'a self, template: &str) -> (res: Result<Vec<&'a [u8]>, NetMDError>)
        ensures
            match scan_spec(template@, self.0@) {
                Some(pieces) => res matches Ok(v) && v@.len() == pieces.len() && forall|k: int|
                    0 <= k < pieces.len() ==> (#[trigger] v@[k])@ == pieces[k],
                None => res matches Err(e) && e == NetMDError::Scan,
            },
    {
        scan(template, self.0.as_slice())
    }
}

/// One track of a disc listing; `index` is 0-based, empty titles are `None`.
#[derive(Debug, Clone, PartialEq, Eq)]
pub struct Track {
    pub index: u16,
    pub title: Option<String>,
    pub full_width_title: Option<String>,
    pub duration_frames: u32,
    pub channel: ChannelCount,
    pub encoding: Encoding,
    pub protected: TrackFlag,
}

/// The characters of an optional string.
pub open spec fn opt_view(o: Option<String>) -> Option<Seq<char>> {
    match o {
        Some(s) => Some(s@),
        None => None,
    }
}

impl Track {
    /// The track as plain values.
    pub open spec fn view(&self) -> (u16, Option<Seq<char>>, Option<Seq<char>>, u32, ChannelCount, Encoding, TrackFlag) {
        (
            self.index,
            opt_view(self.title),
            opt_view(self.full_width_title),
            self.duration_frames,
            self.channel,
            self.encoding,
            self.protected,
        )
    }

    /// A copy of the track.
    pub fn duplicate(&self) -> (r: Track)
        ensures
            r.view() == self.view(),
    {
        Track {
            index: self.index,
            title: match &self.title {
                Some(t) => Some(t.clone()),
                None => None,
            },
            full_width_title: match &self.full_width_title {
                Some(t) => Some(t.clone()),
                None => None,
            },
            duration_frames: self.duration_frames,
            channel: self.channel,
            encoding: self.encoding,
            protected: self.protected,
        }
    }
}

/// A group of tracks; a `title` of `None` is the bucket of ungrouped tracks.
#[derive(Debug, Clone, PartialEq, Eq)]
pub struct Group {
    pub index: usize,
    pub title: Option<String>,
    pub full_width_title: Option<String>,
    pub tracks: Vec<Track>,
}

/// A full disc listing; capacities are in frames.
#[derive(Debug, Clone, PartialEq, Eq)]
pub struct Disc {
    pub title: String,
    pub full_width_title: String,
    pub writable: bool,
    pub write_protected: bool,
    pub used: u32,
    pub left: u32,
    pub total: u32,
    pub track_count: u8,
    pub groups: Vec<Group>,
}

} // verus!
