//! Aggregate status and listing: the device status snapshot and the
//! assembly of a disc listing from the values the device reports.

use vstd::prelude::*;
use crate::types::{
    playback_state_spec, ChannelCount, DeviceStatus, Disc, DiscFlags, Encoding, Group, PlaybackState,
    PlaybackTime, Track, TrackFlag,
};
use crate::util::{time_frames_spec, time_to_frames};

verus! {

/// The operating status word in playback status block 2 (bytes 4 and 5).
pub fn playback_status2_to_operating_status(block: &[u8]) -> (r: Option<u16>)
    ensures
        block@.len() >= 6 ==> r == Some((block@[4] * 256 + block@[5]) as u16),
        block@.len() < 6 ==> r is None,
{
    if block.len() >= 6 {
        Some((block[4] as u16) * 256 + block[5] as u16)
    } else {
        None
    }
}

/// The status snapshot: the playback state of the status word (unknown
/// without one), "playing" without a disc read as ready; the disc counts as
/// present unless the TOC is being read or there is no disc; the position
/// `[track, h, m, s, f]` gives the track and the time, minutes counting hours.
pub open spec fn device_status_spec(operating_status: Option<u16>, disc_present: bool, position: Option<[u32; 5]>) -> DeviceStatus {
    let state0 = match operating_status {
        Some(v) => playback_state_spec(v),
        None => PlaybackState::Unknown(0),
    };
    let state = if state0 == PlaybackState::Playing && !disc_present {
        PlaybackState::Ready
    } else {
        state0
    };
    DeviceStatus {
        disc_present: disc_present && !(state == PlaybackState::ReadingToc || state == PlaybackState::NoDisc),
        state,
        track: match position {
            Some(p) => Some(p@[0]),
            None => None,
        },
        time: match position {
            Some(p) => Some(PlaybackTime { minute: (p@[2] + p@[1] * 60) as u32, second: p@[3], frame: p@[4] }),
            None => None,
        },
    }
}

/// Derives the status snapshot from the status word, disc presence and position.
pub fn derive_device_status(operating_status: Option<u16>, disc_present: bool, position: Option<[u32; 5]>) -> (s: DeviceStatus)
    requires
        position matches Some(p) ==> p@[2] + p@[1] * 60 <= u32::MAX,
    ensures
        s == device_status_spec(operating_status, disc_present, position),
{
    let mut state = match operating_status {
        Some(v) => PlaybackState::from_u16(v),
        None => PlaybackState::Unknown(0),
    };
    if state == PlaybackState::Playing && !disc_present {
        state = PlaybackState::Ready;
    }
    let track = match position {
        Some(p) => Some(p[0]),
        None => None,
    };
    let time = match position {
        Some(p) => Some(PlaybackTime { minute: p[2] + p[1] * 60, second: p[3], frame: p[4] }),
        None => None,
    };
    let disc_present_effective = disc_present && !(state == PlaybackState::ReadingToc || state == PlaybackState::NoDisc);
    DeviceStatus { disc_present: disc_present_effective, state, track, time }
}

/// Whether the raw status block says a disc is present (byte 4 is not `0x80`).
pub fn status_disc_present(status: &[u8]) -> (r: bool)
    ensures
        r == !(status@.len() > 4 && status@[4] == 0x80),
{
    !(status.len() > 4 && status[4] == 0x80)
}

/// Capacity frames halved together until the total is at most 82 minutes.
pub open spec fn scale_capacity_spec(used: u32, total: u32, left: u32) -> (u32, u32, u32)
    decreases total,
{
    if total > 512 * 60 * 82 {
        scale_capacity_spec(used / 2, total / 2, left / 2)
    } else {
        (used, total, left)
    }
}

/// Halves the capacity frames together until the total is at most 82 minutes.
pub fn scale_capacity(used: u32, total: u32, left: u32) -> (r: (u32, u32, u32))
    ensures
        r == scale_capacity_spec(used, total, left),
        r.1 <= 512 * 60 * 82,
        r.0 <= used && r.1 <= total && r.2 <= left,
        total <= 512 * 60 * 82 ==> r == (used, total, left),
{
    let mut u = used;
    let mut t = total;
    let mut l = left;
    while t > 512 * 60 * 82
        invariant
            scale_capacity_spec(used, total, left) == scale_capacity_spec(u, t, l),
            u <= used && t <= total && l <= left,
        decreases t,
    {
        u = u / 2;
        t = t / 2;
        l = l / 2;
    }
    (u, t, l)
}

/// A title, or `None` when it is empty.
pub fn non_empty(title: String) -> (r: Option<String>)
    ensures
        title@.len() == 0 ==> r is None,
        title@.len() > 0 ==> (r matches Some(s) && s@ == title@),
{
    if title.as_str().unicode_len() == 0 {
        None
    } else {
        Some(title)
    }
}

/// A listed track from what the device reports of it: encoding and channel
/// count, length `[h, m, s, f]`, flag byte and the two titles (empty
/// titles become `None`).
pub fn track_from_parts(
    index: u16,
    encoding: Encoding,
    channel: ChannelCount,
    length: &[u32; 4],
    flags: u8,
    title: String,
    full_width_title: String,
) -> (t: Track)
    requires
        time_frames_spec(*length) <= u32::MAX,
    ensures
        t.index == index,
        t.encoding == encoding,
        t.channel == channel,
        t.duration_frames == time_frames_spec(*length),
        t.protected == (if flags == 0x03 { TrackFlag::Protected } else { TrackFlag::Unprotected }),
        title@.len() == 0 ==> t.title is None,
        title@.len() > 0 ==> (t.title matches Some(s) && s@ == title@),
        full_width_title@.len() == 0 ==> t.full_width_title is None,
        full_width_title@.len() > 0 ==> (t.full_width_title matches Some(s) && s@ == full_width_title@),
{
    Track {
        index,
        title: non_empty(title),
        full_width_title: non_empty(full_width_title),
        duration_frames: time_to_frames(length),
        channel,
        encoding,
        protected: TrackFlag::from_byte(flags),
    }
}

/// A disc listing from the disc flags, titles, capacity
/// (`[recorded, total, available]` times) and track count; its groups
/// start empty.
pub fn disc_from_parts(
    flags: DiscFlags,
    title: String,
    full_width_title: String,
    capacity: &[[u32; 4]; 3],
    track_count: u8,
) -> (d: Disc)
    requires
        time_frames_spec(capacity@[0]) <= u32::MAX,
        time_frames_spec(capacity@[1]) <= u32::MAX,
        time_frames_spec(capacity@[2]) <= u32::MAX,
    ensures
        d.title == title,
        d.full_width_title == full_width_title,
        d.writable == (flags.raw_spec() & 0x10 != 0 && flags.raw_spec() & 0x40 == 0),
        d.write_protected == (flags.raw_spec() & 0x40 != 0),
        (d.used, d.total, d.left) == scale_capacity_spec(
            time_frames_spec(capacity@[0]) as u32,
            time_frames_spec(capacity@[1]) as u32,
            time_frames_spec(capacity@[2]) as u32,
        ),
        d.track_count == track_count,
        d.groups@.len() == 0,
{
    let used = time_to_frames(&capacity[0]);
    let total = time_to_frames(&capacity[1]);
    let left = time_to_frames(&capacity[2]);
    let (u, t, l) = scale_capacity(used, total, left);
    Disc {
        title,
        full_width_title,
        writable: flags.is_writable(),
        write_protected: flags.is_write_protected(),
        used: u,
        left: l,
        total: t,
        track_count,
        groups: Vec::new(),
    }
}

} // verus!
