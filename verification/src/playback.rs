//! Playback control: transport commands, seeking, position and status.

use vstd::prelude::*;
use vstd::slice::slice_to_vec;
use crate::error::NetMDError;
use crate::query::{be16, be32, Query, QueryBuilder};
use crate::scan::{scan, scan_spec};
use crate::util::{bcd_value, be_value, parse_bcd_u8, parse_string, parse_u16, parse_u8, sjis_decode_of};

verus! {

/// Query of a play, pause, fast-forward or rewind action.
pub fn play_action_query(action: u8) -> (q: Query)
    ensures
        q.0@ == seq![0x00u8, 0x18u8, 0xc3u8, 0xffu8] + seq![action] + seq![0x00u8, 0x00u8, 0x00u8],
{
    let b = QueryBuilder::new();
    let lit: Vec<u8> = vec![0x00u8, 0x18u8, 0xc3u8, 0xffu8];
    assert(lit@ =~= seq![0x00u8, 0x18u8, 0xc3u8, 0xffu8]);
    let b = b.bytes(lit.as_slice());
    let b = b.u8(action);
    let lit: Vec<u8> = vec![0x00u8, 0x00u8, 0x00u8];
    assert(lit@ =~= seq![0x00u8, 0x00u8, 0x00u8]);
    let b = b.bytes(lit.as_slice());
    let q = b.build();
    assert(q.0@ =~= seq![0x00u8, 0x18u8, 0xc3u8, 0xffu8] + seq![action] + seq![0x00u8, 0x00u8, 0x00u8]);
    q
}

/// Checks the reply of a play action.
pub fn parse_play_action_reply(reply: &[u8]) -> (r: Result<(), NetMDError>)
    ensures
        match scan_spec("%? 18c3 00 %b 000000"@, reply@) {
            None => r matches Err(e) && e == NetMDError::Scan,
            Some(p) => r matches Ok(_),
        },
{
    let p = match scan("%? 18c3 00 %b 000000", reply) {
        Ok(p) => p,
        Err(e) => {
            return Err(e);
        },
    };
    Ok(())
}

/// Query that stops playback.
pub fn stop_query() -> (q: Query)
    ensures
        q.0@ == seq![0x00u8, 0x18u8, 0xc5u8, 0xffu8, 0x00u8, 0x00u8, 0x00u8, 0x00u8],
{
    let b = QueryBuilder::new();
    let lit: Vec<u8> = vec![0x00u8, 0x18u8, 0xc5u8, 0xffu8, 0x00u8, 0x00u8, 0x00u8, 0x00u8];
    assert(lit@ =~= seq![0x00u8, 0x18u8, 0xc5u8, 0xffu8, 0x00u8, 0x00u8, 0x00u8, 0x00u8]);
    let b = b.bytes(lit.as_slice());
    let q = b.build();
    assert(q.0@ =~= seq![0x00u8, 0x18u8, 0xc5u8, 0xffu8, 0x00u8, 0x00u8, 0x00u8, 0x00u8]);
    q
}

/// Query that moves to a track (0-based).
pub fn goto_track_query(track: u16) -> (q: Query)
    ensures
        q.0@ == seq![0x00u8, 0x18u8, 0x50u8, 0xffu8, 0x01u8, 0x00u8, 0x00u8, 0x00u8, 0x00u8] + be16(track),
{
    let b = QueryBuilder::new();
    let lit: Vec<u8> = vec![0x00u8, 0x18u8, 0x50u8, 0xffu8, 0x01u8, 0x00u8, 0x00u8, 0x00u8, 0x00u8];
    assert(lit@ =~= seq![0x00u8, 0x18u8, 0x50u8, 0xffu8, 0x01u8, 0x00u8, 0x00u8, 0x00u8, 0x00u8]);
    let b = b.bytes(lit.as_slice());
    let b = b.u16(track);
    let q = b.build();
    assert(q.0@ =~= seq![0x00u8, 0x18u8, 0x50u8, 0xffu8, 0x01u8, 0x00u8, 0x00u8, 0x00u8, 0x00u8] + be16(track));
    q
}

/// The track the device moved to.
pub fn parse_goto_track_reply(reply: &[u8]) -> (r: Result<u16, NetMDError>)
    ensures
        match scan_spec("%? 1850 00010000 0000 %w"@, reply@) {
            None => r matches Err(e) && e == NetMDError::Scan,
            Some(p) => if p.len() >= 1 { if p[0].len() == 2 { r == Ok::<u16, NetMDError>(be_value(p[0]) as u16) } else { r matches Err(e) && e == NetMDError::InvalidDataLength } } else { r matches Err(e) && e == NetMDError::UnexpectedResponse },
        },
{
    let p = match scan("%? 1850 00010000 0000 %w", reply) {
        Ok(p) => p,
        Err(e) => {
            return Err(e);
        },
    };
    if p.len() < 1 {
        return Err(NetMDError::UnexpectedResponse);
    }
    parse_u16(p[0])
}

/// Query that moves to a time within a track (`[h, m, s, f]` bytes).
pub fn goto_time_query(track: u16, time: &[u8; 4]) -> (q: Query)
    ensures
        q.0@ == seq![0x00u8, 0x18u8, 0x50u8, 0xffu8, 0x00u8, 0x00u8, 0x00u8, 0x00u8, 0x00u8] + be16(track) + time@,
{
    let b = QueryBuilder::new();
    let lit: Vec<u8> = vec![0x00u8, 0x18u8, 0x50u8, 0xffu8, 0x00u8, 0x00u8, 0x00u8, 0x00u8, 0x00u8];
    assert(lit@ =~= seq![0x00u8, 0x18u8, 0x50u8, 0xffu8, 0x00u8, 0x00u8, 0x00u8, 0x00u8, 0x00u8]);
    let b = b.bytes(lit.as_slice());
    let b = b.u16(track);
    let b = b.bytes(time.as_slice());
    let q = b.build();
    assert(q.0@ =~= seq![0x00u8, 0x18u8, 0x50u8, 0xffu8, 0x00u8, 0x00u8, 0x00u8, 0x00u8, 0x00u8] + be16(track) + time@);
    q
}

/// Checks the reply of a time seek.
pub fn parse_goto_time_reply(reply: &[u8]) -> (r: Result<(), NetMDError>)
    ensures
        match scan_spec("%? 1850 00000000 %?%? %w %B %B %B %B"@, reply@) {
            None => r matches Err(e) && e == NetMDError::Scan,
            Some(p) => r matches Ok(_),
        },
{
    let p = match scan("%? 1850 00000000 %?%? %w %B %B %B %B", reply) {
        Ok(p) => p,
        Err(e) => {
            return Err(e);
        },
    };
    Ok(())
}

/// Query that moves to the next (`0x8001`), previous (`0x0002`) or current (`0x0001`) track start.
pub fn track_change_query(direction: u16) -> (q: Query)
    ensures
        q.0@ == seq![0x00u8, 0x18u8, 0x50u8, 0xffu8, 0x10u8, 0x00u8, 0x00u8, 0x00u8, 0x00u8] + be16(direction),
{
    let b = QueryBuilder::new();
    let lit: Vec<u8> = vec![0x00u8, 0x18u8, 0x50u8, 0xffu8, 0x10u8, 0x00u8, 0x00u8, 0x00u8, 0x00u8];
    assert(lit@ =~= seq![0x00u8, 0x18u8, 0x50u8, 0xffu8, 0x10u8, 0x00u8, 0x00u8, 0x00u8, 0x00u8]);
    let b = b.bytes(lit.as_slice());
    let b = b.u16(direction);
    let q = b.build();
    assert(q.0@ =~= seq![0x00u8, 0x18u8, 0x50u8, 0xffu8, 0x10u8, 0x00u8, 0x00u8, 0x00u8, 0x00u8] + be16(direction));
    q
}

/// Checks the reply of a track change.
pub fn parse_track_change_reply(reply: &[u8]) -> (r: Result<(), NetMDError>)
    ensures
        match scan_spec("%? 1850 0010 00000000 %?%?"@, reply@) {
            None => r matches Err(e) && e == NetMDError::Scan,
            Some(p) => r matches Ok(_),
        },
{
    let p = match scan("%? 1850 0010 00000000 %?%?", reply) {
        Ok(p) => p,
        Err(e) => {
            return Err(e);
        },
    };
    Ok(())
}

/// Query that ejects the disc.
pub fn eject_query() -> (q: Query)
    ensures
        q.0@ == seq![0x00u8, 0x18u8, 0xc1u8, 0xffu8, 0x60u8, 0x00u8],
{
    let b = QueryBuilder::new();
    let lit: Vec<u8> = vec![0x00u8, 0x18u8, 0xc1u8, 0xffu8, 0x60u8, 0x00u8];
    assert(lit@ =~= seq![0x00u8, 0x18u8, 0xc1u8, 0xffu8, 0x60u8, 0x00u8]);
    let b = b.bytes(lit.as_slice());
    let q = b.build();
    assert(q.0@ =~= seq![0x00u8, 0x18u8, 0xc1u8, 0xffu8, 0x60u8, 0x00u8]);
    q
}

/// Query of a playback status block.
pub fn playback_status_query(p1: u16, p2: u16) -> (q: Query)
    ensures
        q.0@ == seq![0x00u8, 0x18u8, 0x09u8, 0x80u8, 0x01u8, 0x03u8, 0x30u8] + be16(p1) + seq![0x00u8, 0x30u8, 0x88u8, 0x05u8, 0x00u8, 0x30u8] + be16(p2) + seq![0x00u8, 0xffu8, 0x00u8, 0x00u8, 0x00u8, 0x00u8, 0x00u8],
{
    let b = QueryBuilder::new();
    let lit: Vec<u8> = vec![0x00u8, 0x18u8, 0x09u8, 0x80u8, 0x01u8, 0x03u8, 0x30u8];
    assert(lit@ =~= seq![0x00u8, 0x18u8, 0x09u8, 0x80u8, 0x01u8, 0x03u8, 0x30u8]);
    let b = b.bytes(lit.as_slice());
    let b = b.u16(p1);
    let lit: Vec<u8> = vec![0x00u8, 0x30u8, 0x88u8, 0x05u8, 0x00u8, 0x30u8];
    assert(lit@ =~= seq![0x00u8, 0x30u8, 0x88u8, 0x05u8, 0x00u8, 0x30u8]);
    let b = b.bytes(lit.as_slice());
    let b = b.u16(p2);
    let lit: Vec<u8> = vec![0x00u8, 0xffu8, 0x00u8, 0x00u8, 0x00u8, 0x00u8, 0x00u8];
    assert(lit@ =~= seq![0x00u8, 0xffu8, 0x00u8, 0x00u8, 0x00u8, 0x00u8, 0x00u8]);
    let b = b.bytes(lit.as_slice());
    let q = b.build();
    assert(q.0@ =~= seq![0x00u8, 0x18u8, 0x09u8, 0x80u8, 0x01u8, 0x03u8, 0x30u8] + be16(p1) + seq![0x00u8, 0x30u8, 0x88u8, 0x05u8, 0x00u8, 0x30u8] + be16(p2) + seq![0x00u8, 0xffu8, 0x00u8, 0x00u8, 0x00u8, 0x00u8, 0x00u8]);
    q
}

/// The bytes of a playback status block.
pub fn parse_playback_status_reply(reply: &[u8]) -> (r: Result<Vec<u8>, NetMDError>)
    ensures
        match scan_spec("%? 1809 8001 0330 %?%? %?%? %?%? %?%? %?%? %? 1000 00%?0000 %x"@, reply@) {
            None => r matches Err(e) && e == NetMDError::Scan,
            Some(p) => if p.len() >= 1 { r matches Ok(v) && v@ == p[0] } else { r matches Err(e) && e == NetMDError::UnexpectedResponse },
        },
{
    let p = match scan("%? 1809 8001 0330 %?%? %?%? %?%? %?%? %?%? %? 1000 00%?0000 %x", reply) {
        Ok(p) => p,
        Err(e) => {
            return Err(e);
        },
    };
    if p.len() < 1 {
        return Err(NetMDError::UnexpectedResponse);
    }
    Ok(slice_to_vec(p[0]))
}

/// Query of the current position.
pub fn position_query() -> (q: Query)
    ensures
        q.0@ == seq![0x00u8, 0x18u8, 0x09u8, 0x80u8, 0x01u8, 0x04u8, 0x30u8, 0x88u8, 0x02u8, 0x00u8, 0x30u8, 0x88u8, 0x05u8, 0x00u8, 0x30u8, 0x00u8, 0x03u8, 0x00u8, 0x30u8, 0x00u8, 0x02u8, 0x00u8, 0xffu8, 0x00u8, 0x00u8, 0x00u8, 0x00u8, 0x00u8],
{
    let b = QueryBuilder::new();
    let lit: Vec<u8> = vec![0x00u8, 0x18u8, 0x09u8, 0x80u8, 0x01u8, 0x04u8, 0x30u8, 0x88u8, 0x02u8, 0x00u8, 0x30u8, 0x88u8, 0x05u8, 0x00u8, 0x30u8, 0x00u8, 0x03u8, 0x00u8, 0x30u8, 0x00u8, 0x02u8, 0x00u8, 0xffu8, 0x00u8, 0x00u8, 0x00u8, 0x00u8, 0x00u8];
    assert(lit@ =~= seq![0x00u8, 0x18u8, 0x09u8, 0x80u8, 0x01u8, 0x04u8, 0x30u8, 0x88u8, 0x02u8, 0x00u8, 0x30u8, 0x88u8, 0x05u8, 0x00u8, 0x30u8, 0x00u8, 0x03u8, 0x00u8, 0x30u8, 0x00u8, 0x02u8, 0x00u8, 0xffu8, 0x00u8, 0x00u8, 0x00u8, 0x00u8, 0x00u8]);
    let b = b.bytes(lit.as_slice());
    let q = b.build();
    assert(q.0@ =~= seq![0x00u8, 0x18u8, 0x09u8, 0x80u8, 0x01u8, 0x04u8, 0x30u8, 0x88u8, 0x02u8, 0x00u8, 0x30u8, 0x88u8, 0x05u8, 0x00u8, 0x30u8, 0x00u8, 0x03u8, 0x00u8, 0x30u8, 0x00u8, 0x02u8, 0x00u8, 0xffu8, 0x00u8, 0x00u8, 0x00u8, 0x00u8, 0x00u8]);
    q
}

/// Query of the recording parameters.
pub fn recording_parameters_query() -> (q: Query)
    ensures
        q.0@ == seq![0x00u8, 0x18u8, 0x09u8, 0x80u8, 0x01u8, 0x03u8, 0x30u8, 0x88u8, 0x01u8, 0x00u8, 0x30u8, 0x88u8, 0x05u8, 0x00u8, 0x30u8, 0x88u8, 0x07u8, 0x00u8, 0xffu8, 0x00u8, 0x00u8, 0x00u8, 0x00u8, 0x00u8],
{
    let b = QueryBuilder::new();
    let lit: Vec<u8> = vec![0x00u8, 0x18u8, 0x09u8, 0x80u8, 0x01u8, 0x03u8, 0x30u8, 0x88u8, 0x01u8, 0x00u8, 0x30u8, 0x88u8, 0x05u8, 0x00u8, 0x30u8, 0x88u8, 0x07u8, 0x00u8, 0xffu8, 0x00u8, 0x00u8, 0x00u8, 0x00u8, 0x00u8];
    assert(lit@ =~= seq![0x00u8, 0x18u8, 0x09u8, 0x80u8, 0x01u8, 0x03u8, 0x30u8, 0x88u8, 0x01u8, 0x00u8, 0x30u8, 0x88u8, 0x05u8, 0x00u8, 0x30u8, 0x88u8, 0x07u8, 0x00u8, 0xffu8, 0x00u8, 0x00u8, 0x00u8, 0x00u8, 0x00u8]);
    let b = b.bytes(lit.as_slice());
    let q = b.build();
    assert(q.0@ =~= seq![0x00u8, 0x18u8, 0x09u8, 0x80u8, 0x01u8, 0x03u8, 0x30u8, 0x88u8, 0x01u8, 0x00u8, 0x30u8, 0x88u8, 0x05u8, 0x00u8, 0x30u8, 0x88u8, 0x07u8, 0x00u8, 0xffu8, 0x00u8, 0x00u8, 0x00u8, 0x00u8, 0x00u8]);
    q
}

/// Transport actions of the play command.
#[derive(Debug, Clone, Copy, PartialEq, Eq, Structural)]
pub enum PlayAction {
    Play,
    Pause,
    FastForward,
    Rewind,
}

impl PlayAction {
    pub open spec fn value_spec(self) -> u8 {
        match self {
            PlayAction::Play => 0x75,
            PlayAction::Pause => 0x7d,
            PlayAction::FastForward => 0x39,
            PlayAction::Rewind => 0x49,
        }
    }

    /// The byte of this action.
    pub fn value(self) -> (b: u8)
        ensures
            b == self.value_spec(),
    {
        match self {
            PlayAction::Play => 0x75,
            PlayAction::Pause => 0x7d,
            PlayAction::FastForward => 0x39,
            PlayAction::Rewind => 0x49,
        }
    }
}

/// Track-change directions.
#[derive(Debug, Clone, Copy, PartialEq, Eq, Structural)]
pub enum TrackChange {
    Previous,
    Next,
    Restart,
}

impl TrackChange {
    pub open spec fn value_spec(self) -> u16 {
        match self {
            TrackChange::Previous => 0x0002,
            TrackChange::Next => 0x8001,
            TrackChange::Restart => 0x0001,
        }
    }

    /// The word of this direction.
    pub fn value(self) -> (w: u16)
        ensures
            w == self.value_spec(),
    {
        match self {
            TrackChange::Previous => 0x0002,
            TrackChange::Next => 0x8001,
            TrackChange::Restart => 0x0001,
        }
    }
}

/// The playback status block 1 query (`0x8801`, `0x8807`).
pub fn playback_status1_query() -> (q: Query)
    ensures
        q.0@ == playback_status_query_bytes(0x8801, 0x8807),
{
    playback_status_query(0x8801, 0x8807)
}

/// The playback status block 2 query (`0x8802`, `0x8806`).
pub fn playback_status2_query() -> (q: Query)
    ensures
        q.0@ == playback_status_query_bytes(0x8802, 0x8806),
{
    playback_status_query(0x8802, 0x8806)
}

/// The bytes of a playback status query.
pub open spec fn playback_status_query_bytes(p1: u16, p2: u16) -> Seq<u8> {
    seq![0x00u8, 0x18u8, 0x09u8, 0x80u8, 0x01u8, 0x03u8, 0x30u8] + be16(p1) + seq![0x00u8, 0x30u8, 0x88u8, 0x05u8, 0x00u8, 0x30u8]
        + be16(p2) + seq![0x00u8, 0xffu8, 0x00u8, 0x00u8, 0x00u8, 0x00u8, 0x00u8]
}

/// The position `[track, hour, minute, second, frame]` in a position reply:
/// the track word, then four BCD bytes.
pub open spec fn position_spec(p: Seq<Seq<u8>>) -> Result<[u32; 5], NetMDError> {
    if p.len() < 5 {
        Err(NetMDError::UnexpectedResponse)
    } else if p[0].len() != 2 || p[1].len() != 1 || p[2].len() != 1 || p[3].len() != 1 || p[4].len() != 1 {
        Err(NetMDError::InvalidDataLength)
    } else {
        Ok(
            [
                be_value(p[0]) as u16 as u32,
                bcd_value(p[1][0] as nat) as u8 as u32,
                bcd_value(p[2][0] as nat) as u8 as u32,
                bcd_value(p[3][0] as nat) as u8 as u32,
                bcd_value(p[4][0] as nat) as u8 as u32,
            ],
        )
    }
}

/// The template of a position reply.
pub open spec fn position_template() -> Seq<char> {
    "%? 1809 8001 0430 %?%? %?%? %?%? %?%? %?%? %?%? %?%? %? %?00 00%?0000 000b 0002 0007 00 %w %B %B %B %B"@
}

/// The position in a position reply.
pub fn parse_position_reply(reply: &[u8]) -> (r: Result<[u32; 5], NetMDError>)
    ensures
        match scan_spec(position_template(), reply@) {
            None => r matches Err(e) && e == NetMDError::Scan,
            Some(p) => match (r, position_spec(p)) {
                (Ok(a), Ok(b)) => a@ == b@,
                (Err(a), Err(b)) => a == b,
                _ => false,
            },
        },
{
    let p = match scan(
        "%? 1809 8001 0430 %?%? %?%? %?%? %?%? %?%? %?%? %?%? %? %?00 00%?0000 000b 0002 0007 00 %w %B %B %B %B",
        reply,
    ) {
        Ok(p) => p,
        Err(e) => {
            return Err(e);
        },
    };
    if p.len() < 5 {
        return Err(NetMDError::UnexpectedResponse);
    }
    let track = match parse_u16(p[0]) {
        Ok(v) => v,
        Err(e) => {
            return Err(e);
        },
    };
    let h = match parse_bcd_u8(p[1]) {
        Ok(v) => v,
        Err(e) => {
            return Err(e);
        },
    };
    let m = match parse_bcd_u8(p[2]) {
        Ok(v) => v,
        Err(e) => {
            return Err(e);
        },
    };
    let s = match parse_bcd_u8(p[3]) {
        Ok(v) => v,
        Err(e) => {
            return Err(e);
        },
    };
    let f = match parse_bcd_u8(p[4]) {
        Ok(v) => v,
        Err(e) => {
            return Err(e);
        },
    };
    let r = [track as u32, h as u32, m as u32, s as u32, f as u32];
    Ok(r)
}

/// The position after a position query: the device rejecting it means no
/// position; any other failure is passed on.
pub fn position_result(outcome: Result<Vec<u8>, NetMDError>) -> (r: Result<Option<[u32; 5]>, NetMDError>)
    ensures
        match outcome {
            Err(NetMDError::Rejected(_)) => r matches Ok(None),
            Err(e) => r == Err::<Option<[u32; 5]>, NetMDError>(e),
            Ok(reply) => match scan_spec(position_template(), reply@) {
                None => r matches Err(e) && e == NetMDError::Scan,
                Some(p) => match (r, position_spec(p)) {
                    (Ok(Some(a)), Ok(b)) => a@ == b@,
                    (Err(a), Err(b)) => a == b,
                    _ => false,
                },
            },
        },
{
    match outcome {
        Ok(reply) => match parse_position_reply(reply.as_slice()) {
            Ok(pos) => Ok(Some(pos)),
            Err(e) => Err(e),
        },
        Err(NetMDError::Rejected(_)) => Ok(None),
        Err(e) => Err(e),
    }
}

/// The `[channels, encoding]` bytes of a recording-parameters reply.
pub fn parse_recording_parameters_reply(reply: &[u8]) -> (r: Result<[u8; 2], NetMDError>)
    ensures
        match scan_spec(
            "%? 1809 8001 0330 8801 0030 8805 0030 8807 00 1000 000e0000 000c 8805 0008 80e0 0110 %b %b 4000"@,
            reply@,
        ) {
            None => r matches Err(e) && e == NetMDError::Scan,
            Some(p) => if p.len() < 2 {
                r matches Err(e) && e == NetMDError::UnexpectedResponse
            } else if p[0].len() != 1 || p[1].len() != 1 {
                r matches Err(e) && e == NetMDError::InvalidDataLength
            } else {
                r matches Ok(a) && a@ == seq![p[0][0], p[1][0]]
            },
        },
{
    let p = match scan(
        "%? 1809 8001 0330 8801 0030 8805 0030 8807 00 1000 000e0000 000c 8805 0008 80e0 0110 %b %b 4000",
        reply,
    ) {
        Ok(p) => p,
        Err(e) => {
            return Err(e);
        },
    };
    if p.len() < 2 {
        return Err(NetMDError::UnexpectedResponse);
    }
    let channels = match parse_u8(p[0]) {
        Ok(v) => v,
        Err(e) => {
            return Err(e);
        },
    };
    let encoding = match parse_u8(p[1]) {
        Ok(v) => v,
        Err(e) => {
            return Err(e);
        },
    };
    let r = [channels, encoding];
    assert(r@ =~= seq![p@[0]@[0], p@[1]@[0]]);
    Ok(r)
}

} // verus!
