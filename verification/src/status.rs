//! Operating-status queries.

use vstd::prelude::*;
use vstd::slice::slice_to_vec;
use crate::error::NetMDError;
use crate::query::{be16, be32, Query, QueryBuilder};
use crate::scan::{scan, scan_spec};
use crate::util::{be_value, parse_string, parse_u16, parse_u8, sjis_decode_of};
use crate::types::{operating_status_from_u16, operating_status_spec, FullOperatingStatus};

verus! {

/// Query of the raw operating status block.
pub fn status_query() -> (q: Query)
    ensures
        q.0@ == seq![0x00u8, 0x18u8, 0x09u8, 0x80u8, 0x01u8, 0x02u8, 0x30u8, 0x88u8, 0x00u8, 0x00u8, 0x30u8, 0x88u8, 0x04u8, 0x00u8, 0xffu8, 0x00u8, 0x00u8, 0x00u8, 0x00u8, 0x00u8],
{
    let b = QueryBuilder::new();
    let lit: Vec<u8> = vec![0x00u8, 0x18u8, 0x09u8, 0x80u8, 0x01u8, 0x02u8, 0x30u8, 0x88u8, 0x00u8, 0x00u8, 0x30u8, 0x88u8, 0x04u8, 0x00u8, 0xffu8, 0x00u8, 0x00u8, 0x00u8, 0x00u8, 0x00u8];
    assert(lit@ =~= seq![0x00u8, 0x18u8, 0x09u8, 0x80u8, 0x01u8, 0x02u8, 0x30u8, 0x88u8, 0x00u8, 0x00u8, 0x30u8, 0x88u8, 0x04u8, 0x00u8, 0xffu8, 0x00u8, 0x00u8, 0x00u8, 0x00u8, 0x00u8]);
    let b = b.bytes(lit.as_slice());
    let q = b.build();
    assert(q.0@ =~= seq![0x00u8, 0x18u8, 0x09u8, 0x80u8, 0x01u8, 0x02u8, 0x30u8, 0x88u8, 0x00u8, 0x00u8, 0x30u8, 0x88u8, 0x04u8, 0x00u8, 0xffu8, 0x00u8, 0x00u8, 0x00u8, 0x00u8, 0x00u8]);
    q
}

/// The raw operating status block.
pub fn parse_status_reply(reply: &[u8]) -> (r: Result<Vec<u8>, NetMDError>)
    ensures
        match scan_spec("%? 1809 8001 0230 8800 0030 8804 00 1000 00090000 %x"@, reply@) {
            None => r matches Err(e) && e == NetMDError::Scan,
            Some(p) => if p.len() >= 1 { r matches Ok(v) && v@ == p[0] } else { r matches Err(e) && e == NetMDError::UnexpectedResponse },
        },
{
    let p = match scan("%? 1809 8001 0230 8800 0030 8804 00 1000 00090000 %x", reply) {
        Ok(p) => p,
        Err(e) => {
            return Err(e);
        },
    };
    if p.len() < 1 {
        return Err(NetMDError::UnexpectedResponse);
    }
    Ok(slice_to_vec(p[0]))
}

/// Query of the full operating status.
pub fn full_operating_status_query() -> (q: Query)
    ensures
        q.0@ == seq![0x00u8, 0x18u8, 0x09u8, 0x80u8, 0x01u8, 0x03u8, 0x30u8, 0x88u8, 0x02u8, 0x00u8, 0x30u8, 0x88u8, 0x05u8, 0x00u8, 0x30u8, 0x88u8, 0x06u8, 0x00u8, 0xffu8, 0x00u8, 0x00u8, 0x00u8, 0x00u8, 0x00u8],
{
    let b = QueryBuilder::new();
    let lit: Vec<u8> = vec![0x00u8, 0x18u8, 0x09u8, 0x80u8, 0x01u8, 0x03u8, 0x30u8, 0x88u8, 0x02u8, 0x00u8, 0x30u8, 0x88u8, 0x05u8, 0x00u8, 0x30u8, 0x88u8, 0x06u8, 0x00u8, 0xffu8, 0x00u8, 0x00u8, 0x00u8, 0x00u8, 0x00u8];
    assert(lit@ =~= seq![0x00u8, 0x18u8, 0x09u8, 0x80u8, 0x01u8, 0x03u8, 0x30u8, 0x88u8, 0x02u8, 0x00u8, 0x30u8, 0x88u8, 0x05u8, 0x00u8, 0x30u8, 0x88u8, 0x06u8, 0x00u8, 0xffu8, 0x00u8, 0x00u8, 0x00u8, 0x00u8, 0x00u8]);
    let b = b.bytes(lit.as_slice());
    let q = b.build();
    assert(q.0@ =~= seq![0x00u8, 0x18u8, 0x09u8, 0x80u8, 0x01u8, 0x03u8, 0x30u8, 0x88u8, 0x02u8, 0x00u8, 0x30u8, 0x88u8, 0x05u8, 0x00u8, 0x30u8, 0x88u8, 0x06u8, 0x00u8, 0xffu8, 0x00u8, 0x00u8, 0x00u8, 0x00u8, 0x00u8]);
    q
}

/// Whether the operating status block says a disc is in the device (byte 4 is `0x40`).
pub fn is_disc_present(status: &[u8]) -> (r: bool)
    ensures
        r == (status@.len() > 4 && status@[4] == 0x40),
{
    status.len() > 4 && status[4] == 0x40
}

/// The template of a full operating status reply.
pub open spec fn full_operating_status_template() -> Seq<char> {
    "%? 1809 8001 0330 8802 0030 8805 0030 8806 00 1000 00%?0000 00%b 8806 %x"@
}

/// The status mode byte and operating status word (its first two bytes,
/// big-endian) of a full operating status reply.
pub fn parse_full_operating_status_reply(reply: &[u8]) -> (r: Result<FullOperatingStatus, NetMDError>)
    ensures
        match scan_spec(full_operating_status_template(), reply@) {
            None => r matches Err(e) && e == NetMDError::Scan,
            Some(p) => if p.len() < 2 {
                r matches Err(e) && e == NetMDError::UnexpectedResponse
            } else if p[0].len() != 1 {
                r matches Err(e) && e == NetMDError::InvalidDataLength
            } else if p[1].len() < 2 {
                r matches Err(e) && e == NetMDError::UnexpectedResponse
            } else {
                r matches Ok(s) && s.mode == p[0][0] && s.status == operating_status_spec(
                    (p[1][0] * 256 + p[1][1]) as u16,
                )
            },
        },
{
    let p = match scan("%? 1809 8001 0330 8802 0030 8805 0030 8806 00 1000 00%?0000 00%b 8806 %x", reply) {
        Ok(p) => p,
        Err(e) => {
            return Err(e);
        },
    };
    if p.len() < 2 {
        return Err(NetMDError::UnexpectedResponse);
    }
    let mode = match parse_u8(p[0]) {
        Ok(m) => m,
        Err(e) => {
            return Err(e);
        },
    };
    let word = p[1];
    if word.len() < 2 {
        return Err(NetMDError::UnexpectedResponse);
    }
    let number = (word[0] as u16) * 256 + word[1] as u16;
    Ok(FullOperatingStatus { mode, status: operating_status_from_u16(number) })
}

} // verus!
