//! The secure session commands of track upload.

use vstd::prelude::*;
use vstd::slice::slice_to_vec;
use crate::error::NetMDError;
use crate::query::{be16, be32, Query, QueryBuilder};
use crate::scan::{scan, scan_spec};
use crate::types::OperatingStatus;
use crate::util::{append_bytes, be_value, parse_string, parse_u16, parse_u8, sjis_decode_of};
use crate::crypto::{des_cbc_decrypt, des_cbc_decrypt_of, des_cbc_encrypt, des_cbc_encrypt_of, des_ecb_encrypt, des_ecb_encrypt_of, EncryptedPacket};
use crate::text::{chars_to_string, string_push};

verus! {

/// Query that acquires the device.
pub fn acquire_query() -> (q: Query)
    ensures
        q.0@ == seq![0x00u8, 0xffu8, 0x01u8, 0x0cu8, 0xffu8, 0xffu8, 0xffu8, 0xffu8, 0xffu8, 0xffu8, 0xffu8, 0xffu8, 0xffu8, 0xffu8, 0xffu8, 0xffu8],
{
    let b = QueryBuilder::new();
    let lit: Vec<u8> = vec![0x00u8, 0xffu8, 0x01u8, 0x0cu8, 0xffu8, 0xffu8, 0xffu8, 0xffu8, 0xffu8, 0xffu8, 0xffu8, 0xffu8, 0xffu8, 0xffu8, 0xffu8, 0xffu8];
    assert(lit@ =~= seq![0x00u8, 0xffu8, 0x01u8, 0x0cu8, 0xffu8, 0xffu8, 0xffu8, 0xffu8, 0xffu8, 0xffu8, 0xffu8, 0xffu8, 0xffu8, 0xffu8, 0xffu8, 0xffu8]);
    let b = b.bytes(lit.as_slice());
    let q = b.build();
    assert(q.0@ =~= seq![0x00u8, 0xffu8, 0x01u8, 0x0cu8, 0xffu8, 0xffu8, 0xffu8, 0xffu8, 0xffu8, 0xffu8, 0xffu8, 0xffu8, 0xffu8, 0xffu8, 0xffu8, 0xffu8]);
    q
}

/// Checks the reply of an acquire.
pub fn parse_acquire_reply(reply: &[u8]) -> (r: Result<(), NetMDError>)
    ensures
        match scan_spec("%? ff 010c ffff ffff ffff ffff ffff ffff"@, reply@) {
            None => r matches Err(e) && e == NetMDError::Scan,
            Some(p) => r matches Ok(_),
        },
{
    let p = match scan("%? ff 010c ffff ffff ffff ffff ffff ffff", reply) {
        Ok(p) => p,
        Err(e) => {
            return Err(e);
        },
    };
    Ok(())
}

/// Query that releases the device.
pub fn release_query() -> (q: Query)
    ensures
        q.0@ == seq![0x00u8, 0xffu8, 0x01u8, 0x00u8, 0xffu8, 0xffu8, 0xffu8, 0xffu8, 0xffu8, 0xffu8, 0xffu8, 0xffu8, 0xffu8, 0xffu8, 0xffu8, 0xffu8],
{
    let b = QueryBuilder::new();
    let lit: Vec<u8> = vec![0x00u8, 0xffu8, 0x01u8, 0x00u8, 0xffu8, 0xffu8, 0xffu8, 0xffu8, 0xffu8, 0xffu8, 0xffu8, 0xffu8, 0xffu8, 0xffu8, 0xffu8, 0xffu8];
    assert(lit@ =~= seq![0x00u8, 0xffu8, 0x01u8, 0x00u8, 0xffu8, 0xffu8, 0xffu8, 0xffu8, 0xffu8, 0xffu8, 0xffu8, 0xffu8, 0xffu8, 0xffu8, 0xffu8, 0xffu8]);
    let b = b.bytes(lit.as_slice());
    let q = b.build();
    assert(q.0@ =~= seq![0x00u8, 0xffu8, 0x01u8, 0x00u8, 0xffu8, 0xffu8, 0xffu8, 0xffu8, 0xffu8, 0xffu8, 0xffu8, 0xffu8, 0xffu8, 0xffu8, 0xffu8, 0xffu8]);
    q
}

/// Checks the reply of a release.
pub fn parse_release_reply(reply: &[u8]) -> (r: Result<(), NetMDError>)
    ensures
        match scan_spec("%? ff 0100 ffff ffff ffff ffff ffff ffff"@, reply@) {
            None => r matches Err(e) && e == NetMDError::Scan,
            Some(p) => r matches Ok(_),
        },
{
    let p = match scan("%? ff 0100 ffff ffff ffff ffff ffff ffff", reply) {
        Ok(p) => p,
        Err(e) => {
            return Err(e);
        },
    };
    Ok(())
}

/// Query that opens a secure session.
pub fn enter_secure_session_query() -> (q: Query)
    ensures
        q.0@ == seq![0x00u8, 0x18u8, 0x00u8, 0x08u8, 0x00u8, 0x46u8, 0xf0u8, 0x03u8, 0x01u8, 0x03u8, 0x80u8, 0xffu8],
{
    let b = QueryBuilder::new();
    let lit: Vec<u8> = vec![0x00u8, 0x18u8, 0x00u8, 0x08u8, 0x00u8, 0x46u8, 0xf0u8, 0x03u8, 0x01u8, 0x03u8, 0x80u8, 0xffu8];
    assert(lit@ =~= seq![0x00u8, 0x18u8, 0x00u8, 0x08u8, 0x00u8, 0x46u8, 0xf0u8, 0x03u8, 0x01u8, 0x03u8, 0x80u8, 0xffu8]);
    let b = b.bytes(lit.as_slice());
    let q = b.build();
    assert(q.0@ =~= seq![0x00u8, 0x18u8, 0x00u8, 0x08u8, 0x00u8, 0x46u8, 0xf0u8, 0x03u8, 0x01u8, 0x03u8, 0x80u8, 0xffu8]);
    q
}

/// Checks the reply of opening a secure session.
pub fn parse_enter_secure_session_reply(reply: &[u8]) -> (r: Result<(), NetMDError>)
    ensures
        match scan_spec("%? 1800 080046 f0030103 80 00"@, reply@) {
            None => r matches Err(e) && e == NetMDError::Scan,
            Some(p) => r matches Ok(_),
        },
{
    let p = match scan("%? 1800 080046 f0030103 80 00", reply) {
        Ok(p) => p,
        Err(e) => {
            return Err(e);
        },
    };
    Ok(())
}

/// Query that closes the secure session.
pub fn leave_secure_session_query() -> (q: Query)
    ensures
        q.0@ == seq![0x00u8, 0x18u8, 0x00u8, 0x08u8, 0x00u8, 0x46u8, 0xf0u8, 0x03u8, 0x01u8, 0x03u8, 0x81u8, 0xffu8],
{
    let b = QueryBuilder::new();
    let lit: Vec<u8> = vec![0x00u8, 0x18u8, 0x00u8, 0x08u8, 0x00u8, 0x46u8, 0xf0u8, 0x03u8, 0x01u8, 0x03u8, 0x81u8, 0xffu8];
    assert(lit@ =~= seq![0x00u8, 0x18u8, 0x00u8, 0x08u8, 0x00u8, 0x46u8, 0xf0u8, 0x03u8, 0x01u8, 0x03u8, 0x81u8, 0xffu8]);
    let b = b.bytes(lit.as_slice());
    let q = b.build();
    assert(q.0@ =~= seq![0x00u8, 0x18u8, 0x00u8, 0x08u8, 0x00u8, 0x46u8, 0xf0u8, 0x03u8, 0x01u8, 0x03u8, 0x81u8, 0xffu8]);
    q
}

/// Checks the reply of closing the secure session.
pub fn parse_leave_secure_session_reply(reply: &[u8]) -> (r: Result<(), NetMDError>)
    ensures
        match scan_spec("%? 1800 080046 f0030103 81 00"@, reply@) {
            None => r matches Err(e) && e == NetMDError::Scan,
            Some(p) => r matches Ok(_),
        },
{
    let p = match scan("%? 1800 080046 f0030103 81 00", reply) {
        Ok(p) => p,
        Err(e) => {
            return Err(e);
        },
    };
    Ok(())
}

/// Query of the device leaf ID.
pub fn leaf_id_query() -> (q: Query)
    ensures
        q.0@ == seq![0x00u8, 0x18u8, 0x00u8, 0x08u8, 0x00u8, 0x46u8, 0xf0u8, 0x03u8, 0x01u8, 0x03u8, 0x11u8, 0xffu8],
{
    let b = QueryBuilder::new();
    let lit: Vec<u8> = vec![0x00u8, 0x18u8, 0x00u8, 0x08u8, 0x00u8, 0x46u8, 0xf0u8, 0x03u8, 0x01u8, 0x03u8, 0x11u8, 0xffu8];
    assert(lit@ =~= seq![0x00u8, 0x18u8, 0x00u8, 0x08u8, 0x00u8, 0x46u8, 0xf0u8, 0x03u8, 0x01u8, 0x03u8, 0x11u8, 0xffu8]);
    let b = b.bytes(lit.as_slice());
    let q = b.build();
    assert(q.0@ =~= seq![0x00u8, 0x18u8, 0x00u8, 0x08u8, 0x00u8, 0x46u8, 0xf0u8, 0x03u8, 0x01u8, 0x03u8, 0x11u8, 0xffu8]);
    q
}

/// The device leaf ID.
pub fn parse_leaf_id_reply(reply: &[u8]) -> (r: Result<Vec<u8>, NetMDError>)
    ensures
        match scan_spec("%? 1800 080046 f0030103 11 00 %*"@, reply@) {
            None => r matches Err(e) && e == NetMDError::Scan,
            Some(p) => if p.len() >= 1 { r matches Ok(v) && v@ == p[0] } else { r matches Err(e) && e == NetMDError::UnexpectedResponse },
        },
{
    let p = match scan("%? 1800 080046 f0030103 11 00 %*", reply) {
        Ok(p) => p,
        Err(e) => {
            return Err(e);
        },
    };
    if p.len() < 1 {
        return Err(NetMDError::UnexpectedResponse);
    }
    Ok(slice_to_vec(p[0]))
}

/// Checks the reply of sending the key data.
pub fn parse_send_key_data_reply(reply: &[u8]) -> (r: Result<(), NetMDError>)
    ensures
        match scan_spec("%? 1800 080046 f0030103 12 01 %?%? %?%?%?%?"@, reply@) {
            None => r matches Err(e) && e == NetMDError::Scan,
            Some(p) => r matches Ok(_),
        },
{
    let p = match scan("%? 1800 080046 f0030103 12 01 %?%? %?%?%?%?", reply) {
        Ok(p) => p,
        Err(e) => {
            return Err(e);
        },
    };
    Ok(())
}

/// Query that exchanges nonces for the session key.
pub fn session_key_exchange_query(host_nonce: &[u8; 8]) -> (q: Query)
    ensures
        q.0@ == seq![0x00u8, 0x18u8, 0x00u8, 0x08u8, 0x00u8, 0x46u8, 0xf0u8, 0x03u8, 0x01u8, 0x03u8, 0x20u8, 0xffu8, 0x00u8, 0x00u8, 0x00u8] + host_nonce@,
{
    let b = QueryBuilder::new();
    let lit: Vec<u8> = vec![0x00u8, 0x18u8, 0x00u8, 0x08u8, 0x00u8, 0x46u8, 0xf0u8, 0x03u8, 0x01u8, 0x03u8, 0x20u8, 0xffu8, 0x00u8, 0x00u8, 0x00u8];
    assert(lit@ =~= seq![0x00u8, 0x18u8, 0x00u8, 0x08u8, 0x00u8, 0x46u8, 0xf0u8, 0x03u8, 0x01u8, 0x03u8, 0x20u8, 0xffu8, 0x00u8, 0x00u8, 0x00u8]);
    let b = b.bytes(lit.as_slice());
    let b = b.bytes(host_nonce.as_slice());
    let q = b.build();
    assert(q.0@ =~= seq![0x00u8, 0x18u8, 0x00u8, 0x08u8, 0x00u8, 0x46u8, 0xf0u8, 0x03u8, 0x01u8, 0x03u8, 0x20u8, 0xffu8, 0x00u8, 0x00u8, 0x00u8] + host_nonce@);
    q
}

/// Query that drops the session key.
pub fn session_key_forget_query() -> (q: Query)
    ensures
        q.0@ == seq![0x00u8, 0x18u8, 0x00u8, 0x08u8, 0x00u8, 0x46u8, 0xf0u8, 0x03u8, 0x01u8, 0x03u8, 0x21u8, 0xffu8, 0x00u8, 0x00u8, 0x00u8],
{
    let b = QueryBuilder::new();
    let lit: Vec<u8> = vec![0x00u8, 0x18u8, 0x00u8, 0x08u8, 0x00u8, 0x46u8, 0xf0u8, 0x03u8, 0x01u8, 0x03u8, 0x21u8, 0xffu8, 0x00u8, 0x00u8, 0x00u8];
    assert(lit@ =~= seq![0x00u8, 0x18u8, 0x00u8, 0x08u8, 0x00u8, 0x46u8, 0xf0u8, 0x03u8, 0x01u8, 0x03u8, 0x21u8, 0xffu8, 0x00u8, 0x00u8, 0x00u8]);
    let b = b.bytes(lit.as_slice());
    let q = b.build();
    assert(q.0@ =~= seq![0x00u8, 0x18u8, 0x00u8, 0x08u8, 0x00u8, 0x46u8, 0xf0u8, 0x03u8, 0x01u8, 0x03u8, 0x21u8, 0xffu8, 0x00u8, 0x00u8, 0x00u8]);
    q
}

/// Checks the reply of dropping the session key.
pub fn parse_session_key_forget_reply(reply: &[u8]) -> (r: Result<(), NetMDError>)
    ensures
        match scan_spec("%? 1800 080046 f0030103 21 00 000000"@, reply@) {
            None => r matches Err(e) && e == NetMDError::Scan,
            Some(p) => r matches Ok(_),
        },
{
    let p = match scan("%? 1800 080046 f0030103 21 00 000000", reply) {
        Ok(p) => p,
        Err(e) => {
            return Err(e);
        },
    };
    Ok(())
}

/// Checks the reply of setting up a download.
pub fn parse_setup_download_reply(reply: &[u8]) -> (r: Result<(), NetMDError>)
    ensures
        match scan_spec("%? 1800 080046 f0030103 22 00 0000"@, reply@) {
            None => r matches Err(e) && e == NetMDError::Scan,
            Some(p) => r matches Ok(_),
        },
{
    let p = match scan("%? 1800 080046 f0030103 22 00 0000", reply) {
        Ok(p) => p,
        Err(e) => {
            return Err(e);
        },
    };
    Ok(())
}

/// Query that sets the protection of new tracks.
pub fn disable_new_track_protection_query(val: u16) -> (q: Query)
    ensures
        q.0@ == seq![0x00u8, 0x18u8, 0x00u8, 0x08u8, 0x00u8, 0x46u8, 0xf0u8, 0x03u8, 0x01u8, 0x03u8, 0x2bu8, 0xffu8] + be16(val),
{
    let b = QueryBuilder::new();
    let lit: Vec<u8> = vec![0x00u8, 0x18u8, 0x00u8, 0x08u8, 0x00u8, 0x46u8, 0xf0u8, 0x03u8, 0x01u8, 0x03u8, 0x2bu8, 0xffu8];
    assert(lit@ =~= seq![0x00u8, 0x18u8, 0x00u8, 0x08u8, 0x00u8, 0x46u8, 0xf0u8, 0x03u8, 0x01u8, 0x03u8, 0x2bu8, 0xffu8]);
    let b = b.bytes(lit.as_slice());
    let b = b.u16(val);
    let q = b.build();
    assert(q.0@ =~= seq![0x00u8, 0x18u8, 0x00u8, 0x08u8, 0x00u8, 0x46u8, 0xf0u8, 0x03u8, 0x01u8, 0x03u8, 0x2bu8, 0xffu8] + be16(val));
    q
}

/// Checks the reply of setting the new-track protection.
pub fn parse_disable_new_track_protection_reply(reply: &[u8]) -> (r: Result<(), NetMDError>)
    ensures
        match scan_spec("%? 1800 080046 f0030103 2b 00 %?%?"@, reply@) {
            None => r matches Err(e) && e == NetMDError::Scan,
            Some(p) => r matches Ok(_),
        },
{
    let p = match scan("%? 1800 080046 f0030103 2b 00 %?%?", reply) {
        Ok(p) => p,
        Err(e) => {
            return Err(e);
        },
    };
    Ok(())
}

/// Checks the reply of committing a track.
pub fn parse_commit_track_reply(reply: &[u8]) -> (r: Result<(), NetMDError>)
    ensures
        match scan_spec("%? 1800 080046 f0030103 48 00 00 1001 %?%?"@, reply@) {
            None => r matches Err(e) && e == NetMDError::Scan,
            Some(p) => r matches Ok(_),
        },
{
    let p = match scan("%? 1800 080046 f0030103 48 00 00 1001 %?%?", reply) {
        Ok(p) => p,
        Err(e) => {
            return Err(e);
        },
    };
    Ok(())
}

/// Query that ends the secure session's transfer.
pub fn terminate_query() -> (q: Query)
    ensures
        q.0@ == seq![0x00u8, 0x18u8, 0x00u8, 0x08u8, 0x00u8, 0x46u8, 0xf0u8, 0x03u8, 0x01u8, 0x03u8, 0x2au8, 0xffu8, 0x00u8],
{
    let b = QueryBuilder::new();
    let lit: Vec<u8> = vec![0x00u8, 0x18u8, 0x00u8, 0x08u8, 0x00u8, 0x46u8, 0xf0u8, 0x03u8, 0x01u8, 0x03u8, 0x2au8, 0xffu8, 0x00u8];
    assert(lit@ =~= seq![0x00u8, 0x18u8, 0x00u8, 0x08u8, 0x00u8, 0x46u8, 0xf0u8, 0x03u8, 0x01u8, 0x03u8, 0x2au8, 0xffu8, 0x00u8]);
    let b = b.bytes(lit.as_slice());
    let q = b.build();
    assert(q.0@ =~= seq![0x00u8, 0x18u8, 0x00u8, 0x08u8, 0x00u8, 0x46u8, 0xf0u8, 0x03u8, 0x01u8, 0x03u8, 0x2au8, 0xffu8, 0x00u8]);
    q
}

/// Query that announces a track upload.
pub fn send_track_query(wireformat: u8, discformat: u8, frames: u32, total_bytes: u32) -> (q: Query)
    ensures
        q.0@ == seq![0x00u8, 0x18u8, 0x00u8, 0x08u8, 0x00u8, 0x46u8, 0xf0u8, 0x03u8, 0x01u8, 0x03u8, 0x28u8, 0xffu8, 0x00u8, 0x01u8, 0x00u8, 0x10u8, 0x01u8, 0xffu8, 0xffu8, 0x00u8] + seq![wireformat] + seq![discformat] + be32(frames) + be32(total_bytes),
{
    let b = QueryBuilder::new();
    let lit: Vec<u8> = vec![0x00u8, 0x18u8, 0x00u8, 0x08u8, 0x00u8, 0x46u8, 0xf0u8, 0x03u8, 0x01u8, 0x03u8, 0x28u8, 0xffu8, 0x00u8, 0x01u8, 0x00u8, 0x10u8, 0x01u8, 0xffu8, 0xffu8, 0x00u8];
    assert(lit@ =~= seq![0x00u8, 0x18u8, 0x00u8, 0x08u8, 0x00u8, 0x46u8, 0xf0u8, 0x03u8, 0x01u8, 0x03u8, 0x28u8, 0xffu8, 0x00u8, 0x01u8, 0x00u8, 0x10u8, 0x01u8, 0xffu8, 0xffu8, 0x00u8]);
    let b = b.bytes(lit.as_slice());
    let b = b.u8(wireformat);
    let b = b.u8(discformat);
    let b = b.u32(frames);
    let b = b.u32(total_bytes);
    let q = b.build();
    assert(q.0@ =~= seq![0x00u8, 0x18u8, 0x00u8, 0x08u8, 0x00u8, 0x46u8, 0xf0u8, 0x03u8, 0x01u8, 0x03u8, 0x28u8, 0xffu8, 0x00u8, 0x01u8, 0x00u8, 0x10u8, 0x01u8, 0xffu8, 0xffu8, 0x00u8] + seq![wireformat] + seq![discformat] + be32(frames) + be32(total_bytes));
    q
}

/// Checks the reply that accepts a track upload.
pub fn parse_send_track_start_reply(reply: &[u8]) -> (r: Result<(), NetMDError>)
    ensures
        match scan_spec("%? 1800 080046 f0030103 28 00 000100 1001 %?%? 00 %*"@, reply@) {
            None => r matches Err(e) && e == NetMDError::Scan,
            Some(p) => r matches Ok(_),
        },
{
    let p = match scan("%? 1800 080046 f0030103 28 00 000100 1001 %?%? 00 %*", reply) {
        Ok(p) => p,
        Err(e) => {
            return Err(e);
        },
    };
    Ok(())
}

/// The prefix of every secure-session command.
pub open spec fn secure_prefix() -> Seq<u8> {
    seq![0x00u8, 0x18u8, 0x00u8, 0x08u8, 0x00u8, 0x46u8, 0xf0u8, 0x03u8, 0x01u8, 0x03u8]
}

/// The key chain entries, one after the other.
pub open spec fn key_chain_bytes(chain: Seq<[u8; 16]>) -> Seq<u8>
    decreases chain.len(),
{
    if chain.len() == 0 {
        Seq::empty()
    } else {
        key_chain_bytes(chain.drop_last()) + chain.last()@
    }
}

/// The bytes of the key-data command: the data length (key chain plus 40,
/// truncated to 16 bits) twice, chain length, depth, key block ID, the chain
/// and the signature.
pub open spec fn send_key_data_spec(ekb_id: u32, chain: Seq<[u8; 16]>, depth: u8, signature: Seq<u8>) -> Seq<u8> {
    let databytes = ((16 + 16 * chain.len() + 24) % 0x10000) as u16;
    secure_prefix() + seq![0x12u8, 0xffu8] + be16(databytes) + seq![0x00u8, 0x00u8] + be16(databytes) + be32(
        chain.len() as u32,
    ) + be32(depth as u32) + be32(ekb_id) + seq![0x00u8, 0x00u8, 0x00u8, 0x00u8] + key_chain_bytes(chain)
        + signature
}

/// The key-data command; a depth outside `1..=63` is refused.
pub fn send_key_data_query(ekb_id: u32, key_chain: &[[u8; 16]], depth: u8, signature: &[u8; 24]) -> (r: Result<
    Query,
    NetMDError,
>)
    requires
        16 * key_chain@.len() + 40 <= u32::MAX,
    ensures
        1 <= depth <= 63 ==> (r matches Ok(q) && q.0@ == send_key_data_spec(ekb_id, key_chain@, depth, signature@)),
        !(1 <= depth <= 63) ==> (r matches Err(e) && e == NetMDError::InvalidInput),
{
    if !(1 <= depth && depth <= 63) {
        return Err(NetMDError::InvalidInput);
    }
    let chain_len = key_chain.len() as u32;
    let databytes = 16 + 16 * chain_len + 24;
    let mut chain_bytes: Vec<u8> = Vec::new();
    let mut i: usize = 0;
    while i < key_chain.len()
        invariant
            i <= key_chain@.len(),
            chain_bytes@ == key_chain_bytes(key_chain@.take(i as int)),
        decreases key_chain@.len() - i,
    {
        assert(key_chain@.take(i + 1).drop_last() =~= key_chain@.take(i as int));
        append_bytes(&mut chain_bytes, key_chain[i].as_slice());
        i = i + 1;
    }
    assert(key_chain@.take(key_chain@.len() as int) =~= key_chain@);
    let d16 = (databytes % 0x10000) as u16;
    let prefix: Vec<u8> = vec![0x00u8, 0x18u8, 0x00u8, 0x08u8, 0x00u8, 0x46u8, 0xf0u8, 0x03u8, 0x01u8, 0x03u8, 0x12u8, 0xffu8];
    let zero2: Vec<u8> = vec![0x00u8, 0x00u8];
    let zero4: Vec<u8> = vec![0x00u8, 0x00u8, 0x00u8, 0x00u8];
    let q = QueryBuilder::new().bytes(prefix.as_slice()).u16(d16).bytes(zero2.as_slice()).u16(d16).u32(chain_len).u32(
        depth as u32,
    ).u32(ekb_id).bytes(zero4.as_slice()).bytes(chain_bytes.as_slice()).bytes(signature.as_slice()).build();
    assert(q.0@ =~= send_key_data_spec(ekb_id, key_chain@, depth, signature@));
    Ok(q)
}

/// The device nonce in a key-exchange reply; it must be eight bytes.
pub fn parse_session_key_exchange_reply(reply: &[u8]) -> (r: Result<[u8; 8], NetMDError>)
    ensures
        match scan_spec("%? 1800 080046 f0030103 20 %? 000000 %*"@, reply@) {
            None => r matches Err(e) && e == NetMDError::Scan,
            Some(p) => if p.len() >= 1 && p[0].len() == 8 {
                r matches Ok(n) && n@ == p[0]
            } else {
                r matches Err(e) && e == NetMDError::UnexpectedResponse
            },
        },
{
    let p = match scan("%? 1800 080046 f0030103 20 %? 000000 %*", reply) {
        Ok(p) => p,
        Err(e) => {
            return Err(e);
        },
    };
    if p.len() < 1 || p[0].len() != 8 {
        return Err(NetMDError::UnexpectedResponse);
    }
    let d = p[0];
    let n = [d[0], d[1], d[2], d[3], d[4], d[5], d[6], d[7]];
    assert(n@ =~= d@);
    Ok(n)
}

/// The download setup message `01 01 01 01`, content ID, key-encryption key.
pub open spec fn setup_message(content_id: Seq<u8>, kek: Seq<u8>) -> Seq<u8> {
    seq![1u8, 1u8, 1u8, 1u8] + content_id + kek
}

/// The download setup command: the setup message DES-CBC encrypted under
/// the session key with a zero IV.
pub fn setup_download_query(content_id: &[u8; 20], kek: &[u8; 8], session_key: &[u8; 8]) -> (q: Query)
    ensures
        q.0@ == secure_prefix() + seq![0x22u8, 0xffu8, 0x00u8, 0x00u8] + des_cbc_encrypt_of(
            session_key@,
            seq![0u8, 0u8, 0u8, 0u8, 0u8, 0u8, 0u8, 0u8],
            setup_message(content_id@, kek@),
        ),
{
    let mut message: Vec<u8> = vec![1u8, 1u8, 1u8, 1u8];
    append_bytes(&mut message, content_id.as_slice());
    append_bytes(&mut message, kek.as_slice());
    let zero_iv: [u8; 8] = [0u8; 8];
    assert(zero_iv@ =~= seq![0u8, 0u8, 0u8, 0u8, 0u8, 0u8, 0u8, 0u8]);
    assert(message@ =~= setup_message(content_id@, kek@));
    let encrypted = des_cbc_encrypt(session_key, &zero_iv, message.as_slice());
    let head: Vec<u8> = vec![0x00u8, 0x18u8, 0x00u8, 0x08u8, 0x00u8, 0x46u8, 0xf0u8, 0x03u8, 0x01u8, 0x03u8, 0x22u8, 0xffu8, 0x00u8, 0x00u8];
    let q = QueryBuilder::new().bytes(head.as_slice()).bytes(encrypted.as_slice()).build();
    assert(q.0@ =~= secure_prefix() + seq![0x22u8, 0xffu8, 0x00u8, 0x00u8] + encrypted@);
    q
}

/// The track commit command, authenticated by the DES-ECB encryption of a
/// zero block under the session key.
pub fn commit_track_query(track: u16, session_key: &[u8; 8]) -> (q: Query)
    ensures
        q.0@ == secure_prefix() + seq![0x48u8, 0xffu8, 0x00u8, 0x10u8, 0x01u8] + be16(track) + des_ecb_encrypt_of(
            session_key@,
            seq![0u8, 0u8, 0u8, 0u8, 0u8, 0u8, 0u8, 0u8],
        ),
{
    let zero: [u8; 8] = [0u8; 8];
    assert(zero@ =~= seq![0u8, 0u8, 0u8, 0u8, 0u8, 0u8, 0u8, 0u8]);
    let authentication = des_ecb_encrypt(session_key, zero.as_slice());
    let head: Vec<u8> = vec![0x00u8, 0x18u8, 0x00u8, 0x08u8, 0x00u8, 0x46u8, 0xf0u8, 0x03u8, 0x01u8, 0x03u8, 0x48u8, 0xffu8, 0x00u8, 0x10u8, 0x01u8];
    let q = QueryBuilder::new().bytes(head.as_slice()).u16(track).bytes(authentication.as_slice()).build();
    assert(q.0@ =~= secure_prefix() + seq![0x48u8, 0xffu8, 0x00u8, 0x10u8, 0x01u8] + be16(track) + authentication@);
    q
}

/// Bytes announced for an upload: the packets plus their 24-byte header,
/// kept to 32 bits.
pub fn upload_total_bytes(pkt_size: u32) -> (r: u32)
    ensures
        r == (pkt_size + 24) % 0x1_0000_0000,
{
    let total: u64 = pkt_size as u64 + 24;
    (total % 0x1_0000_0000) as u32
}

/// What goes over the bulk endpoint for packet `index`: the first packet
/// is preceded by four zero bytes, the payload size, its key and IV.
pub fn packet_frame(index: usize, pkt_size: u32, packet: &EncryptedPacket) -> (r: Vec<u8>)
    ensures
        index == 0 ==> r@ == seq![0u8, 0u8, 0u8, 0u8] + be32(pkt_size) + packet.key@ + packet.iv@ + packet.data@,
        index != 0 ==> r@ == packet.data@,
{
    if index == 0 {
        let mut v: Vec<u8> = vec![0u8, 0u8, 0u8, 0u8];
        let b = QueryBuilder::new().u32(pkt_size).build();
        append_bytes(&mut v, b.0.as_slice());
        append_bytes(&mut v, packet.key.as_slice());
        append_bytes(&mut v, packet.iv.as_slice());
        append_bytes(&mut v, packet.data.as_slice());
        assert(v@ =~= seq![0u8, 0u8, 0u8, 0u8] + be32(pkt_size) + packet.key@ + packet.iv@ + packet.data@);
        v
    } else {
        slice_to_vec(packet.data.as_slice())
    }
}

/// Lowercase hexadecimal digit of a nibble.
pub open spec fn hex_char(n: u8) -> char {
    if n < 10 {
        ((n + 0x30) as u8) as char
    } else {
        ((n - 10 + 0x61) as u8) as char
    }
}

/// Bytes as lowercase hexadecimal, two digits each.
pub open spec fn hex_spec(b: Seq<u8>) -> Seq<char>
    decreases b.len(),
{
    if b.len() == 0 {
        Seq::empty()
    } else {
        hex_spec(b.drop_last()) + seq![hex_char(b.last() / 16), hex_char(b.last() % 16)]
    }
}

pub(crate) fn hex_digit_char(n: u8) -> (c: char)
    requires
        n < 16,
    ensures
        c == hex_char(n),
{
    match n {
        0 => '0',
        1 => '1',
        2 => '2',
        3 => '3',
        4 => '4',
        5 => '5',
        6 => '6',
        7 => '7',
        8 => '8',
        9 => '9',
        10 => 'a',
        11 => 'b',
        12 => 'c',
        13 => 'd',
        14 => 'e',
        _ => 'f',
    }
}

/// Bytes as lowercase hexadecimal, two digits each.
pub fn hex_string(bytes: &[u8]) -> (r: String)
    ensures
        r@ == hex_spec(bytes@),
{
    let mut s = String::new();
    let mut i: usize = 0;
    while i < bytes.len()
        invariant
            i <= bytes@.len(),
            s@ == hex_spec(bytes@.take(i as int)),
        decreases bytes@.len() - i,
    {
        assert(bytes@.take(i + 1).drop_last() =~= bytes@.take(i as int));
        let b = bytes[i];
        string_push(&mut s, hex_digit_char(b / 16));
        string_push(&mut s, hex_digit_char(b % 16));
        i = i + 1;
    }
    assert(bytes@.take(bytes@.len() as int) =~= bytes@);
    s
}

/// The reply block of a finished upload, decrypted (DES-CBC under the
/// session key, zero IV) when it is a non-empty whole number of blocks.
pub open spec fn upload_reply_block(enc: Seq<u8>, session_key: Seq<u8>) -> Seq<u8> {
    if enc.len() % 8 == 0 && enc.len() > 0 {
        des_cbc_decrypt_of(session_key, seq![0u8, 0u8, 0u8, 0u8, 0u8, 0u8, 0u8, 0u8], enc)
    } else {
        enc
    }
}

/// `b[from..to]`, or nothing when `b` is shorter.
pub open spec fn sub_or_empty(b: Seq<u8>, from: int, to: int) -> Seq<u8> {
    if to <= b.len() {
        b.subrange(from, to)
    } else {
        Seq::empty()
    }
}

/// The template of the reply that ends an upload.
pub open spec fn send_track_end_template() -> Seq<char> {
    "%? 1800 080046 f0030103 28 00 000100 1001 %w 00 %?%? %?%?%?%? %?%?%?%? %*"@
}

/// The outcome of an upload: the new track number, and the UUID (bytes
/// `0..8`) and content ID (bytes `12..32`) of the reply block in hex.
pub fn parse_send_track_reply(reply: &[u8], session_key: &[u8; 8]) -> (r: Result<(u16, String, String), NetMDError>)
    ensures
        match scan_spec(send_track_end_template(), reply@) {
            None => r matches Err(e) && e == NetMDError::Scan,
            Some(p) => if p.len() < 2 {
                r matches Err(e) && e == NetMDError::UnexpectedResponse
            } else if p[0].len() != 2 {
                r matches Err(e) && e == NetMDError::InvalidDataLength
            } else {
                let block = upload_reply_block(p[1], session_key@);
                r matches Ok((n, uuid, cid)) && n == be_value(p[0]) as u16 && uuid@ == hex_spec(
                    sub_or_empty(block, 0, 8),
                ) && cid@ == hex_spec(sub_or_empty(block, 12, 32))
            },
        },
{
    let p = match scan("%? 1800 080046 f0030103 28 00 000100 1001 %w 00 %?%? %?%?%?%? %?%?%?%? %*", reply) {
        Ok(p) => p,
        Err(e) => {
            return Err(e);
        },
    };
    if p.len() < 2 {
        return Err(NetMDError::UnexpectedResponse);
    }
    let track_number = match parse_u16(p[0]) {
        Ok(n) => n,
        Err(e) => {
            return Err(e);
        },
    };
    let enc = p[1];
    let zero_iv: [u8; 8] = [0u8; 8];
    assert(zero_iv@ =~= seq![0u8, 0u8, 0u8, 0u8, 0u8, 0u8, 0u8, 0u8]);
    let block: Vec<u8> = if enc.len() % 8 == 0 && enc.len() > 0 {
        des_cbc_decrypt(session_key, &zero_iv, enc)
    } else {
        slice_to_vec(enc)
    };
    let uuid = if block.len() >= 8 {
        hex_string(vstd::slice::slice_subrange(block.as_slice(), 0, 8))
    } else {
        hex_string(&[])
    };
    let cid = if block.len() >= 32 {
        hex_string(vstd::slice::slice_subrange(block.as_slice(), 12, 32))
    } else {
        hex_string(&[])
    };
    Ok((track_number, uuid, cid))
}

/// How many times the operating status is polled while waiting for the
/// device to be ready for a download.
pub const DOWNLOAD_READY_POLLS: u32 = 50;

/// The wait after a status poll that did not find the device ready, in
/// milliseconds.
pub const DOWNLOAD_READY_POLL_MS: u64 = 200;

/// What to do after a status poll while preparing a download.
#[derive(Debug, Clone, Copy, PartialEq, Eq, Structural)]
pub enum ReadyStep {
    /// The device is ready (or holds a blank disc): go on at once.
    Proceed,
    /// Wait this many milliseconds, then poll again.
    WaitAndPoll(u64),
    /// Wait this many milliseconds, then go on without further polls.
    WaitAndProceed(u64),
}

/// The waiting for a device to be ready for a download: how many status
/// polls have been made.
pub struct ReadyPoll {
    pub polls: u32,
}

impl ReadyPoll {
    /// Before the first poll.
    pub fn new() -> (p: ReadyPoll)
        ensures
            p.polls == 0,
    {
        ReadyPoll { polls: 0 }
    }

    /// The decision on the status just polled (`None` when the poll
    /// failed): go on when the device is ready or the disc is blank, else
    /// wait and poll again, up to [`DOWNLOAD_READY_POLLS`] polls in all,
    /// after the last of which the wait is followed by going on.
    pub fn on_status(&mut self, status: Option<OperatingStatus>) -> (s: ReadyStep)
        requires
            old(self).polls < DOWNLOAD_READY_POLLS,
        ensures
            final(self).polls == old(self).polls + 1,
            s == (match status {
                Some(OperatingStatus::Ready) | Some(OperatingStatus::BlankDisc) => ReadyStep::Proceed,
                _ => if old(self).polls + 1 < DOWNLOAD_READY_POLLS {
                    ReadyStep::WaitAndPoll(DOWNLOAD_READY_POLL_MS)
                } else {
                    ReadyStep::WaitAndProceed(DOWNLOAD_READY_POLL_MS)
                },
            }),
    {
        self.polls = self.polls + 1;
        match status {
            Some(OperatingStatus::Ready) | Some(OperatingStatus::BlankDisc) => ReadyStep::Proceed,
            _ => if self.polls < DOWNLOAD_READY_POLLS {
                ReadyStep::WaitAndPoll(DOWNLOAD_READY_POLL_MS)
            } else {
                ReadyStep::WaitAndProceed(DOWNLOAD_READY_POLL_MS)
            },
        }
    }
}

} // verus!
