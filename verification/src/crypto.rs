//! DES-based cryptography of the secure download pipeline.
//!
//! The block cipher modes come from the `des`, `cbc` and `ecb` crates; what
//! they compute is named below and not restated. The retail MAC that yields
//! the session key, and the splitting of a track into encrypted packets with
//! chained initialization vectors, are verified on top of them.

use vstd::prelude::*;
use cipher::{BlockDecryptMut, BlockEncryptMut, KeyInit, KeyIvInit};
use crate::util::append_bytes;

verus! {

/// DES-CBC encryption (no padding) by the `cbc` and `des` crates.
pub uninterp spec fn des_cbc_encrypt_of(key: Seq<u8>, iv: Seq<u8>, data: Seq<u8>) -> Seq<u8>;

/// DES-CBC decryption (no padding) by the `cbc` and `des` crates.
pub uninterp spec fn des_cbc_decrypt_of(key: Seq<u8>, iv: Seq<u8>, data: Seq<u8>) -> Seq<u8>;

/// DES-ECB encryption (no padding) by the `ecb` and `des` crates.
pub uninterp spec fn des_ecb_encrypt_of(key: Seq<u8>, data: Seq<u8>) -> Seq<u8>;

/// DES-ECB decryption (no padding) by the `ecb` and `des` crates.
pub uninterp spec fn des_ecb_decrypt_of(key: Seq<u8>, data: Seq<u8>) -> Seq<u8>;

/// Two-key triple-DES (EDE2) CBC encryption (no padding) by the `cbc` and `des` crates.
pub uninterp spec fn tdes_cbc_encrypt_of(key: Seq<u8>, iv: Seq<u8>, data: Seq<u8>) -> Seq<u8>;

/// DES-CBC encryption of block-aligned data: `cbc::Encryptor<des::Des>`
/// with `encrypt_padded_mut::<NoPadding>` over a copy of the data. The
/// result is named [`des_cbc_encrypt_of`]; in-place encryption keeps its length.
#[verifier::external_body]
pub fn des_cbc_encrypt(key: &[u8; 8], iv: &[u8; 8], data: &[u8]) -> (r: Vec<u8>)
    requires
        data@.len() % 8 == 0,
    ensures
        r@ == des_cbc_encrypt_of(key@, iv@, data@),
        r@.len() == data@.len(),
{
    let mut buf = data.to_vec();
    let enc = cbc::Encryptor::<des::Des>::new(key.into(), iv.into());
    let _ = enc.encrypt_padded_mut::<cipher::block_padding::NoPadding>(&mut buf, data.len());
    buf
}

/// DES-CBC decryption of block-aligned data: `cbc::Decryptor<des::Des>`
/// with `decrypt_padded_mut::<NoPadding>` over a copy of the data. The
/// result is named [`des_cbc_decrypt_of`]; in-place decryption keeps its length.
#[verifier::external_body]
pub fn des_cbc_decrypt(key: &[u8; 8], iv: &[u8; 8], data: &[u8]) -> (r: Vec<u8>)
    requires
        data@.len() % 8 == 0,
    ensures
        r@ == des_cbc_decrypt_of(key@, iv@, data@),
        r@.len() == data@.len(),
{
    let mut buf = data.to_vec();
    let dec = cbc::Decryptor::<des::Des>::new(key.into(), iv.into());
    let _ = dec.decrypt_padded_mut::<cipher::block_padding::NoPadding>(&mut buf);
    buf
}

/// DES-ECB encryption of block-aligned data: `ecb::Encryptor<des::Des>`
/// with `encrypt_padded_mut::<NoPadding>` over a copy of the data. The
/// result is named [`des_ecb_encrypt_of`]; in-place encryption keeps its length.
#[verifier::external_body]
pub fn des_ecb_encrypt(key: &[u8; 8], data: &[u8]) -> (r: Vec<u8>)
    requires
        data@.len() % 8 == 0,
    ensures
        r@ == des_ecb_encrypt_of(key@, data@),
        r@.len() == data@.len(),
{
    let mut buf = data.to_vec();
    let enc = ecb::Encryptor::<des::Des>::new(key.into());
    let _ = enc.encrypt_padded_mut::<cipher::block_padding::NoPadding>(&mut buf, data.len());
    buf
}

/// DES-ECB decryption of block-aligned data: `ecb::Decryptor<des::Des>`
/// with `decrypt_padded_mut::<NoPadding>` over a copy of the data. The
/// result is named [`des_ecb_decrypt_of`]; in-place decryption keeps its length.
#[verifier::external_body]
pub fn des_ecb_decrypt(key: &[u8; 8], data: &[u8]) -> (r: Vec<u8>)
    requires
        data@.len() % 8 == 0,
    ensures
        r@ == des_ecb_decrypt_of(key@, data@),
        r@.len() == data@.len(),
{
    let mut buf = data.to_vec();
    let dec = ecb::Decryptor::<des::Des>::new(key.into());
    let _ = dec.decrypt_padded_mut::<cipher::block_padding::NoPadding>(&mut buf);
    buf
}

/// Two-key triple-DES CBC encryption of block-aligned data:
/// `cbc::Encryptor<des::TdesEde2>` with `encrypt_padded_mut::<NoPadding>`
/// over a copy of the data. The result is named [`tdes_cbc_encrypt_of`];
/// in-place encryption keeps its length.
#[verifier::external_body]
pub fn tdes_cbc_encrypt(key: &[u8; 16], iv: &[u8; 8], data: &[u8]) -> (r: Vec<u8>)
    requires
        data@.len() % 8 == 0,
    ensures
        r@ == tdes_cbc_encrypt_of(key@, iv@, data@),
        r@.len() == data@.len(),
{
    let mut buf = data.to_vec();
    let enc = cbc::Encryptor::<des::TdesEde2>::new(key.into(), iv.into());
    let _ = enc.encrypt_padded_mut::<cipher::block_padding::NoPadding>(&mut buf, data.len());
    buf
}

/// Eight bytes of `s` from `from` on, as an array.
fn eight_bytes(s: &[u8], from: usize) -> (r: [u8; 8])
    requires
        from + 8 <= s@.len(),
    ensures
        r@ == s@.subrange(from as int, from + 8),
{
    let r = [s[from], s[from + 1], s[from + 2], s[from + 3], s[from + 4], s[from + 5], s[from + 6], s[from + 7]];
    assert(r@ =~= s@.subrange(from as int, from + 8));
    r
}

/// The retail MAC of `value`: DES-CBC of all but the last block under the
/// first key half; its last block is the IV of a triple-DES CBC of the last
/// block under the whole key; the MAC is the first block of that.
pub open spec fn retailmac_spec(key: Seq<u8>, value: Seq<u8>, iv: Seq<u8>) -> Seq<u8> {
    let split = value.len() - 8;
    let step1 = des_cbc_encrypt_of(key.subrange(0, 8), iv, value.subrange(0, split));
    let iv2 = step1.subrange(step1.len() - 8, step1.len() as int);
    let step2 = tdes_cbc_encrypt_of(key, iv2, value.subrange(split, value.len() as int));
    step2.subrange(0, 8)
}

/// The retail MAC is ISO/IEC 9797-1 MAC algorithm 3 with DES: every block
/// but the last is chained in single-DES CBC under the first eight key
/// bytes, starting from `iv`; the last block is then encrypted in
/// two-key triple-DES CBC under the whole key, chained from the last
/// single-DES block; the MAC is the first eight bytes of that.
pub proof fn lemma_retailmac_is_mac_algorithm_3(key: Seq<u8>, value: Seq<u8>, iv: Seq<u8>)
    requires
        key.len() == 16,
        value.len() >= 16,
        value.len() % 8 == 0,
    ensures
        ({
            let n = value.len() as int;
            let single_key = seq![key[0], key[1], key[2], key[3], key[4], key[5], key[6], key[7]];
            let chained = des_cbc_encrypt_of(single_key, iv, value.take(n - 8));
            let last_iv = chained.skip(chained.len() - 8);
            retailmac_spec(key, value, iv) == tdes_cbc_encrypt_of(key, last_iv, value.skip(n - 8)).take(8)
        }),
{
    let n = value.len() as int;
    let single_key = seq![key[0], key[1], key[2], key[3], key[4], key[5], key[6], key[7]];
    assert(key.subrange(0, 8) =~= single_key);
    assert(value.subrange(0, n - 8) =~= value.take(n - 8));
    assert(value.subrange(n - 8, n) =~= value.skip(n - 8));
    let chained = des_cbc_encrypt_of(single_key, iv, value.take(n - 8));
    assert(chained.subrange(chained.len() - 8, chained.len() as int) =~= chained.skip(chained.len() - 8));
    let step2 = tdes_cbc_encrypt_of(key, chained.skip(chained.len() - 8), value.skip(n - 8));
    assert(step2.subrange(0, 8) =~= step2.take(8));
}

/// Computes the retail MAC that derives the session key.
pub fn retailmac(key: &[u8; 16], value: &[u8], iv: &[u8; 8]) -> (r: [u8; 8])
    requires
        value@.len() >= 16,
        value@.len() % 8 == 0,
    ensures
        r@ == retailmac_spec(key@, value@, iv@),
{
    let subkey_a = eight_bytes(key.as_slice(), 0);
    let split = value.len() - 8;
    let beginning = vstd::slice::slice_subrange(value, 0, split);
    let end = vstd::slice::slice_subrange(value, split, value.len());
    let step1 = des_cbc_encrypt(&subkey_a, iv, beginning);
    let iv2 = eight_bytes(step1.as_slice(), step1.len() - 8);
    let step2 = tdes_cbc_encrypt(key, &iv2, end);
    eight_bytes(step2.as_slice(), 0)
}

/// One encrypted packet of a track upload.
pub struct EncryptedPacket {
    /// The wrapped data key, sent in the first packet header.
    pub key: [u8; 8],
    /// The IV of this packet, sent in the first packet header.
    pub iv: [u8; 8],
    /// The DES-CBC encrypted audio chunk.
    pub data: Vec<u8>,
}

impl EncryptedPacket {
    /// The packet as plain values: key, IV, encrypted chunk.
    pub open spec fn view(&self) -> (Seq<u8>, Seq<u8>, Seq<u8>) {
        (self.key@, self.iv@, self.data@)
    }
}

/// Size of a packet chunk; the first one is 24 bytes shorter to leave room
/// for the packet header.
pub const DEFAULT_CHUNK_SIZE: usize = 0x0010_0000;

/// Bytes of the header sent before the first packet.
pub const FIRST_PACKET_HEADER: usize = 24;

/// Zero bytes that round `data_len` up to a multiple of `frame_size`.
pub open spec fn padding_spec(data_len: int, frame_size: int) -> int {
    if data_len % frame_size == 0 {
        0
    } else {
        frame_size - data_len % frame_size
    }
}

/// The packets of an upload from byte `offset` of the padded payload on
/// (`started` once the first packet is out), chained from `iv`: each chunk
/// (at most `DEFAULT_CHUNK_SIZE` bytes, 24 fewer for the first) is DES-CBC
/// encrypted under `raw_key`, and its last ciphertext block is the next IV.
pub open spec fn packets_from(padded: Seq<u8>, raw_key: Seq<u8>, key: Seq<u8>, offset: int, started: bool, iv: Seq<u8>) -> Seq<
    (Seq<u8>, Seq<u8>, Seq<u8>),
>
    decreases padded.len() - offset,
{
    if offset < 0 || offset >= padded.len() {
        Seq::empty()
    } else {
        let full = if started {
            0x0010_0000int
        } else {
            0x0010_0000int - 24
        };
        let size = if full < padded.len() - offset {
            full
        } else {
            padded.len() - offset
        };
        let enc = des_cbc_encrypt_of(raw_key, iv, padded.subrange(offset, offset + size));
        seq![(key, iv, enc)] + packets_from(padded, raw_key, key, offset + size, true, enc.subrange(enc.len() - 8, enc.len() as int))
    }
}

/// The packets of a whole upload under a given raw data key: the payload is
/// zero-padded to a multiple of the frame size; every packet carries the
/// raw key decrypted (DES-ECB) under the key-encryption key.
pub open spec fn packets_spec(kek: Seq<u8>, frame_size: int, data: Seq<u8>, raw_key: Seq<u8>) -> Seq<
    (Seq<u8>, Seq<u8>, Seq<u8>),
> {
    let key = des_ecb_decrypt_of(kek, raw_key);
    let padded = data + Seq::new(padding_spec(data.len() as int, frame_size) as nat, |i: int| 0u8);
    packets_from(padded, raw_key, key, 0, false, seq![0u8, 0u8, 0u8, 0u8, 0u8, 0u8, 0u8, 0u8])
}

/// Padding a length to a multiple of a block-aligned frame size makes it block-aligned.
proof fn lemma_padded_aligned(n: int, f: int)
    requires
        n >= 0,
        f > 0,
        f % 8 == 0,
    ensures
        (n + padding_spec(n, f)) % 8 == 0,
{
    let q = n / f;
    let r = n % f;
    vstd::arithmetic::div_mod::lemma_fundamental_div_mod(n, f);
    let a = f / 8;
    vstd::arithmetic::div_mod::lemma_fundamental_div_mod(f, 8);
    let m = if r == 0 {
        q
    } else {
        q + 1
    };
    assert(n + padding_spec(n, f) == f * m) by (nonlinear_arith)
        requires
            n == f * q + r,
            r == 0 ==> padding_spec(n, f) == 0,
            r != 0 ==> padding_spec(n, f) == f - r,
            m == (if r == 0 { q } else { q + 1 }),
    ;
    assert(f * m == 8 * (a * m)) by (nonlinear_arith)
        requires
            f == 8 * a,
    ;
    vstd::arithmetic::div_mod::lemma_mod_multiples_basic(a * m, 8);
}

/// Encrypts a payload into upload packets, chunk by chunk.
pub struct PacketEncryptor {
    padded: Vec<u8>,
    raw_key: [u8; 8],
    key: [u8; 8],
    iv: [u8; 8],
    offset: usize,
    started: bool,
}

impl PacketEncryptor {
    /// The packets still to come.
    pub closed spec fn remaining(&self) -> Seq<(Seq<u8>, Seq<u8>, Seq<u8>)> {
        packets_from(self.padded@, self.raw_key@, self.key@, self.offset as int, self.started, self.iv@)
    }

    /// Internal consistency: the padded payload is block-aligned and the
    /// packet position lies within it on a block boundary.
    pub closed spec fn wf(&self) -> bool {
        &&& self.padded@.len() % 8 == 0
        &&& self.offset <= self.padded@.len()
        &&& self.offset % 8 == 0
    }

    /// Zero bytes that round `data_len` up to a multiple of `frame_size`.
    pub fn padding_for(data_len: usize, frame_size: usize) -> (r: usize)
        requires
            frame_size > 0,
        ensures
            r == padding_spec(data_len as int, frame_size as int),
    {
        if data_len % frame_size == 0 {
            0
        } else {
            frame_size - (data_len % frame_size)
        }
    }

    /// An encryptor of `data` under the given raw data key.
    pub fn from_parts(kek: &[u8; 8], frame_size: usize, data: &[u8], raw_key: [u8; 8]) -> (e: PacketEncryptor)
        requires
            frame_size > 0,
            frame_size % 8 == 0,
            data@.len() + frame_size <= usize::MAX,
        ensures
            e.wf(),
            e.remaining() == packets_spec(kek@, frame_size as int, data@, raw_key@),
    {
        let key_dec = des_ecb_decrypt(kek, raw_key.as_slice());
        let key = eight_bytes(key_dec.as_slice(), 0);
        assert(key@ =~= des_ecb_decrypt_of(kek@, raw_key@));
        let pad = Self::padding_for(data.len(), frame_size);
        let mut padded: Vec<u8> = Vec::new();
        append_bytes(&mut padded, data);
        let mut i: usize = 0;
        while i < pad
            invariant
                i <= pad,
                padded@ == data@ + Seq::new(i as nat, |k: int| 0u8),
            decreases pad - i,
        {
            padded.push(0);
            i = i + 1;
            assert(padded@ =~= data@ + Seq::new(i as nat, |k: int| 0u8));
        }
        proof {
            lemma_padded_aligned(data@.len() as int, frame_size as int);
        }
        let e = PacketEncryptor { padded, raw_key, key, iv: [0u8; 8], offset: 0, started: false };
        assert(e.iv@ =~= seq![0u8, 0u8, 0u8, 0u8, 0u8, 0u8, 0u8, 0u8]);
        e
    }

    /// The next packet, or `None` once the whole padded payload is out.
    pub fn next_packet(&mut self) -> (r: Option<EncryptedPacket>)
        requires
            old(self).wf(),
        ensures
            final(self).wf(),
            old(self).remaining().len() == 0 ==> r is None && final(self).remaining() == old(self).remaining(),
            old(self).remaining().len() > 0 ==> (r matches Some(p) && p.view() == old(self).remaining()[0]
                && final(self).remaining() == old(self).remaining().drop_first()),
    {
        let total = self.padded.len();
        if self.offset >= total {
            return None;
        }
        let full: usize = if self.started {
            DEFAULT_CHUNK_SIZE
        } else {
            DEFAULT_CHUNK_SIZE - FIRST_PACKET_HEADER
        };
        let size = if full < total - self.offset {
            full
        } else {
            total - self.offset
        };
        let chunk = vstd::slice::slice_subrange(self.padded.as_slice(), self.offset, self.offset + size);
        assert(size % 8 == 0 && size >= 8) by (nonlinear_arith)
            requires
                size == full || size == total - self.offset,
                full == 0x0010_0000 || full == 0x0010_0000 - 24,
                total % 8 == 0,
                self.offset % 8 == 0,
                self.offset < total,
        ;
        let encrypted = des_cbc_encrypt(&self.raw_key, &self.iv, chunk);
        let next_iv = eight_bytes(encrypted.as_slice(), encrypted.len() - 8);
        let ghost before = old(self).remaining();
        let packet = EncryptedPacket { key: self.key, iv: self.iv, data: encrypted };
        self.iv = next_iv;
        self.offset = self.offset + size;
        self.started = true;
        assert(before == seq![packet.view()] + self.remaining());
        assert(before.drop_first() =~= self.remaining());
        Some(packet)
    }
}

/// Encrypts a payload into upload packets under the given raw data key.
pub fn encrypt_packets_with_key(kek: &[u8; 8], frame_size: usize, data: &[u8], raw_key: [u8; 8]) -> (r: Vec<EncryptedPacket>)
    requires
        frame_size > 0,
        frame_size % 8 == 0,
        data@.len() + frame_size <= usize::MAX,
    ensures
        r@.len() == packets_spec(kek@, frame_size as int, data@, raw_key@).len(),
        forall|k: int| 0 <= k < r@.len() ==> (#[trigger] r@[k]).view() == packets_spec(kek@, frame_size as int, data@, raw_key@)[k],
{
    let ghost all = packets_spec(kek@, frame_size as int, data@, raw_key@);
    let mut enc = PacketEncryptor::from_parts(kek, frame_size, data, raw_key);
    let mut out: Vec<EncryptedPacket> = Vec::new();
    loop
        invariant
            enc.wf(),
            all == packets_spec(kek@, frame_size as int, data@, raw_key@),
            out@.len() + enc.remaining().len() == all.len(),
            forall|k: int| 0 <= k < out@.len() ==> (#[trigger] out@[k]).view() == all[k],
            forall|k: int| 0 <= k < enc.remaining().len() ==> #[trigger] enc.remaining()[k] == all[out@.len() + k],
        decreases enc.remaining().len(),
    {
        match enc.next_packet() {
            None => {
                return out;
            },
            Some(p) => {
                out.push(p);
            },
        }
    }
}

/// A random data key from the operating system's source
/// (`rand::rngs::OsRng`, `TryRngCore::try_fill_bytes`): `None` when that
/// source fails. Nothing is claimed of the key's value.
#[verifier::external_body]
fn random_key() -> (r: Option<[u8; 8]>) {
    let mut key = [0u8; 8];
    match rand::TryRngCore::try_fill_bytes(&mut rand::rngs::OsRng, &mut key) {
        Ok(()) => Some(key),
        Err(_) => None,
    }
}

/// Encrypts a payload into upload packets under a fresh random data key;
/// `None` when no random key can be had.
pub fn encrypt_packets(kek: &[u8; 8], frame_size: usize, data: &[u8]) -> (r: Option<Vec<EncryptedPacket>>)
    requires
        frame_size > 0,
        frame_size % 8 == 0,
        data@.len() + frame_size <= usize::MAX,
    ensures
        r matches Some(v) ==> exists|raw_key: Seq<u8>|
            raw_key.len() == 8 && v@.len() == #[trigger] packets_spec(kek@, frame_size as int, data@, raw_key).len() && forall|k: int|
                0 <= k < v@.len() ==> (#[trigger] v@[k]).view() == packets_spec(kek@, frame_size as int, data@, raw_key)[k],
{
    match random_key() {
        Some(raw_key) => Some(encrypt_packets_with_key(kek, frame_size, data, raw_key)),
        None => None,
    }
}

} // verus!
