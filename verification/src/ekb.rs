//! The key block used in the secure download.

use vstd::prelude::*;

verus! {

/// Data needed for the key exchange with a device.
pub struct Ekb {
    /// Root key from which the session key is derived.
    pub root_key: [u8; 16],
    /// Key block identifier.
    pub ekb_id: u32,
    /// Key chain, 16 bytes per entry.
    pub key_chain: Vec<[u8; 16]>,
    /// Depth of the key chain.
    pub depth: u8,
    /// Signature of the key block.
    pub signature: [u8; 24],
}

/// The root key of the open-source key block.
pub open spec fn open_source_root_key() -> Seq<u8> {
    seq![0x12u8, 0x34, 0x56, 0x78, 0x9a, 0xbc, 0xde, 0xf0, 0x0f, 0xed, 0xcb, 0xa9, 0x87, 0x65, 0x43, 0x21]
}

/// The key chain of the open-source key block.
pub open spec fn open_source_key_chain() -> Seq<Seq<u8>> {
    seq![
        seq![0x25u8, 0x45, 0x06, 0x4d, 0xea, 0xca, 0x14, 0xf9, 0x96, 0xbd, 0xc8, 0xa4, 0x06, 0xc2, 0x2b, 0x81],
        seq![0xfbu8, 0x60, 0xbd, 0xdd, 0x0d, 0xbc, 0xab, 0x84, 0x8a, 0x00, 0x5e, 0x03, 0x19, 0x4d, 0x3e, 0xda],
    ]
}

/// The signature of the open-source key block.
pub open spec fn open_source_signature() -> Seq<u8> {
    seq![
        0x8fu8, 0x2b, 0xc3, 0x52, 0xe8, 0x6c, 0x5e, 0xd3, 0x06, 0xdc, 0xae, 0x18, 0xd2, 0xf3, 0x8c, 0x7f,
        0x89, 0xb5, 0xe1, 0x85, 0x55, 0xa1, 0x05, 0xea,
    ]
}

/// Whether a key block is the open-source one.
pub open spec fn is_open_source_ekb(e: Ekb) -> bool {
    &&& e.root_key@ == open_source_root_key()
    &&& e.ekb_id == 0x2642_2642
    &&& e.key_chain@.len() == 2
    &&& e.key_chain@[0]@ == open_source_key_chain()[0]
    &&& e.key_chain@[1]@ == open_source_key_chain()[1]
    &&& e.depth == 9
    &&& e.signature@ == open_source_signature()
}

/// The open-source key block, which every device accepts.
pub fn open_source_ekb() -> (e: Ekb)
    ensures
        is_open_source_ekb(e),
{
    let root_key: [u8; 16] = [
        0x12, 0x34, 0x56, 0x78, 0x9a, 0xbc, 0xde, 0xf0, 0x0f, 0xed, 0xcb, 0xa9, 0x87, 0x65, 0x43, 0x21,
    ];
    let k0: [u8; 16] = [
        0x25, 0x45, 0x06, 0x4d, 0xea, 0xca, 0x14, 0xf9, 0x96, 0xbd, 0xc8, 0xa4, 0x06, 0xc2, 0x2b, 0x81,
    ];
    let k1: [u8; 16] = [
        0xfb, 0x60, 0xbd, 0xdd, 0x0d, 0xbc, 0xab, 0x84, 0x8a, 0x00, 0x5e, 0x03, 0x19, 0x4d, 0x3e, 0xda,
    ];
    let signature: [u8; 24] = [
        0x8f, 0x2b, 0xc3, 0x52, 0xe8, 0x6c, 0x5e, 0xd3, 0x06, 0xdc, 0xae, 0x18, 0xd2, 0xf3, 0x8c, 0x7f,
        0x89, 0xb5, 0xe1, 0x85, 0x55, 0xa1, 0x05, 0xea,
    ];
    let mut key_chain: Vec<[u8; 16]> = Vec::new();
    key_chain.push(k0);
    key_chain.push(k1);
    assert(root_key@ =~= open_source_root_key());
    assert(k0@ =~= open_source_key_chain()[0]);
    assert(k1@ =~= open_source_key_chain()[1]);
    assert(signature@ =~= open_source_signature());
    Ekb { root_key, ekb_id: 0x2642_2642, key_chain, depth: 9, signature }
}

/// The key block for a device: the open-source one, whatever the device.
pub fn get_ekb_for_device(_leaf_id: &[u8], _vendor: u16, _product: u16) -> (e: Ekb)
    ensures
        is_open_source_ekb(e),
{
    open_source_ekb()
}

} // verus!
