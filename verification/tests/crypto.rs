use netmd::crypto::{
    des_cbc_decrypt, des_cbc_encrypt, des_ecb_decrypt, des_ecb_encrypt, encrypt_packets, encrypt_packets_with_key,
    retailmac, tdes_cbc_encrypt, EncryptedPacket, PacketEncryptor,
};

#[test]
fn crypto_des_cbc_block_aligned() {
    let key = [0u8; 8];
    let iv = [0u8; 8];
    let data = [0u8; 16];
    let out = des_cbc_encrypt(&key, &iv, &data);
    assert_eq!(out.len(), 16);
}

#[test]
fn crypto_ecb_roundtrip() {
    let key = [0x14, 0xe3, 0x83, 0x4e, 0xe2, 0xd3, 0xcc, 0xa5];
    let data = [0x11u8, 0x22, 0x33, 0x44, 0x55, 0x66, 0x77, 0x88];
    let enc = des_ecb_encrypt(&key, &data);
    let dec = des_ecb_decrypt(&key, &enc);
    assert_eq!(dec, data);
}

/// The eager encryptor: pads, then encrypts chunk by chunk with IV chaining.
fn reference_encrypt(kek: &[u8; 8], frame_size: usize, data: &[u8], raw_key: [u8; 8]) -> Vec<EncryptedPacket> {
    let key_dec = des_ecb_decrypt(kek, &raw_key);
    let key: [u8; 8] = key_dec[0..8].try_into().unwrap();
    let mut padded = data.to_vec();
    if padded.len() % frame_size != 0 {
        let pad = frame_size - (padded.len() % frame_size);
        padded.extend(std::iter::repeat(0u8).take(pad));
    }
    let default_chunk_size: usize = 0x0010_0000;
    let mut packets = Vec::new();
    let mut iv = [0u8; 8];
    let mut offset = 0usize;
    let mut packet_count = 0usize;
    while offset < padded.len() {
        let mut chunk_size = if packet_count > 0 {
            default_chunk_size
        } else {
            default_chunk_size - 24
        };
        chunk_size = chunk_size.min(padded.len() - offset);
        let chunk = &padded[offset..offset + chunk_size];
        let encrypted = des_cbc_encrypt(&raw_key, &iv, chunk);
        let next_iv: [u8; 8] = encrypted[encrypted.len() - 8..].try_into().unwrap();
        packets.push(EncryptedPacket { key, iv, data: encrypted });
        iv = next_iv;
        offset += chunk_size;
        packet_count += 1;
    }
    packets
}

fn assert_streaming_matches(frame_size: usize, data: &[u8]) {
    let kek = [0x14, 0xe3, 0x83, 0x4e, 0xe2, 0xd3, 0xcc, 0xa5];
    let raw_key = [0x01, 0x23, 0x45, 0x67, 0x89, 0xab, 0xcd, 0xef];
    let expected = reference_encrypt(&kek, frame_size, data, raw_key);
    let mut enc = PacketEncryptor::from_parts(&kek, frame_size, data, raw_key);
    let mut got = Vec::new();
    while let Some(p) = enc.next_packet() {
        got.push(p);
    }
    assert_eq!(got.len(), expected.len(), "packet count");
    for (i, (g, e)) in got.iter().zip(&expected).enumerate() {
        assert_eq!(g.key, e.key, "packet {i} key");
        assert_eq!(g.iv, e.iv, "packet {i} iv");
        assert_eq!(g.data, e.data, "packet {i} data");
    }
}

#[test]
fn streaming_encryptor_matches_reference() {
    // Block-aligned, needs no padding.
    assert_streaming_matches(192, &(0u8..=255).cycle().take(192 * 4).collect::<Vec<_>>());
    // Needs padding to frame size.
    assert_streaming_matches(192, &(0u8..=255).cycle().take(200).collect::<Vec<_>>());
    // PCM frame size, small.
    assert_streaming_matches(2048, &(0u8..200).collect::<Vec<_>>());
    // Empty payload still pads to one frame.
    assert_streaming_matches(96, &[]);
}

#[test]
fn streaming_encryptor_spans_multiple_chunks() {
    // Exceed the 1 MiB chunk boundary so multiple packets are produced,
    // exercising the first-packet (-24) sizing and IV chaining across chunks.
    let frame_size = 2048;
    let len = 0x0010_0000 + 5 * frame_size; // > one full chunk
    let data: Vec<u8> = (0u8..=255).cycle().take(len).collect();
    assert_streaming_matches(frame_size, &data);
}

#[test]
fn crypto_retailmac_is_deterministic_and_8_bytes() {
    let root_key: [u8; 16] = [
        0x12, 0x34, 0x56, 0x78, 0x9a, 0xbc, 0xde, 0xf0, 0x0f, 0xed, 0xcb, 0xa9, 0x87, 0x65, 0x43, 0x21,
    ];
    let nonce = [1u8, 2, 3, 4, 5, 6, 7, 8, 9, 10, 11, 12, 13, 14, 15, 16];
    let iv = [0u8; 8];
    let mac1 = retailmac(&root_key, &nonce, &iv);
    let mac2 = retailmac(&root_key, &nonce, &iv);
    assert_eq!(mac1, mac2);
    assert_eq!(mac1.len(), 8);
}

#[test]
fn cbc_decrypt_undoes_encrypt() {
    let key = [0x01, 0x23, 0x45, 0x67, 0x89, 0xab, 0xcd, 0xef];
    let iv = [9u8, 8, 7, 6, 5, 4, 3, 2];
    let data: Vec<u8> = (0u8..32).collect();
    let enc = des_cbc_encrypt(&key, &iv, &data);
    assert_ne!(enc, data);
    assert_eq!(des_cbc_decrypt(&key, &iv, &enc), data);
}

#[test]
fn tdes_output_has_input_length_and_differs() {
    let key = [7u8; 16];
    let iv = [0u8; 8];
    let data = [0x55u8; 24];
    let out = tdes_cbc_encrypt(&key, &iv, &data);
    assert_eq!(out.len(), 24);
    assert_ne!(out.as_slice(), &data[..]);
}

#[test]
fn retailmac_depends_on_value() {
    let key = [3u8; 16];
    let iv = [0u8; 8];
    let a = retailmac(&key, &[1u8; 16], &iv);
    let b = retailmac(&key, &[2u8; 16], &iv);
    assert_ne!(a, b);
}

#[test]
fn packets_with_key_match_streaming() {
    let kek = [0x14, 0xe3, 0x83, 0x4e, 0xe2, 0xd3, 0xcc, 0xa5];
    let raw_key = [0x01, 0x23, 0x45, 0x67, 0x89, 0xab, 0xcd, 0xef];
    let data: Vec<u8> = (0u8..=255).cycle().take(1000).collect();
    let all = encrypt_packets_with_key(&kek, 96, &data, raw_key);
    let expected = reference_encrypt(&kek, 96, &data, raw_key);
    assert_eq!(all.len(), expected.len());
    assert_eq!(all[0].data, expected[0].data);
    assert_eq!(all[0].data.len(), 1056);
}

#[test]
fn random_key_packets_cover_the_padded_payload() {
    let kek = [0x14, 0xe3, 0x83, 0x4e, 0xe2, 0xd3, 0xcc, 0xa5];
    let data = vec![0u8; 100];
    let packets = encrypt_packets(&kek, 96, &data).expect("random source");
    assert_eq!(packets.len(), 1);
    assert_eq!(packets[0].data.len(), 192);
    assert_eq!(packets[0].iv, [0u8; 8]);
}

#[test]
fn padding_rounds_up_to_frame() {
    assert_eq!(PacketEncryptor::padding_for(100, 96), 92);
    assert_eq!(PacketEncryptor::padding_for(192, 96), 0);
    assert_eq!(PacketEncryptor::padding_for(0, 96), 0);
}

#[test]
fn retailmac_is_deterministic_and_8_bytes() {
    let root_key: [u8; 16] = [
        0x12, 0x34, 0x56, 0x78, 0x9a, 0xbc, 0xde, 0xf0, 0x0f, 0xed, 0xcb, 0xa9, 0x87, 0x65, 0x43, 0x21,
    ];
    let nonce = [1u8, 2, 3, 4, 5, 6, 7, 8, 9, 10, 11, 12, 13, 14, 15, 16];
    let iv = [0u8; 8];
    let mac1 = retailmac(&root_key, &nonce, &iv);
    let mac2 = retailmac(&root_key, &nonce, &iv);
    assert_eq!(mac1, mac2);
    assert_eq!(mac1.len(), 8);
}
