use netmd::crypto::{des_cbc_encrypt, EncryptedPacket};
use netmd::error::NetMDError;
use netmd::secure::{
    hex_string, packet_frame, parse_send_track_reply, send_key_data_query, upload_total_bytes, ReadyPoll, ReadyStep,
    DOWNLOAD_READY_POLLS, DOWNLOAD_READY_POLL_MS,
};
use netmd::types::OperatingStatus;

#[test]
fn hex_string_is_lowercase_two_digits_each() {
    assert_eq!(hex_string(&[0x00, 0x0a, 0xff, 0x3c]), "000aff3c");
    assert_eq!(hex_string(&[]), "");
}

#[test]
fn upload_total_adds_the_header() {
    assert_eq!(upload_total_bytes(100), 124);
    assert_eq!(upload_total_bytes(u32::MAX), 23);
}

#[test]
fn first_packet_carries_the_header() {
    let p = EncryptedPacket { key: [1; 8], iv: [2; 8], data: vec![3, 3] };
    let f = packet_frame(0, 0x0102, &p);
    assert_eq!(f, vec![0, 0, 0, 0, 0, 0, 1, 2, 1, 1, 1, 1, 1, 1, 1, 1, 2, 2, 2, 2, 2, 2, 2, 2, 3, 3]);
    assert_eq!(packet_frame(1, 0x0102, &p), vec![3, 3]);
}

#[test]
fn key_chain_depth_is_checked() {
    let chain = [[0u8; 16]; 2];
    let sig = [0u8; 24];
    assert!(send_key_data_query(1, &chain, 1, &sig).is_ok());
    assert!(matches!(send_key_data_query(1, &chain, 0, &sig), Err(NetMDError::InvalidInput)));
    assert!(matches!(send_key_data_query(1, &chain, 64, &sig), Err(NetMDError::InvalidInput)));
}

#[test]
fn upload_reply_is_decrypted_into_ids() {
    let session_key = [5u8; 8];
    let plain: Vec<u8> = (0u8..32).collect();
    let enc = des_cbc_encrypt(&session_key, &[0u8; 8], &plain);
    let mut reply = vec![
        0x09, 0x18, 0x00, 0x08, 0x00, 0x46, 0xf0, 0x03, 0x01, 0x03, 0x28, 0x00, 0x00, 0x01, 0x00, 0x10, 0x01, 0x00,
        0x07, 0x00, 0, 0, 0, 0, 0, 0, 0, 0, 0, 0,
    ];
    reply.extend_from_slice(&enc);
    let (track, uuid, cid) = parse_send_track_reply(&reply, &session_key).unwrap();
    assert_eq!(track, 7);
    assert_eq!(uuid, "0001020304050607");
    assert_eq!(cid, "0c0d0e0f101112131415161718191a1b1c1d1e1f");
}

#[test]
fn download_readiness_polls_until_ready_or_out_of_polls() {
    let mut poll = ReadyPoll::new();
    assert_eq!(poll.on_status(None), ReadyStep::WaitAndPoll(DOWNLOAD_READY_POLL_MS));
    assert_eq!(poll.on_status(Some(OperatingStatus::Unknown(0x1234))), ReadyStep::WaitAndPoll(200));
    assert_eq!(poll.on_status(Some(OperatingStatus::BlankDisc)), ReadyStep::Proceed);
    let mut poll = ReadyPoll::new();
    for _ in 0..DOWNLOAD_READY_POLLS - 1 {
        assert_eq!(poll.on_status(None), ReadyStep::WaitAndPoll(200));
    }
    assert_eq!(poll.on_status(None), ReadyStep::WaitAndProceed(200));
    assert_eq!(poll.polls, 50);
}
