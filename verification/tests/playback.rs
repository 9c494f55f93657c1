use netmd::error::NetMDError;
use netmd::playback::{goto_track_query, parse_position_reply, position_result, PlayAction, TrackChange};

fn position_reply() -> Vec<u8> {
    let mut r = vec![0x09, 0x18, 0x09, 0x80, 0x01, 0x04, 0x30];
    r.extend_from_slice(&[0u8; 14]); // seven %?%? pairs
    r.push(0x00); // %?
    r.extend_from_slice(&[0x00, 0x00]); // %?00
    r.extend_from_slice(&[0x00, 0x00, 0x00, 0x00]); // 00%?0000
    r.extend_from_slice(&[0x00, 0x0b, 0x00, 0x02, 0x00, 0x07, 0x00]);
    r.extend_from_slice(&[0x00, 0x03, 0x01, 0x05, 0x30, 0x12]);
    r
}

#[test]
fn position_is_decoded() {
    assert_eq!(parse_position_reply(&position_reply()).unwrap(), [3, 1, 5, 30, 12]);
    assert_eq!(position_result(Ok(position_reply())).unwrap(), Some([3, 1, 5, 30, 12]));
}

#[test]
fn rejected_position_means_no_position() {
    assert_eq!(position_result(Err(NetMDError::Rejected(vec![0x0a]))), Ok(None));
    assert_eq!(position_result(Err(NetMDError::NotImplemented)), Err(NetMDError::NotImplemented));
    assert_eq!(position_result(Ok(vec![0x09])), Err(NetMDError::Scan));
}

#[test]
fn transport_codes() {
    assert_eq!(PlayAction::Play.value(), 0x75);
    assert_eq!(PlayAction::Pause.value(), 0x7d);
    assert_eq!(TrackChange::Next.value(), 0x8001);
    assert_eq!(goto_track_query(5).0.last(), Some(&0x05));
}
