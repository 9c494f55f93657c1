use netmd::commands::{derive_device_status, playback_status2_to_operating_status, scale_capacity, status_disc_present};
use netmd::types::PlaybackState;

#[test]
fn commands_operating_status_word_from_block2() {
    let block = [0, 0, 0, 0, 0xc3, 0x75];
    assert_eq!(playback_status2_to_operating_status(&block), Some(0xc375));
    assert_eq!(playback_status2_to_operating_status(&[0, 1, 2]), None);
}

#[test]
fn commands_playback_state_mapping() {
    assert_eq!(PlaybackState::from_u16(50687), PlaybackState::Ready);
    assert_eq!(PlaybackState::from_u16(50037), PlaybackState::Playing);
    assert_eq!(PlaybackState::from_u16(50045), PlaybackState::Paused);
    assert_eq!(PlaybackState::from_u16(49983), PlaybackState::FastForward);
    assert_eq!(PlaybackState::from_u16(49999), PlaybackState::Rewind);
    assert_eq!(PlaybackState::from_u16(65315), PlaybackState::ReadingToc);
    assert_eq!(PlaybackState::from_u16(65296), PlaybackState::NoDisc);
    assert_eq!(PlaybackState::from_u16(65535), PlaybackState::DiscBlank);
    assert_eq!(
        PlaybackState::from_u16(65319),
        PlaybackState::ReadyForTransfer
    );
    assert_eq!(PlaybackState::from_u16(1234), PlaybackState::Unknown(1234));
}

#[test]
fn commands_playing_without_disc_becomes_ready() {
    let s = derive_device_status(Some(50037), false, None);
    assert_eq!(s.state, PlaybackState::Ready);
    assert!(!s.disc_present);
}

#[test]
fn commands_reading_toc_is_not_present() {
    let s = derive_device_status(Some(65315), true, None);
    assert_eq!(s.state, PlaybackState::ReadingToc);
    assert!(!s.disc_present);
}

#[test]
fn commands_position_maps_to_time_and_track() {
    // position = [track, hour, minute, second, frame]
    let s = derive_device_status(Some(50037), true, Some([3, 1, 5, 30, 100]));
    assert_eq!(s.state, PlaybackState::Playing);
    assert!(s.disc_present);
    assert_eq!(s.track, Some(3));
    let t = s.time.unwrap();
    assert_eq!(t.minute, 5 + 60); // hour*60 + minute
    assert_eq!(t.second, 30);
    assert_eq!(t.frame, 100);
}

#[test]
fn commands_no_position_yields_none_time() {
    let s = derive_device_status(Some(50687), true, None);
    assert_eq!(s.state, PlaybackState::Ready);
    assert_eq!(s.track, None);
    assert!(s.time.is_none());
}

#[test]
fn missing_operating_status_is_unknown() {
    let s = derive_device_status(None, true, None);
    assert_eq!(s.state, PlaybackState::Unknown(0));
    assert!(s.disc_present);
}

#[test]
fn status_byte_four_marks_missing_disc() {
    assert!(!status_disc_present(&[0, 0, 0, 0, 0x80]));
    assert!(status_disc_present(&[0, 0, 0, 0, 0x40]));
    assert!(status_disc_present(&[0, 0]));
}

#[test]
fn capacity_is_halved_until_it_fits() {
    let limit = 512 * 60 * 82;
    assert_eq!(scale_capacity(10, limit, 20), (10, limit, 20));
    assert_eq!(scale_capacity(10, limit + 2, 20), (5, (limit + 2) / 2, 10));
}

#[test]
fn operating_status_word_from_block2() {
    let block = [0, 0, 0, 0, 0xc3, 0x75];
    assert_eq!(playback_status2_to_operating_status(&block), Some(0xc375));
    assert_eq!(playback_status2_to_operating_status(&[0, 1, 2]), None);
}

#[test]
fn playback_state_mapping() {
    assert_eq!(PlaybackState::from_u16(50687), PlaybackState::Ready);
    assert_eq!(PlaybackState::from_u16(50037), PlaybackState::Playing);
    assert_eq!(PlaybackState::from_u16(50045), PlaybackState::Paused);
    assert_eq!(PlaybackState::from_u16(49983), PlaybackState::FastForward);
    assert_eq!(PlaybackState::from_u16(49999), PlaybackState::Rewind);
    assert_eq!(PlaybackState::from_u16(65315), PlaybackState::ReadingToc);
    assert_eq!(PlaybackState::from_u16(65296), PlaybackState::NoDisc);
    assert_eq!(PlaybackState::from_u16(65535), PlaybackState::DiscBlank);
    assert_eq!(
        PlaybackState::from_u16(65319),
        PlaybackState::ReadyForTransfer
    );
    assert_eq!(PlaybackState::from_u16(1234), PlaybackState::Unknown(1234));
}

#[test]
fn playing_without_disc_becomes_ready() {
    let s = derive_device_status(Some(50037), false, None);
    assert_eq!(s.state, PlaybackState::Ready);
    assert!(!s.disc_present);
}

#[test]
fn reading_toc_is_not_present() {
    let s = derive_device_status(Some(65315), true, None);
    assert_eq!(s.state, PlaybackState::ReadingToc);
    assert!(!s.disc_present);
}

#[test]
fn position_maps_to_time_and_track() {
    // position = [track, hour, minute, second, frame]
    let s = derive_device_status(Some(50037), true, Some([3, 1, 5, 30, 100]));
    assert_eq!(s.state, PlaybackState::Playing);
    assert!(s.disc_present);
    assert_eq!(s.track, Some(3));
    let t = s.time.unwrap();
    assert_eq!(t.minute, 5 + 60); // hour*60 + minute
    assert_eq!(t.second, 30);
    assert_eq!(t.frame, 100);
}

#[test]
fn no_position_yields_none_time() {
    let s = derive_device_status(Some(50687), true, None);
    assert_eq!(s.state, PlaybackState::Ready);
    assert_eq!(s.track, None);
    assert!(s.time.is_none());
}
