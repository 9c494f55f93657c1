use netmd::cli::{
    parse_device_selector, parse_hex_u16, parse_target, parse_track_index, parse_track_range, progress_percent,
    upload_plan, upload_title, Target, UploadPlan,
};
use netmd::error::NetMDError;
use netmd::types::Wireformat;

#[test]
fn hex_ids_with_and_without_prefix() {
    assert_eq!(parse_hex_u16("054c"), Ok(0x054c));
    assert_eq!(parse_hex_u16("0x0084"), Ok(0x0084));
    assert_eq!(parse_hex_u16("0XFFFF"), Ok(0xffff));
    assert_eq!(parse_hex_u16("+1f"), Ok(0x1f));
    assert_eq!(parse_hex_u16("10000"), Err(NetMDError::InvalidInput));
    assert_eq!(parse_hex_u16(""), Err(NetMDError::InvalidInput));
    assert_eq!(parse_hex_u16("0x"), Err(NetMDError::InvalidInput));
    assert_eq!(parse_hex_u16("-1"), Err(NetMDError::InvalidInput));
    assert_eq!(parse_hex_u16("12g"), Err(NetMDError::InvalidInput));
}

#[test]
fn track_numbers_are_one_based() {
    assert_eq!(parse_track_index("1"), Ok(0));
    assert_eq!(parse_track_index("65536"), Ok(65535));
    assert_eq!(parse_track_index("65537"), Err(NetMDError::InvalidInput));
    assert_eq!(parse_track_index("0"), Err(NetMDError::InvalidInput));
    assert_eq!(parse_track_index(" 3"), Err(NetMDError::InvalidInput));
    assert_eq!(parse_track_index("4294967296"), Err(NetMDError::InvalidInput));
    assert_eq!(parse_track_index("+7"), Ok(6));
}

#[test]
fn track_ranges() {
    assert_eq!(parse_track_range("1-3"), Ok((0, 2)));
    assert_eq!(parse_track_range("5"), Ok((4, 4)));
    assert_eq!(parse_track_range(" 2 - 4 "), Ok((1, 3)));
    assert_eq!(parse_track_range("3-1"), Err(NetMDError::InvalidInput));
    assert_eq!(parse_track_range("0-2"), Err(NetMDError::InvalidInput));
    assert_eq!(parse_track_range("1-2-3"), Err(NetMDError::InvalidInput));
    assert_eq!(parse_track_range("-3"), Err(NetMDError::InvalidInput));
}

#[test]
fn device_selectors() {
    let all = netmd::device::supported_devices();
    let d = all[0];
    let text = format!("{:04x}:{:04x}", d.vendor_id, d.product_id);
    let sel = parse_device_selector(&text).unwrap();
    assert_eq!((sel.vendor_id, sel.product_id), (d.vendor_id, d.product_id));
    assert_eq!(
        parse_device_selector("1234:5678"),
        Err(NetMDError::UnsupportedDevice { vendor_id: 0x1234, product_id: 0x5678 })
    );
    assert_eq!(parse_device_selector("054c"), Err(NetMDError::InvalidInput));
    assert_eq!(parse_device_selector("zz:0084"), Err(NetMDError::InvalidInput));
}

#[test]
fn targets_and_plans() {
    assert_eq!(parse_target("disc"), Ok(Target::Disc));
    assert_eq!(parse_target("2"), Ok(Target::Track(1)));
    assert_eq!(parse_target("Disc"), Err(NetMDError::InvalidInput));
    assert_eq!(upload_plan("sp"), Ok(UploadPlan::Pcm));
    assert_eq!(
        upload_plan("lp105"),
        Ok(UploadPlan::Atrac3 { lp4: false, bitrate_kbps: 102, format: Wireformat::L105kbps })
    );
    assert_eq!(upload_plan("lp4"), Ok(UploadPlan::Atrac3 { lp4: true, bitrate_kbps: 64, format: Wireformat::Lp4 }));
    assert_eq!(upload_plan("mp3"), Err(NetMDError::InvalidInput));
}

#[test]
fn upload_titles_fall_back() {
    assert_eq!(upload_title(Some("  Song  "), Some("file")), "Song");
    assert_eq!(upload_title(Some("   "), Some("file")), "file");
    assert_eq!(upload_title(None, None), "track");
}

#[test]
fn progress_is_a_saturating_percentage() {
    assert_eq!(progress_percent(50, 200), 25);
    assert_eq!(progress_percent(5, 0), 0);
    assert_eq!(progress_percent(u64::MAX, u64::MAX), 1);
    assert_eq!(progress_percent(u64::MAX / 2, 1), u64::MAX);
}
