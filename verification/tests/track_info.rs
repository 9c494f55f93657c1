use netmd::track_info::{
    channel_count_from_byte, parse_track_encoding, parse_track_length, sanitize_title, title_table,
    track_encoding_from_byte,
};
use netmd::types::{ChannelCount, Encoding};

#[test]
fn track_info_sanitize_title_selects_width_specific_sanitizer() {
    assert_eq!(sanitize_title("ソニー", false), "ｿﾆ-");
    assert_eq!(sanitize_title("Sony 1", true), "Ｓｏｎｙ　１");
}

#[test]
fn track_encoding_decodes_wire_values() {
    assert_eq!(track_encoding_from_byte(0x90).unwrap(), Encoding::Sp);
    assert_eq!(track_encoding_from_byte(0x92).unwrap(), Encoding::Lp2);
    assert_eq!(track_encoding_from_byte(0x93).unwrap(), Encoding::Lp4);
    assert!(track_encoding_from_byte(0xff).is_err());
}

#[test]
fn channel_count_decodes_wire_values() {
    assert_eq!(channel_count_from_byte(0x00).unwrap(), ChannelCount::Stereo);
    assert_eq!(channel_count_from_byte(0x01).unwrap(), ChannelCount::Mono);
    assert!(channel_count_from_byte(0xff).is_err());
}

#[test]
fn track_info_blocks_are_decoded() {
    assert_eq!(
        parse_track_length(&[0x00, 0x01, 0x00, 0x06, 0x00, 0x00, 0x00, 0x06, 0x52, 0x42]).unwrap(),
        [0, 6, 52, 42]
    );
    assert_eq!(
        parse_track_encoding(&[0x80, 0x07, 0x00, 0x04, 0x01, 0x10, 0x92, 0x01]).unwrap(),
        (Encoding::Lp2, ChannelCount::Mono)
    );
    assert!(parse_track_length(&[0x00]).is_err());
    assert!(parse_track_encoding(&[0x80, 0x07, 0x00, 0x04, 0x01, 0x10, 0x77, 0x01]).is_err());
    assert_eq!(title_table(true), 3);
}
