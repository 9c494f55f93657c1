use netmd::error::NetMDError;
use netmd::query::Query;
use netmd::scan::scan;
use netmd::types::ReadRequestData;

#[test]
fn scan_t() {
    let input = "00 01 ff %b ff %w ff %d ff %q ff %? %b aa %*";
    let data = &[
        0x00, 0x01, 0xff, 0x01, 0xff, 0x01, 0x02, 0xff, 0x01, 0x02, 0x03, 0x04, 0xff, 0x01, 0x02, 0x03, 0x04, 0x05,
        0x06, 0x07, 0x08, 0xff, 0x0a, 0xff, 0xaa, 0x01, 0x02, 0x03, 0x04,
    ];

    let r = scan(input, data).unwrap();
    println!("{:?}", r);
}

#[test]
fn test_bcd_scan() {
    // template: 6 literal bytes (0001 0006 0000) + 4 BCD bytes
    let input = "0001 0006 0000 %B %B %B %B";
    let data = &[0x00, 0x01, 0x00, 0x06, 0x00, 0x00, 0x10, 0x20, 0x30, 0x40];
    let r = scan(input, data).unwrap();
    assert_eq!(r.len(), 4);
    // %B yields the raw byte slice; caller decodes via parse_bcd_u8
    assert_eq!(r[0], &[0x10]);
    assert_eq!(r[3], &[0x40]);
}

#[test]
fn test_endianness_override_accepted() {
    // `%<w` / `%>d` markers must be parseable; slices are length-only.
    let input = "%<w %>d";
    let data = &[0x01, 0x02, 0x03, 0x04, 0x05, 0x06];
    let r = scan(input, data).unwrap();
    assert_eq!(r.len(), 2);
    assert_eq!(r[0], &[0x01, 0x02]);
    assert_eq!(r[1], &[0x03, 0x04, 0x05, 0x06]);
}

#[test]
fn test_length_prefixed_x() {
    let input = "%x";
    let data = &[0x00, 0x05, b'H', b'e', b'l', b'l', b'o'];
    let r = scan(input, data).unwrap();
    assert_eq!(r.len(), 1);
    assert_eq!(r[0], b"Hello");
}

#[test]
fn test_length_prefixed_z() {
    let input = "%z";
    let data = &[0x05, b'H', b'e', b'l', b'l', b'o'];
    let r = scan(input, data).unwrap();
    assert_eq!(r.len(), 1);
    assert_eq!(r[0], b"Hello");
}

#[test]
fn test_remaining() {
    let input = "%b %*";
    let data = &[0x01, 0x02, 0x03, 0x04];
    let r = scan(input, data).unwrap();
    assert_eq!(r.len(), 2);
    assert_eq!(r[1].len(), 3);
}

#[test]
fn scan_rejects_mismatched_literal_and_short_data() {
    assert_eq!(scan("00 01", &[0x00, 0x02]), Err(NetMDError::Scan));
    assert_eq!(scan("%w", &[0x01]), Err(NetMDError::Scan));
    assert_eq!(scan("00", &[0x00, 0x01]), Err(NetMDError::Scan));
}

#[test]
fn tt() {
    let z: u16 = 10; // 2 bytes
    println!("{:02x?}", z.to_le_bytes());
}

#[test]
fn tt_t() {
    let z = Query::from_raw("0010");
    assert_eq!(z.unwrap().0, [0x00, 0x10]);
}

#[test]
fn t() {
    let input = "00 01 ff %b ff %w ff %d ff %q ff %? %b aa %*";
    let data = &[
        0x00, 0x01, 0xff, 0x01, 0xff, 0x01, 0x02, 0xff, 0x01, 0x02, 0x03, 0x04, 0xff, 0x01, 0x02, 0x03, 0x04, 0x05,
        0x06, 0x07, 0x08, 0xff, 0x0a, 0xff, 0xaa, 0x01, 0x02, 0x03, 0x04,
    ];

    let r = scan(input, data).unwrap();
    println!("{:?}", r);
}

#[test]
fn reply_data_lists_its_bytes_in_hex() {
    let data = ReadRequestData(vec![0x01, 0xab, 0x00]);
    assert_eq!(data.display(), "[0x01, 0xab, 0x00, ]");
    assert_eq!(ReadRequestData::new(0).display(), "[]");
}

#[test]
fn rest_without_consuming_leaves_the_bytes_for_later_tokens() {
    let d = [0x01u8, 0x02];
    let r = scan("%# %*", &d).unwrap();
    assert_eq!(r, vec![&[0x01u8, 0x02][..], &[0x01u8, 0x02][..]]);
    let r = scan("01 %# 02", &d).unwrap();
    assert_eq!(r, vec![&[0x02u8][..]]);
    assert!(scan("%#", &d).is_err());
}
