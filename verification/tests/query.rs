use netmd::query::{Query, QueryBuilder};

#[test]
fn query_parse_from_string() {
    let command = format!("00 1806 02201801 00{:02x} 3000 0a00 ff00 {:04x}{:04x}", 0, 0, 0);
    let command: Query = Query::from_raw(&command).unwrap();
    assert_eq!(
        command.0,
        [0x00, 0x18, 0x06, 0x02, 0x20, 0x18, 0x01, 0x00, 0x00, 0x30, 0x00, 0x0a, 0x00, 0xff, 0x00, 0x00, 0x00, 0x00, 0x00]
    );
}

#[test]
fn query_whitespace_is_ignored() {
    assert_eq!(Query::from_raw("18 06").unwrap().0, [0x18, 0x06]);
    assert_eq!(Query::from_raw("1806").unwrap().0, [0x18, 0x06]);
    assert_eq!(Query::from_raw("18  06  ff").unwrap().0, [0x18, 0x06, 0xff]);
}

#[test]
fn query_odd_length_is_rejected() {
    // After stripping whitespace, an odd number of hex digits is invalid.
    assert!(Query::from_raw("180").is_err());
    assert!(Query::from_raw("18 0").is_err());
}

#[test]
fn query_empty_is_valid_empty_buffer() {
    assert_eq!(Query::from_raw("").unwrap().0, Vec::<u8>::new());
}

#[test]
fn builder_matches_format_query() {
    // Equivalent of formatQuery('1800 080046 f0030103 23 ff 1001 %w', track)
    let q: Query = QueryBuilder::new().raw("1800 080046 f0030103 23 ff 1001").unwrap().u16(0x0005).build();
    assert_eq!(q.0, [0x18, 0x00, 0x08, 0x00, 0x46, 0xf0, 0x03, 0x01, 0x03, 0x23, 0xff, 0x10, 0x01, 0x00, 0x05]);
}

#[test]
fn builder_binary_substitution() {
    // %b %d %* ordering, big-endian.
    let q: Query = QueryBuilder::new().u8(0x12).u32(0x01020304).bytes(&[0xaa, 0xbb]).build();
    assert_eq!(q.0, [0x12, 0x01, 0x02, 0x03, 0x04, 0xaa, 0xbb]);
}

#[test]
fn non_hex_digits_are_rejected() {
    assert!(Query::from_raw("zz").is_err());
    assert!(QueryBuilder::new().raw("1g").is_err());
    assert_eq!(Query::from_raw("AbcD").unwrap().0, [0xab, 0xcd]);
}

#[test]
fn parse_from_string() {
    let command = format!("00 1806 02201801 00{:02x} 3000 0a00 ff00 {:04x}{:04x}", 0, 0, 0);
    let command: Query = Query::from_raw(&command).unwrap();
    assert_eq!(
        command.0,
        [0x00, 0x18, 0x06, 0x02, 0x20, 0x18, 0x01, 0x00, 0x00, 0x30, 0x00, 0x0a, 0x00, 0xff, 0x00, 0x00, 0x00, 0x00, 0x00]
    );
}

#[test]
fn whitespace_is_ignored() {
    assert_eq!(Query::from_raw("18 06").unwrap().0, [0x18, 0x06]);
    assert_eq!(Query::from_raw("1806").unwrap().0, [0x18, 0x06]);
    assert_eq!(Query::from_raw("18  06  ff").unwrap().0, [0x18, 0x06, 0xff]);
}

#[test]
fn odd_length_is_rejected() {
    // After stripping whitespace, an odd number of hex digits is invalid.
    assert!(Query::from_raw("180").is_err());
    assert!(Query::from_raw("18 0").is_err());
}

#[test]
fn empty_is_valid_empty_buffer() {
    assert_eq!(Query::from_raw("").unwrap().0, Vec::<u8>::new());
}
