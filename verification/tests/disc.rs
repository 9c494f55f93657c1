use netmd::device::{SHARP_VENDOR_ID, SONY_VENDOR_ID};
use netmd::disc::{
    parse_disc_subunit_identifier_reply, subunit_fits, subunit_level,
    disc_title_from_raw, disc_title_write_flow, parse_disc_capacity_reply, rename_disc_plan, renamed_disc_raw_title,
    title_write_plan, DiscTitleWriteFlow, DiskTitleReader,
};
use netmd::error::NetMDError;
use netmd::title::sanitize_title;
use netmd::types::{DiscFlag, DiscFlags};

#[test]
fn disc_title_write_flow_uses_sharp_branch_only_for_sharp_vendor() {
    assert_eq!(disc_title_write_flow(SHARP_VENDOR_ID), DiscTitleWriteFlow::Sharp);
    assert_eq!(disc_title_write_flow(SONY_VENDOR_ID), DiscTitleWriteFlow::Standard);
    assert_eq!(disc_title_write_flow(0x1234), DiscTitleWriteFlow::Standard);
}

#[test]
fn disc_sanitize_title_selects_width_specific_sanitizer() {
    assert_eq!(sanitize_title("ソニー", false), "ｿﾆ-");
    assert_eq!(sanitize_title("Sony 1", true), "Ｓｏｎｙ　１");
}

#[test]
fn disc_flag_decodes_wire_values() {
    let writable = DiscFlags::from_bits(0x10);
    assert!(writable.contains(DiscFlag::Writable));
    assert!(writable.is_writable());
    assert!(!writable.is_write_protected());
    assert_eq!(writable.unknown_bits(), 0x00);

    let protected = DiscFlags::from_bits(0x50);
    assert!(protected.contains(DiscFlag::Writable));
    assert!(!protected.is_writable());
    assert!(protected.is_write_protected());
    assert_eq!(protected.unknown_bits(), 0x00);

    let unknown = DiscFlags::from_bits(0x51);
    assert_eq!(unknown.raw(), 0x51);
    assert_eq!(unknown.unknown_bits(), 0x01);
}

#[test]
fn disc_title_from_raw_extracts_group_title() {
    assert_eq!(disc_title_from_raw("0;Disc//1-2;Group//", false), "Disc");
    assert_eq!(disc_title_from_raw("1-2;Group//", false), "");
    assert_eq!(disc_title_from_raw("Disc", false), "Disc");
}

#[test]
fn renamed_disc_raw_title_preserves_group_metadata() {
    assert_eq!(renamed_disc_raw_title("0;Old//1-2;Group//", "New", false), "0;New//1-2;Group//");
    assert_eq!(renamed_disc_raw_title("1-2;Group//", "New", false), "0;New//1-2;Group//");
    assert_eq!(renamed_disc_raw_title("0;Old//1-2;Group//", "", false), "1-2;Group//");
    assert_eq!(renamed_disc_raw_title("Old", "New", false), "New");
}

#[test]
fn renamed_disc_raw_title_supports_full_width_groups() {
    assert_eq!(
        renamed_disc_raw_title("０；Ｏｌｄ／／１－２；Ｇｒｏｕｐ／／", "Ｎｅｗ", true),
        "０；Ｎｅｗ／／１－２；Ｇｒｏｕｐ／／"
    );
}

#[test]
fn renaming_reads_back_the_new_title() {
    let raw = renamed_disc_raw_title("0;Old//1-2;Group//", "New", false);
    assert_eq!(disc_title_from_raw(&raw, false), "New");
}

#[test]
fn rename_plan_skips_unchanged_title() {
    assert_eq!(rename_disc_plan("0;Disc//1-2;G//", "Disc", false), None);
    assert_eq!(
        rename_disc_plan("0;Disc//1-2;G//", "Other", false),
        Some("0;Other//1-2;G//".to_string())
    );
}

#[test]
fn title_write_plan_encodes_and_skips_equal_titles() {
    assert!(title_write_plan("Same", Some("Same"), false).unwrap().is_none());
    let w = title_write_plan("New", Some("Old!"), false).unwrap().unwrap();
    assert_eq!(w.new_len, 3);
    assert_eq!(w.old_len, 4);
    assert_eq!(w.sjis, b"New".to_vec());
}

#[test]
fn disc_title_is_read_in_chunks() {
    let mut reader = DiskTitleReader::new();
    assert!(!reader.finished());
    assert_eq!(
        reader.query(false).0,
        vec![0x00, 0x18, 0x06, 0x02, 0x20, 0x18, 0x01, 0x00, 0x00, 0x30, 0x00, 0x0a, 0x00, 0xff, 0x00, 0x00, 0x00, 0x00, 0x00]
    );
    // First chunk: size 6 + 3 bytes of text, total 5.
    let first = [
        0x09, 0x18, 0x06, 0x02, 0x20, 0x18, 0x01, 0x00, 0x00, 0x30, 0x00, 0x0a, 0x00, 0x10, 0x00, 0x00, 0x09, 0x00,
        0x00, 0x00, 0x00, 0x00, 0x0a, 0x00, 0x05, b'A', b'B', b'C',
    ];
    reader.accept(&first).unwrap();
    assert_eq!(reader.done, 3);
    assert_eq!(reader.remaining, 2);
    assert!(!reader.finished());
    let next = [
        0x09, 0x18, 0x06, 0x02, 0x20, 0x18, 0x01, 0x00, 0x00, 0x30, 0x00, 0x0a, 0x00, 0x10, 0x00, 0x00, 0x02, 0x00,
        0x00, b'D', b'E',
    ];
    reader.accept(&next).unwrap();
    assert!(reader.finished());
    assert_eq!(reader.title(), "ABCDE");
}

#[test]
fn disc_title_chunk_past_total_is_refused() {
    let mut reader = DiskTitleReader::new();
    let first = [
        0x09, 0x18, 0x06, 0x02, 0x20, 0x18, 0x01, 0x00, 0x00, 0x30, 0x00, 0x0a, 0x00, 0x10, 0x00, 0x00, 0x09, 0x00,
        0x00, 0x00, 0x00, 0x00, 0x0a, 0x00, 0x02, b'A', b'B', b'C',
    ];
    assert_eq!(reader.accept(&first), Err(NetMDError::UnexpectedResponse));
    assert_eq!(reader.accept(&[0x09, 0x18]), Err(NetMDError::Scan));
}

#[test]
fn capacity_reply_is_decoded_from_bcd() {
    let reply = [
        0x09, 0x18, 0x06, 0x02, 0x10, 0x10, 0x00, 0x30, 0x80, 0x03, 0x00, 0x10, 0x00, 0x00, 0x1d, 0x00, 0x00,
        0x00, 0x1b, 0x00, 0x03, 0x00, 0x17, 0x80, 0x00, 0x00, 0x05, 0x00, 0x00, 0x12, 0x34, 0x56, 0x00, 0x05,
        0x00, 0x01, 0x20, 0x00, 0x00, 0x00, 0x05, 0x00, 0x01, 0x07, 0x25, 0x19,
    ];
    let c = parse_disc_capacity_reply(&reply).unwrap();
    assert_eq!(c, [[0, 12, 34, 56], [1, 20, 0, 0], [1, 7, 25, 19]]);
    assert_eq!(parse_disc_capacity_reply(&reply[..20]), Err(NetMDError::Scan));
}

#[test]
fn subunit_descriptor_reports_the_netmd_level() {
    let mut reply = vec![0x0c, 0x18, 0x09, 0x00, 0x10, 0x00, 0, 0, 0, 0];
    reply.extend_from_slice(&[0x00, 0x20]); // %w
    reply.extend_from_slice(&[0x00, 0x01, 0x00, 0x00]); // %b x4: list ID size 1
    reply.extend_from_slice(&[0x00, 0x02]); // two root object lists
    let mut body = vec![0xaa, 0xbb]; // the list IDs
    body.extend_from_slice(&[0, 0, 0, 0, 0, 0]); // lengths, attributes, version
    body.push(2); // two media types
    body.extend_from_slice(&[0x03, 0x01, 0x36, 0, 0, 0, 0, 0]);
    body.extend_from_slice(&[0x02, 0x01, 0x99, 0, 0, 0, 0, 0]);
    reply.extend_from_slice(&body);
    let d = parse_disc_subunit_identifier_reply(&reply).unwrap();
    assert_eq!(d.list_id_size, 1);
    assert_eq!(d.root_lists, 2);
    assert!(subunit_fits(&d));
    assert_eq!(subunit_level(&d), Some(0x36));
    let short = netmd::disc::SubunitDescriptor { buffer: vec![0, 0, 0], list_id_size: 1, root_lists: 2 };
    assert!(!subunit_fits(&short));
}

#[test]
fn title_write_plan_with_unknown_current_title() {
    let w = title_write_plan("", None, false).unwrap().unwrap();
    assert_eq!((w.new_len, w.old_len), (0, 0));
    let w = title_write_plan("😀", None, true).unwrap().unwrap();
    assert_eq!(w.sjis, Vec::<u8>::new());
    assert!(title_write_plan("", Some(""), false).unwrap().is_none());
}
