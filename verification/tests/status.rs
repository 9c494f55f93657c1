use netmd::status::{full_operating_status_query, is_disc_present, parse_full_operating_status_reply, status_query};
use netmd::types::{operating_status_from_u16, OperatingStatus};

#[test]
fn status_operating_status_decodes_wire_values() {
    assert_eq!(operating_status_from_u16(0xc5ff), OperatingStatus::Ready);
    assert_eq!(operating_status_from_u16(0xffff), OperatingStatus::BlankDisc);
    assert_eq!(operating_status_from_u16(0x1234), OperatingStatus::Unknown(0x1234));
    assert_eq!(OperatingStatus::Ready.raw(), 0xc5ff);
    assert_eq!(OperatingStatus::BlankDisc.raw(), 0xffff);
    assert_eq!(OperatingStatus::Unknown(0x1234).raw(), 0x1234);
}

#[test]
fn operating_status_round_trips_through_its_word() {
    for v in [0u16, 0x1234, 0xc5ff, 0xffff, 0xc375, 0xff10] {
        assert_eq!(operating_status_from_u16(v).raw(), v);
    }
}

#[test]
fn status_queries_have_fixed_bytes() {
    assert_eq!(
        status_query().0,
        vec![0x00, 0x18, 0x09, 0x80, 0x01, 0x02, 0x30, 0x88, 0x00, 0x00, 0x30, 0x88, 0x04, 0x00, 0xff, 0x00, 0x00, 0x00, 0x00, 0x00]
    );
    assert_eq!(full_operating_status_query().0.len(), 24);
    assert!(is_disc_present(&[0, 0, 0, 0, 0x40]));
    assert!(parse_full_operating_status_reply(&[0x09]).is_err());
}

#[test]
fn operating_status_decodes_wire_values() {
    assert_eq!(operating_status_from_u16(0xc5ff), OperatingStatus::Ready);
    assert_eq!(operating_status_from_u16(0xffff), OperatingStatus::BlankDisc);
    assert_eq!(operating_status_from_u16(0x1234), OperatingStatus::Unknown(0x1234));
    assert_eq!(OperatingStatus::Ready.raw(), 0xc5ff);
    assert_eq!(OperatingStatus::BlankDisc.raw(), 0xffff);
    assert_eq!(OperatingStatus::Unknown(0x1234).raw(), 0x1234);
}
