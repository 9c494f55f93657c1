use netmd::descriptor::{Descriptor, DescriptorAction, DescriptorCommand};
use netmd::query::Query;

#[test]
fn disc_title_open_read_frame() {
    let q: Query = DescriptorCommand(Descriptor::DiskTitleTd, DescriptorAction::OpenRead).to_query();
    // 00 (status) 1808 (cmd) 101801 (disc title TD) 01 (open read) 00
    assert_eq!(q.0, [0x00, 0x18, 0x08, 0x10, 0x18, 0x01, 0x01, 0x00]);
}

#[test]
fn audio_contents_close_frame() {
    let q: Query = DescriptorCommand(Descriptor::AudioContentsTd, DescriptorAction::Close).to_query();
    // 00 1808 101001 00 00
    assert_eq!(q.0, [0x00, 0x18, 0x08, 0x10, 0x10, 0x01, 0x00, 0x00]);
}

#[test]
fn operating_status_block_uses_8000() {
    let q: Query = DescriptorCommand(Descriptor::OperatingStatusBlock, DescriptorAction::OpenRead).to_query();
    assert_eq!(q.0, [0x00, 0x18, 0x08, 0x80, 0x00, 0x01, 0x00]);
}

#[test]
fn root_open_write_frame() {
    let q: Query = DescriptorCommand(Descriptor::RootTd, DescriptorAction::OpenWrite).to_query();
    assert_eq!(q.0, [0x00, 0x18, 0x08, 0x10, 0x10, 0x00, 0x03, 0x00]);
}

#[test]
fn descriptor_text_parses_to_its_bytes() {
    let all = [
        Descriptor::DiskTitleTd,
        Descriptor::AudioUtoc1Td,
        Descriptor::AudioUtoc4Td,
        Descriptor::DsiTd,
        Descriptor::AudioContentsTd,
        Descriptor::RootTd,
        Descriptor::DiscSubUnitIdentifier,
        Descriptor::OperatingStatusBlock,
    ];
    for d in all {
        assert_eq!(Query::from_raw(d.as_str()).unwrap().0, d.bytes());
    }
    for a in [DescriptorAction::OpenRead, DescriptorAction::OpenWrite, DescriptorAction::Close] {
        assert_eq!(Query::from_raw(a.as_str()).unwrap().0, vec![a.byte()]);
    }
    assert_eq!(Descriptor::DsiTd.as_str(), "10 1804");
    assert_eq!(DescriptorAction::OpenWrite.as_str(), "03");
}
