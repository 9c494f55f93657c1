use netmd::track::{disc_for_wire, frame_size, MdTrack};
use netmd::types::{DiscFormat, Wireformat};

#[test]
fn track_total_size_pads_to_frame() {
    let t = MdTrack {
        title: "t".into(),
        full_width_title: None,
        format: Wireformat::Lp4, // frame size 96
        data: vec![0u8; 100],
    };
    assert_eq!(t.total_size(), 192);
    assert_eq!(t.frame_count(), 2);
}

#[test]
fn track_total_size_exact_multiple() {
    let t = MdTrack {
        title: "t".into(),
        full_width_title: None,
        format: Wireformat::Pcm, // frame size 2048
        data: vec![0u8; 4096],
    };
    assert_eq!(t.total_size(), 4096);
    assert_eq!(t.frame_count(), 2);
}

#[test]
fn track_disc_for_wire_mapping() {
    assert_eq!(disc_for_wire(Wireformat::Pcm), DiscFormat::SpStereo);
    assert_eq!(disc_for_wire(Wireformat::Lp2), DiscFormat::Lp2);
    assert_eq!(disc_for_wire(Wireformat::Lp4), DiscFormat::Lp4);
}

#[test]
fn frame_sizes_per_wire_format() {
    assert_eq!(frame_size(Wireformat::Pcm), 2048);
    assert_eq!(frame_size(Wireformat::Lp2), 192);
    assert_eq!(frame_size(Wireformat::Lp4), 96);
}

#[test]
fn empty_payload_has_no_frames() {
    let t = MdTrack { title: "t".into(), full_width_title: None, format: Wireformat::Lp2, data: vec![] };
    assert_eq!(t.total_size(), 0);
    assert_eq!(t.frame_count(), 0);
}

#[test]
fn total_size_pads_to_frame() {
    let t = MdTrack {
        title: "t".into(),
        full_width_title: None,
        format: Wireformat::Lp4, // frame size 96
        data: vec![0u8; 100],
    };
    assert_eq!(t.total_size(), 192);
    assert_eq!(t.frame_count(), 2);
}

#[test]
fn total_size_exact_multiple() {
    let t = MdTrack {
        title: "t".into(),
        full_width_title: None,
        format: Wireformat::Pcm, // frame size 2048
        data: vec![0u8; 4096],
    };
    assert_eq!(t.total_size(), 4096);
    assert_eq!(t.frame_count(), 2);
}

#[test]
fn disc_for_wire_mapping() {
    assert_eq!(disc_for_wire(Wireformat::Pcm), DiscFormat::SpStereo);
    assert_eq!(disc_for_wire(Wireformat::Lp2), DiscFormat::Lp2);
    assert_eq!(disc_for_wire(Wireformat::Lp4), DiscFormat::Lp4);
}
