use netmd::groups::{
    cells_for_title, chars_to_cells, compile_disc_titles, count_tracks_in_disc, parse_track_group_list,
    remaining_characters_for_titles, tracks, RawTrackGroup,
};
use netmd::types::{ChannelCount, Disc, Encoding, Group, Track, TrackFlag};

fn raw_group(name: Option<&str>, tracks: &[u16]) -> RawTrackGroup {
    RawTrackGroup {
        name: name.map(str::to_string),
        full_width_name: None,
        tracks: tracks.to_vec(),
    }
}

fn track(index: u16, title: &str, encoding: Encoding) -> Track {
    Track {
        index,
        title: if title.is_empty() { None } else { Some(title.to_string()) },
        full_width_title: None,
        duration_frames: 0,
        channel: ChannelCount::Stereo,
        encoding,
        protected: TrackFlag::Unprotected,
    }
}

fn disc_with(title: &str, groups: Vec<Group>, track_count: u8) -> Disc {
    Disc {
        title: title.to_string(),
        full_width_title: String::new(),
        writable: true,
        write_protected: false,
        used: 0,
        left: 0,
        total: 0,
        track_count,
        groups,
    }
}

#[test]
fn parse_groups_with_disc_title_and_ungrouped() {
    let got = parse_track_group_list("0;Disc//1-3;GroupA//5;GroupB//", "", 6).unwrap();
    assert_eq!(
        got,
        vec![
            raw_group(None, &[3, 5]),
            raw_group(Some("GroupA"), &[0, 1, 2]),
            raw_group(Some("GroupB"), &[4]),
        ]
    );
}

#[test]
fn parse_groups_no_groups_returns_single_ungrouped() {
    let got = parse_track_group_list("Just a title", "", 3).unwrap();
    assert_eq!(got, vec![raw_group(None, &[0, 1, 2])]);
}

#[test]
fn parse_groups_full_width_name_matched_by_range() {
    let got = parse_track_group_list("0;Disc//1-2;Hello//", "０；Ｄｉｓｃ／／１－２；ハロー／／", 2).unwrap();
    assert_eq!(got.len(), 1);
    assert_eq!(got[0].name.as_deref(), Some("Hello"));
    assert_eq!(got[0].full_width_name.as_deref(), Some("ハロー"));
}

#[test]
fn parse_groups_detects_overlap() {
    let err = parse_track_group_list("0;D//1-3;A//2-4;B//", "", 4);
    assert!(err.is_err());
}

#[test]
fn chars_to_cells_rounds_up() {
    assert_eq!(chars_to_cells(0), 0);
    assert_eq!(chars_to_cells(1), 1);
    assert_eq!(chars_to_cells(7), 1);
    assert_eq!(chars_to_cells(8), 2);
}

#[test]
fn cells_for_title_reserves_a_cell_for_lp_tracks() {
    assert_eq!(cells_for_title(&track(0, "", Encoding::Sp)).half_width, 0);
    assert_eq!(cells_for_title(&track(0, "", Encoding::Lp2)).half_width, 1);
    assert_eq!(cells_for_title(&track(0, "12345678", Encoding::Sp)).half_width, 2);
}

#[test]
fn compile_titles_packs_groups() {
    let groups = vec![
        Group {
            index: 0,
            title: Some("First".into()),
            full_width_title: None,
            tracks: vec![track(0, "a", Encoding::Sp), track(1, "b", Encoding::Sp)],
        },
        Group {
            index: 1,
            title: Some("Second".into()),
            full_width_title: None,
            tracks: vec![track(2, "c", Encoding::Sp)],
        },
    ];
    let disc = disc_with("MyDisc", groups, 3);
    let compiled = compile_disc_titles(&disc);
    assert_eq!(compiled.raw_title, "0;MyDisc//1-2;First//3;Second//");
    assert_eq!(compiled.raw_full_width_title, "");
}

#[test]
fn compile_titles_no_groups_uses_plain_title() {
    let disc = disc_with(
        "Plain",
        vec![Group {
            index: 0,
            title: None,
            full_width_title: None,
            tracks: vec![track(0, "a", Encoding::Sp)],
        }],
        1,
    );
    let compiled = compile_disc_titles(&disc);
    assert_eq!(compiled.raw_title, "Plain");
}

#[test]
fn add_and_remove_group_round_trip() {
    let mut disc = disc_with(
        "D",
        vec![Group {
            index: 0,
            title: None,
            full_width_title: None,
            tracks: vec![
                track(0, "a", Encoding::Sp),
                track(1, "b", Encoding::Sp),
                track(2, "c", Encoding::Sp),
            ],
        }],
        3,
    );
    disc.add_group(0, 1, "Grp".into(), None).unwrap();
    assert_eq!(disc.groups.len(), 2);
    assert_eq!(disc.groups[0].title, None);
    assert_eq!(disc.groups[0].tracks.iter().map(|t| t.index).collect::<Vec<_>>(), vec![2]);
    assert_eq!(disc.groups[1].title.as_deref(), Some("Grp"));
    assert_eq!(disc.groups[1].tracks.iter().map(|t| t.index).collect::<Vec<_>>(), vec![0, 1]);

    assert!(disc.add_group(1, 2, "X".into(), None).is_err());

    let grp_index = disc.groups[1].index;
    disc.remove_group(grp_index).unwrap();
    assert_eq!(disc.groups.len(), 1);
    assert_eq!(disc.groups[0].title, None);
    assert_eq!(disc.groups[0].tracks.len(), 3);
}

#[test]
fn compiled_titles_parse_back_to_the_groups() {
    let groups = vec![
        Group {
            index: 0,
            title: None,
            full_width_title: None,
            tracks: vec![track(3, "d", Encoding::Sp)],
        },
        Group {
            index: 1,
            title: Some("First".into()),
            full_width_title: None,
            tracks: vec![track(0, "a", Encoding::Sp), track(1, "b", Encoding::Sp), track(2, "c", Encoding::Sp)],
        },
    ];
    let disc = disc_with("MyDisc", groups, 4);
    let compiled = compile_disc_titles(&disc);
    let parsed = parse_track_group_list(&compiled.raw_title, &compiled.raw_full_width_title, 4).unwrap();
    assert_eq!(parsed, vec![raw_group(None, &[3]), raw_group(Some("First"), &[0, 1, 2])]);
}

#[test]
fn compiled_full_width_titles_parse_back_to_the_groups() {
    let groups = vec![
        Group {
            index: 0,
            title: None,
            full_width_title: None,
            tracks: vec![track(2, "c", Encoding::Sp)],
        },
        Group {
            index: 1,
            title: Some("A".into()),
            full_width_title: Some("エー".into()),
            tracks: vec![track(0, "a", Encoding::Sp), track(1, "b", Encoding::Sp)],
        },
        Group {
            index: 2,
            title: Some("B".into()),
            full_width_title: None,
            tracks: vec![track(3, "d", Encoding::Sp)],
        },
    ];
    let mut disc = disc_with("MyDisc", groups, 4);
    disc.full_width_title = "マイ".to_string();
    let compiled = compile_disc_titles(&disc);
    assert_eq!(compiled.raw_title, "0;MyDisc//1-2;A//4;B//");
    assert_eq!(compiled.raw_full_width_title, "０；マイ／／１－２；エー／／４；／／");
    let parsed = parse_track_group_list(&compiled.raw_title, &compiled.raw_full_width_title, 4).unwrap();
    assert_eq!(
        parsed,
        vec![
            raw_group(None, &[2]),
            RawTrackGroup { name: Some("A".into()), full_width_name: Some("エー".into()), tracks: vec![0, 1] },
            RawTrackGroup { name: Some("B".into()), full_width_name: Some(String::new()), tracks: vec![3] },
        ]
    );
}

#[test]
fn add_then_remove_group_keeps_the_other_groups() {
    let mut disc = disc_with(
        "D",
        vec![
            Group {
                index: 0,
                title: None,
                full_width_title: None,
                tracks: vec![track(2, "c", Encoding::Sp), track(3, "d", Encoding::Sp)],
            },
            Group {
                index: 1,
                title: Some("A".into()),
                full_width_title: None,
                tracks: vec![track(0, "a", Encoding::Sp), track(1, "b", Encoding::Sp)],
            },
        ],
        4,
    );
    disc.add_group(3, 3, "B".into(), None).unwrap();
    assert_eq!(disc.groups.len(), 3);
    assert_eq!(disc.groups[2].title.as_deref(), Some("B"));
    let new_index = disc.groups[2].index;
    disc.remove_group(new_index).unwrap();
    assert_eq!(disc.groups.len(), 2);
    assert_eq!(disc.groups[0].title, None);
    assert_eq!(disc.groups[0].index, 0);
    assert_eq!(disc.groups[0].tracks.iter().map(|t| t.index).collect::<Vec<_>>(), vec![2, 3]);
    assert_eq!(disc.groups[1].title.as_deref(), Some("A"));
    assert_eq!(disc.groups[1].index, 1);
    assert_eq!(disc.groups[1].tracks.iter().map(|t| t.index).collect::<Vec<_>>(), vec![0, 1]);
}

#[test]
fn rename_group_changes_only_the_name() {
    let mut disc = disc_with(
        "D",
        vec![Group {
            index: 0,
            title: None,
            full_width_title: None,
            tracks: vec![track(0, "a", Encoding::Sp), track(1, "b", Encoding::Sp)],
        }],
        2,
    );
    disc.add_group(0, 0, "One".into(), None).unwrap();
    let idx = disc.groups[1].index;
    disc.rename_group(idx, "Uno".into(), None).unwrap();
    assert_eq!(disc.groups[1].title.as_deref(), Some("Uno"));
    assert_eq!(disc.groups[1].tracks.iter().map(|t| t.index).collect::<Vec<_>>(), vec![0]);
    assert!(disc.rename_group(99, "X".into(), None).is_err());
    assert!(disc.remove_group(99).is_err());
    assert_eq!(count_tracks_in_disc(&disc), 2);
}

#[test]
fn remaining_characters_shrink_with_titles() {
    let empty = disc_with("", vec![Group { index: 0, title: None, full_width_title: None, tracks: vec![] }], 0);
    let named = disc_with(
        "A title",
        vec![Group { index: 0, title: None, full_width_title: None, tracks: vec![track(0, "abcdefgh", Encoding::Sp)] }],
        1,
    );
    let a = remaining_characters_for_titles(&empty, true);
    let b = remaining_characters_for_titles(&named, true);
    assert!(b.half_width < a.half_width);
    assert_eq!(a.full_width, b.full_width);
}

#[test]
fn track_count_matches_listed_tracks_and_group_sizes() {
    let disc = disc_with(
        "D",
        vec![
            Group { index: 0, title: None, full_width_title: None, tracks: vec![track(2, "c", Encoding::Sp)] },
            Group {
                index: 1,
                title: Some("A".into()),
                full_width_title: None,
                tracks: vec![track(0, "a", Encoding::Sp), track(1, "b", Encoding::Sp)],
            },
        ],
        3,
    );
    assert_eq!(count_tracks_in_disc(&disc), 3);
    assert_eq!(count_tracks_in_disc(&disc), tracks(&disc).len());
    assert_eq!(count_tracks_in_disc(&disc), disc.groups.iter().map(|g| g.tracks.len()).sum::<usize>());
}

#[test]
fn counting_group_titles_never_leaves_more_room() {
    let disc = disc_with(
        "MyDisc",
        vec![Group {
            index: 0,
            title: Some("A rather long group name".into()),
            full_width_title: None,
            tracks: vec![track(0, "a", Encoding::Sp), track(1, "b", Encoding::Lp2)],
        }],
        2,
    );
    let a = remaining_characters_for_titles(&disc, false);
    let b = remaining_characters_for_titles(&disc, true);
    assert!(b.half_width < a.half_width);
    assert!(b.full_width <= a.full_width);
    for v in [a.half_width, a.full_width, b.half_width, b.full_width] {
        assert_eq!(v % 7, 0);
        assert!(v <= 255 * 7);
    }
}
