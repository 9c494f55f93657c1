use netmd::groups::RawTrackGroup;
use netmd::rows::{build_rows, first_track_row, fmt_mmss, next_track_row, prev_track_row, Row};

fn group(name: Option<&str>, tracks: &[u16]) -> RawTrackGroup {
    RawTrackGroup {
        name: name.map(str::to_string),
        full_width_name: None,
        tracks: tracks.to_vec(),
    }
}

#[test]
fn build_rows_flat_when_no_named_groups() {
    let groups = vec![group(None, &[0, 1, 2])];
    assert_eq!(
        build_rows(&groups, 3),
        vec![Row::Track(0), Row::Track(1), Row::Track(2)]
    );
}

#[test]
fn build_rows_empty_group_list_falls_back_to_flat() {
    assert_eq!(build_rows(&[], 2), vec![Row::Track(0), Row::Track(1)]);
}

#[test]
fn build_rows_interleaves_headers_with_named_groups() {
    let groups = vec![
        group(None, &[3]),
        group(Some("First"), &[0, 1, 2]),
        group(Some("Second"), &[4]),
    ];
    assert_eq!(
        build_rows(&groups, 5),
        vec![
            Row::Group("(ungrouped)".to_string()),
            Row::Track(3),
            Row::Group("First".to_string()),
            Row::Track(0),
            Row::Track(1),
            Row::Track(2),
            Row::Group("Second".to_string()),
            Row::Track(4),
        ]
    );
}

#[test]
fn build_rows_labels_empty_group_name() {
    let groups = vec![group(Some(""), &[0])];
    assert_eq!(
        build_rows(&groups, 1),
        vec![Row::Group("<untitled group>".to_string()), Row::Track(0)]
    );
}

#[test]
fn build_rows_skips_out_of_range_tracks() {
    let groups = vec![group(Some("G"), &[0, 5])];
    assert_eq!(
        build_rows(&groups, 1),
        vec![Row::Group("G".to_string()), Row::Track(0)]
    );
}

#[test]
fn navigation_skips_group_headers() {
    let rows = vec![
        Row::Group("a".into()),
        Row::Track(1),
        Row::Track(2),
        Row::Group("b".into()),
        Row::Track(4),
    ];
    assert_eq!(first_track_row(&rows), Some(1));
    assert_eq!(next_track_row(&rows, 2), Some(4));
    assert_eq!(next_track_row(&rows, 4), None);
    assert_eq!(prev_track_row(&rows, 4), Some(2));
    assert_eq!(prev_track_row(&rows, 1), None);
}

#[test]
fn navigation_on_rows_without_tracks() {
    let rows = vec![Row::Group("a".into()), Row::Group("b".into())];
    assert_eq!(first_track_row(&rows), None);
    assert_eq!(next_track_row(&rows, 0), None);
    assert_eq!(prev_track_row(&rows, 2), None);
    assert_eq!(next_track_row(&rows, 7), None);
}

#[test]
fn build_rows_unnamed_groups_have_no_headers() {
    let groups = vec![group(None, &[1]), group(None, &[0, 2])];
    assert_eq!(
        build_rows(&groups, 2),
        vec![Row::Track(1), Row::Track(0)]
    );
}

#[test]
fn fmt_mmss_pads_minutes_and_seconds() {
    assert_eq!(fmt_mmss(0), "00:00");
    assert_eq!(fmt_mmss(65), "01:05");
    assert_eq!(fmt_mmss(412), "06:52");
    assert_eq!(fmt_mmss(6000), "100:00");
}
