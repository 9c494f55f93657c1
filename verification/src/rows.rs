//! The rows of the disc list shown by the terminal interface: group headers
//! interleaved with their tracks, and moving the selection between track rows.
use vstd::prelude::*;
use crate::chars::{append_chars, dec_padded, dec_padded_spec};
use crate::groups::{opt_seq, RawTrackGroup};
use crate::text::chars_to_string;

verus! {

/// A row of the disc list: a group header or a (0-based) disc track.
#[derive(Debug, PartialEq, Eq)]
pub enum Row {
    Group(String),
    Track(u16),
}

/// A row as a plain value.
pub enum RowView {
    Group(Seq<char>),
    Track(u16),
}

impl Row {
    /// The row as a plain value.
    pub open spec fn view(&self) -> RowView {
        match self {
            Row::Group(s) => RowView::Group(s@),
            Row::Track(t) => RowView::Track(*t),
        }
    }
}

/// The rows as plain values.
pub open spec fn rows_view(rows: Seq<Row>) -> Seq<RowView> {
    rows.map_values(|r: Row| r.view())
}

proof fn lemma_rows_view_push(rows: Seq<Row>, r: Row)
    ensures
        rows_view(rows.push(r)) == rows_view(rows).push(r.view()),
{
    assert(rows_view(rows.push(r)) =~= rows_view(rows).push(r.view()));
}

/// Whether a row is a track row.
pub open spec fn is_track_row(r: RowView) -> bool {
    r is Track
}

/// The header label of a group: its name, a placeholder for an empty name,
/// another for the unnamed (ungrouped) group.
pub open spec fn group_label(name: Option<Seq<char>>) -> Seq<char> {
    match name {
        Some(n) => if n.len() > 0 {
            n
        } else {
            "<untitled group>"@
        },
        None => "(ungrouped)"@,
    }
}

/// Track rows of the tracks below `count`, in order.
pub open spec fn track_rows(tracks: Seq<u16>, count: u16) -> Seq<RowView>
    decreases tracks.len(),
{
    if tracks.len() == 0 {
        Seq::empty()
    } else {
        let rest = track_rows(tracks.drop_last(), count);
        if tracks.last() < count {
            rest.push(RowView::Track(tracks.last()))
        } else {
            rest
        }
    }
}

/// The rows of a list of groups: for each, its header when `named`, then
/// its track rows.
pub open spec fn group_rows(groups: Seq<(Option<Seq<char>>, Option<Seq<char>>, Seq<u16>)>, named: bool, count: u16) -> Seq<
    RowView,
>
    decreases groups.len(),
{
    if groups.len() == 0 {
        Seq::empty()
    } else {
        let g = groups.last();
        let head = if named {
            seq![RowView::Group(group_label(g.0))]
        } else {
            Seq::empty()
        };
        group_rows(groups.drop_last(), named, count) + head + track_rows(g.2, count)
    }
}

/// The rows of the disc list: with no groups, one row per track; else the
/// group rows, with headers only when some group has a name.
pub open spec fn build_rows_spec(groups: Seq<(Option<Seq<char>>, Option<Seq<char>>, Seq<u16>)>, count: u16) -> Seq<
    RowView,
> {
    if groups.len() == 0 {
        Seq::new(count as nat, |i: int| RowView::Track(i as u16))
    } else {
        group_rows(groups, exists|k: int| 0 <= k < groups.len() && (#[trigger] groups[k]).0 is Some, count)
    }
}

/// The groups as plain values.
pub open spec fn groups_view(groups: Seq<RawTrackGroup>) -> Seq<(Option<Seq<char>>, Option<Seq<char>>, Seq<u16>)> {
    groups.map_values(|g: RawTrackGroup| g.view())
}

fn label_of(name: &Option<String>) -> (r: String)
    ensures
        r@ == group_label(opt_seq(*name)),
{
    match name {
        Some(n) => {
            if n.as_str().unicode_len() > 0 {
                n.clone()
            } else {
                let s = "<untitled group>";
                String::from_str(s)
            }
        },
        None => {
            let s = "(ungrouped)";
            String::from_str(s)
        },
    }
}

/// Builds the rows of the disc list (see [`build_rows_spec`]); tracks at or
/// past `track_count` are left out.
pub fn build_rows(groups: &[RawTrackGroup], track_count: u16) -> (r: Vec<Row>)
    ensures
        rows_view(r@) == build_rows_spec(groups_view(groups@), track_count),
{
    let ghost gv = groups_view(groups@);
    let mut rows: Vec<Row> = Vec::new();
    if groups.len() == 0 {
        let mut t: u16 = 0;
        while t < track_count
            invariant
                t <= track_count,
                rows_view(rows@) == Seq::new(t as nat, |i: int| RowView::Track(i as u16)),
            decreases track_count - t,
        {
            proof {
                lemma_rows_view_push(rows@, Row::Track(t));
            }
            rows.push(Row::Track(t));
            t = t + 1;
            assert(rows_view(rows@) =~= Seq::new(t as nat, |i: int| RowView::Track(i as u16)));
        }
        return rows;
    }
    let mut named = false;
    let mut k: usize = 0;
    while k < groups.len()
        invariant
            k <= groups@.len(),
            gv == groups_view(groups@),
            named == exists|j: int| 0 <= j < k && (#[trigger] gv[j]).0 is Some,
        decreases groups@.len() - k,
    {
        if groups[k].name.is_some() {
            assert(gv[k as int].0 is Some);
            named = true;
        }
        k = k + 1;
    }
    let mut k: usize = 0;
    while k < groups.len()
        invariant
            k <= groups@.len(),
            gv == groups_view(groups@),
            rows_view(rows@) == group_rows(gv.take(k as int), named, track_count),
        decreases groups@.len() - k,
    {
        assert(gv.take(k + 1).drop_last() =~= gv.take(k as int));
        assert(gv.take(k + 1).last() == groups@[k as int].view());
        let g = &groups[k];
        if named {
            let label = label_of(&g.name);
            proof {
                lemma_rows_view_push(rows@, Row::Group(label));
            }
            rows.push(Row::Group(label));
        }
        let ghost before = rows_view(rows@);
        let mut i: usize = 0;
        while i < g.tracks.len()
            invariant
                i <= g.tracks@.len(),
                rows_view(rows@) == before + track_rows(g.tracks@.take(i as int), track_count),
            decreases g.tracks@.len() - i,
        {
            assert(g.tracks@.take(i + 1).drop_last() =~= g.tracks@.take(i as int));
            let t = g.tracks[i];
            if t < track_count {
                proof {
                    lemma_rows_view_push(rows@, Row::Track(t));
                }
                rows.push(Row::Track(t));
            }
            i = i + 1;
            assert(rows_view(rows@) =~= before + track_rows(g.tracks@.take(i as int), track_count));
        }
        assert(g.tracks@.take(g.tracks@.len() as int) =~= g.tracks@);
        k = k + 1;
        assert(rows_view(rows@) =~= group_rows(gv.take(k as int), named, track_count));
    }
    assert(gv.take(groups@.len() as int) =~= gv);
    rows
}

/// Index of the first track row, if any.
pub fn first_track_row(rows: &[Row]) -> (r: Option<usize>)
    ensures
        match r {
            Some(i) => i < rows@.len() && is_track_row(rows@[i as int].view()) && forall|j: int|
                0 <= j < i ==> !is_track_row(#[trigger] rows@[j].view()),
            None => forall|j: int| 0 <= j < rows@.len() ==> !is_track_row(#[trigger] rows@[j].view()),
        },
{
    let mut i: usize = 0;
    while i < rows.len()
        invariant
            i <= rows@.len(),
            forall|j: int| 0 <= j < i ==> !is_track_row(#[trigger] rows@[j].view()),
        decreases rows@.len() - i,
    {
        if let Row::Track(_) = &rows[i] {
            return Some(i);
        }
        i = i + 1;
    }
    None
}

/// The nearest track row after `current`, if any.
pub fn next_track_row(rows: &[Row], current: usize) -> (r: Option<usize>)
    ensures
        match r {
            Some(i) => current < i < rows@.len() && is_track_row(rows@[i as int].view()) && forall|j: int|
                current < j < i ==> !is_track_row(#[trigger] rows@[j].view()),
            None => forall|j: int| current < j < rows@.len() ==> !is_track_row(#[trigger] rows@[j].view()),
        },
{
    if current >= rows.len() {
        return None;
    }
    let mut i: usize = current + 1;
    while i < rows.len()
        invariant
            current < i <= rows@.len(),
            forall|j: int| current < j < i ==> !is_track_row(#[trigger] rows@[j].view()),
        decreases rows@.len() - i,
    {
        if let Row::Track(_) = &rows[i] {
            return Some(i);
        }
        i = i + 1;
    }
    None
}

/// The nearest track row before `current`, if any.
pub fn prev_track_row(rows: &[Row], current: usize) -> (r: Option<usize>)
    requires
        current <= rows@.len(),
    ensures
        match r {
            Some(i) => i < current && is_track_row(rows@[i as int].view()) && forall|j: int|
                i < j < current ==> !is_track_row(#[trigger] rows@[j].view()),
            None => forall|j: int| 0 <= j < current ==> !is_track_row(#[trigger] rows@[j].view()),
        },
{
    let mut i: usize = current;
    while i > 0
        invariant
            i <= current <= rows@.len(),
            forall|j: int| i <= j < current ==> !is_track_row(#[trigger] rows@[j].view()),
        decreases i,
    {
        i = i - 1;
        if let Row::Track(_) = &rows[i] {
            return Some(i);
        }
    }
    None
}

/// `mm:ss` of a number of seconds: whole minutes and seconds, each at least
/// two digits.
pub open spec fn mmss_spec(total_seconds: u32) -> Seq<char> {
    dec_padded_spec((total_seconds / 60) as nat, 2) + seq![':'] + dec_padded_spec((total_seconds % 60) as nat, 2)
}

/// Formats seconds as `mm:ss`.
pub fn fmt_mmss(total_seconds: u32) -> (s: String)
    ensures
        s@ == mmss_spec(total_seconds),
{
    let mut out = dec_padded((total_seconds / 60) as u64, 2);
    let colon: Vec<char> = vec![':'];
    let secs = dec_padded((total_seconds % 60) as u64, 2);
    append_chars(&mut out, colon.as_slice());
    append_chars(&mut out, secs.as_slice());
    chars_to_string(out.as_slice())
}

} // verus!
