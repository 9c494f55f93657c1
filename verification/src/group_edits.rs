//! What editing the group structure keeps: adding a group and removing it
//! again leaves the listing grouped as before.

use vstd::prelude::*;
use crate::groups::{
    covered, find_named, find_named_from, first_track, flat_tracks, group_view, max_index, min_index,
    named_entries, named_ranges_spec, opt_chars, overlaps, ranges_without, rebuild_spec, sort_ranges,
    sorted_tracks, tracks_in, uncovered_tracks,
};
use crate::order::{
    insert_pos, lemma_insert_shape, lemma_sort_identity, lemma_sort_props, lemma_sort_same_keys,
    sort_positions,
};
use crate::types::{opt_view, ChannelCount, Encoding, Group, Track, TrackFlag};

verus! {

/// A track as plain values, index first.
pub type TrackView = (u16, Option<Seq<char>>, Option<Seq<char>>, u32, ChannelCount, Encoding, TrackFlag);

/// How many tracks of `s` have the index `v`.
pub open spec fn index_count(s: Seq<TrackView>, v: u16) -> nat
    decreases s.len(),
{
    if s.len() == 0 {
        0
    } else {
        index_count(s.drop_last(), v) + if s.last().0 == v {
            1nat
        } else {
            0nat
        }
    }
}

proof fn lemma_count_concat(a: Seq<TrackView>, b: Seq<TrackView>, v: u16)
    ensures
        index_count(a + b, v) == index_count(a, v) + index_count(b, v),
    decreases b.len(),
{
    if b.len() == 0 {
        assert(a + b =~= a);
    } else {
        lemma_count_concat(a, b.drop_last(), v);
        assert((a + b).drop_last() =~= a + b.drop_last());
        assert((a + b).last() == b.last());
    }
}

proof fn lemma_count_tracks_in(s: Seq<TrackView>, a: u16, b: u16, v: u16)
    ensures
        index_count(tracks_in(s, a, b), v) == if a <= v <= b {
            index_count(s, v)
        } else {
            0
        },
    decreases s.len(),
{
    if s.len() > 0 {
        let t = s.drop_last();
        lemma_count_tracks_in(t, a, b, v);
        let x = s.last();
        if a <= x.0 <= b {
            let r = tracks_in(t, a, b).push(x);
            assert(r.drop_last() =~= tracks_in(t, a, b));
            assert(index_count(r, v) == index_count(tracks_in(t, a, b), v) + if x.0 == v { 1nat } else { 0nat });
        }
    }
}

proof fn lemma_count_uncovered(s: Seq<TrackView>, rs: Seq<(u16, u16, Seq<char>, Option<Seq<char>>)>, v: u16)
    ensures
        index_count(uncovered_tracks(s, rs), v) == if covered(v, rs) {
            0
        } else {
            index_count(s, v)
        },
    decreases s.len(),
{
    if s.len() > 0 {
        let t = s.drop_last();
        lemma_count_uncovered(t, rs, v);
        let x = s.last();
        if !covered(x.0, rs) {
            let r = uncovered_tracks(t, rs).push(x);
            assert(r.drop_last() =~= uncovered_tracks(t, rs));
            assert(index_count(r, v) == index_count(uncovered_tracks(t, rs), v) + if x.0 == v { 1nat } else { 0nat });
        }
    }
}

/// Whether no two tracks of `s` share an index.
pub open spec fn distinct_indices(s: Seq<TrackView>) -> bool {
    forall|i: int, j: int| 0 <= i < s.len() && 0 <= j < s.len() && i != j ==> (#[trigger] s[i]).0 != (#[trigger] s[j]).0
}

proof fn lemma_count_le_one(s: Seq<TrackView>, v: u16)
    requires
        distinct_indices(s),
    ensures
        index_count(s, v) <= 1,
        index_count(s, v) == 1 <==> exists|i: int| 0 <= i < s.len() && (#[trigger] s[i]).0 == v,
    decreases s.len(),
{
    if s.len() > 0 {
        let t = s.drop_last();
        assert forall|i: int, j: int| 0 <= i < t.len() && 0 <= j < t.len() && i != j implies (#[trigger] t[i]).0 != (#[trigger] t[j]).0 by {
            assert(t[i] == s[i] && t[j] == s[j]);
        }
        lemma_count_le_one(t, v);
        if s.last().0 == v {
            if index_count(t, v) == 1 {
                let i = choose|i: int| 0 <= i < t.len() && (#[trigger] t[i]).0 == v;
                assert(s[i] == t[i]);
                assert(s[s.len() - 1].0 == v);
            }
            assert(s[s.len() - 1].0 == v);
        } else {
            if exists|i: int| 0 <= i < s.len() && (#[trigger] s[i]).0 == v {
                let i = choose|i: int| 0 <= i < s.len() && (#[trigger] s[i]).0 == v;
                assert(i < t.len());
                assert(t[i] == s[i]);
            }
            if exists|i: int| 0 <= i < t.len() && (#[trigger] t[i]).0 == v {
                let i = choose|i: int| 0 <= i < t.len() && (#[trigger] t[i]).0 == v;
                assert(s[i] == t[i]);
            }
        }
    }
}

proof fn lemma_count_ge_two(s: Seq<TrackView>, i: int, j: int)
    requires
        0 <= i < j < s.len(),
        s[i].0 == s[j].0,
    ensures
        index_count(s, s[i].0) >= 2,
    decreases s.len(),
{
    let t = s.drop_last();
    if j < s.len() - 1 {
        assert(t[i] == s[i] && t[j] == s[j]);
        lemma_count_ge_two(t, i, j);
    } else {
        assert(t[i] == s[i]);
        lemma_count_pos(t, i);
    }
}

proof fn lemma_count_pos(s: Seq<TrackView>, i: int)
    requires
        0 <= i < s.len(),
    ensures
        index_count(s, s[i].0) >= 1,
    decreases s.len(),
{
    let t = s.drop_last();
    if i < s.len() - 1 {
        assert(t[i] == s[i]);
        lemma_count_pos(t, i);
    }
}

/// Counts of at most one mean distinct indices.
proof fn lemma_distinct_from_counts(s: Seq<TrackView>)
    requires
        forall|v: u16| index_count(s, v) <= 1,
    ensures
        distinct_indices(s),
{
    assert forall|i: int, j: int| 0 <= i < s.len() && 0 <= j < s.len() && i != j implies (#[trigger] s[i]).0 != (#[trigger] s[j]).0 by {
        if s[i].0 == s[j].0 {
            if i < j {
                lemma_count_ge_two(s, i, j);
            } else {
                lemma_count_ge_two(s, j, i);
            }
            assert(index_count(s, s[i].0) <= 1);
        }
    }
}

/// A group as plain values: number, name, full-width name, tracks.
pub type GroupView = (usize, Option<Seq<char>>, Option<Seq<char>>, Seq<TrackView>);

/// The tracks of group views, group after group.
pub open spec fn views_tracks(vs: Seq<GroupView>) -> Seq<TrackView>
    decreases vs.len(),
{
    if vs.len() == 0 {
        Seq::empty()
    } else {
        views_tracks(vs.drop_last()) + vs.last().3
    }
}

proof fn lemma_views_concat(a: Seq<GroupView>, b: Seq<GroupView>)
    ensures
        views_tracks(a + b) == views_tracks(a) + views_tracks(b),
    decreases b.len(),
{
    if b.len() == 0 {
        assert(a + b =~= a);
        assert(views_tracks(a) + Seq::<TrackView>::empty() =~= views_tracks(a));
    } else {
        lemma_views_concat(a, b.drop_last());
        assert((a + b).drop_last() =~= a + b.drop_last());
        assert((a + b).last() == b.last());
        assert(views_tracks(a) + views_tracks(b.drop_last()) + b.last().3 =~= views_tracks(a) + (views_tracks(
            b.drop_last(),
        ) + b.last().3));
    }
}

/// The tracks of a listing, as plain values, are those of its group views.
proof fn lemma_flat_views(gs: Seq<Group>)
    ensures
        flat_tracks(gs).map_values(|t: Track| t.view()) == views_tracks(gs.map_values(|g: Group| group_view(g))),
    decreases gs.len(),
{
    if gs.len() > 0 {
        let t = gs.drop_last();
        lemma_flat_views(t);
        assert(gs.map_values(|g: Group| group_view(g)).drop_last() =~= t.map_values(|g: Group| group_view(g)));
        assert(gs.map_values(|g: Group| group_view(g)).last() == group_view(gs.last()));
        assert((flat_tracks(t) + gs.last().tracks@).map_values(|x: Track| x.view()) =~= flat_tracks(t).map_values(
            |x: Track| x.view(),
        ) + gs.last().tracks@.map_values(|x: Track| x.view()));
    }
}

/// Whether no two of the ranges share a track.
pub open spec fn disjoint_ranges(rs: Seq<(u16, u16, Seq<char>, Option<Seq<char>>)>) -> bool {
    forall|i: int, j: int| #![trigger rs[i], rs[j]] 0 <= i < j < rs.len() ==> !overlaps(rs[i].0, rs[i].1, rs[j])
}

/// Whether every track of `a` is a track of `b`.
pub open spec fn within(a: Seq<TrackView>, b: Seq<TrackView>) -> bool {
    forall|i: int| 0 <= i < a.len() ==> b.contains(#[trigger] a[i])
}

proof fn lemma_within_concat(a: Seq<TrackView>, b: Seq<TrackView>, c: Seq<TrackView>)
    requires
        within(a, c),
        within(b, c),
    ensures
        within(a + b, c),
{
    assert forall|i: int| 0 <= i < (a + b).len() implies c.contains(#[trigger] (a + b)[i]) by {
        if i < a.len() {
            assert((a + b)[i] == a[i]);
        } else {
            assert((a + b)[i] == b[i - a.len()]);
        }
    }
}

proof fn lemma_within_tracks_in(s: Seq<TrackView>, a: u16, b: u16)
    ensures
        within(tracks_in(s, a, b), s),
    decreases s.len(),
{
    if s.len() > 0 {
        let t = s.drop_last();
        lemma_within_tracks_in(t, a, b);
        let r = tracks_in(t, a, b);
        assert forall|i: int| 0 <= i < r.len() implies s.contains(#[trigger] r[i]) by {
            assert(t.contains(r[i]));
            let k = choose|k: int| 0 <= k < t.len() && t[k] == r[i];
            assert(s[k] == t[k]);
        }
        if a <= s.last().0 <= b {
            assert forall|i: int| 0 <= i < r.push(s.last()).len() implies s.contains(#[trigger] r.push(s.last())[i]) by {
                if i < r.len() {
                    assert(r.push(s.last())[i] == r[i]);
                } else {
                    assert(s[s.len() - 1] == s.last());
                }
            }
        }
    }
}

proof fn lemma_within_uncovered(s: Seq<TrackView>, rs: Seq<(u16, u16, Seq<char>, Option<Seq<char>>)>)
    ensures
        within(uncovered_tracks(s, rs), s),
    decreases s.len(),
{
    if s.len() > 0 {
        let t = s.drop_last();
        lemma_within_uncovered(t, rs);
        let r = uncovered_tracks(t, rs);
        assert forall|i: int| 0 <= i < r.len() implies s.contains(#[trigger] r[i]) by {
            assert(t.contains(r[i]));
            let k = choose|k: int| 0 <= k < t.len() && t[k] == r[i];
            assert(s[k] == t[k]);
        }
        if !covered(s.last().0, rs) {
            assert forall|i: int| 0 <= i < r.push(s.last()).len() implies s.contains(#[trigger] r.push(s.last())[i]) by {
                if i < r.len() {
                    assert(r.push(s.last())[i] == r[i]);
                } else {
                    assert(s[s.len() - 1] == s.last());
                }
            }
        }
    }
}

/// The named groups of a rebuilt listing, numbered from `h`.
pub open spec fn rebuilt_body(
    named: Seq<(u16, u16, Seq<char>, Option<Seq<char>>)>,
    fl: Seq<TrackView>,
    h: int,
    n: int,
) -> Seq<GroupView> {
    Seq::new(
        n as nat,
        |k: int| ((h + k) as usize, Some(named[k].2), named[k].3, tracks_in(fl, named[k].0, named[k].1)),
    )
}

proof fn lemma_body_tracks(
    named: Seq<(u16, u16, Seq<char>, Option<Seq<char>>)>,
    fl: Seq<TrackView>,
    h: int,
    n: int,
    v: u16,
)
    requires
        0 <= n <= named.len(),
        disjoint_ranges(named),
    ensures
        index_count(views_tracks(rebuilt_body(named, fl, h, n)), v) == if exists|k: int|
            0 <= k < n && (#[trigger] named[k]).0 <= v <= named[k].1 {
            index_count(fl, v)
        } else {
            0
        },
        within(views_tracks(rebuilt_body(named, fl, h, n)), fl),
    decreases n,
{
    if n == 0 {
        assert(rebuilt_body(named, fl, h, n) =~= Seq::<GroupView>::empty());
    } else {
        let b = rebuilt_body(named, fl, h, n);
        let b0 = rebuilt_body(named, fl, h, n - 1);
        assert(b.drop_last() =~= b0);
        lemma_body_tracks(named, fl, h, n - 1, v);
        let r = named[n - 1];
        lemma_count_concat(views_tracks(b0), tracks_in(fl, r.0, r.1), v);
        lemma_count_tracks_in(fl, r.0, r.1, v);
        lemma_within_tracks_in(fl, r.0, r.1);
        lemma_within_concat(views_tracks(b0), tracks_in(fl, r.0, r.1), fl);
        if r.0 <= v <= r.1 {
            assert forall|k: int| 0 <= k < n - 1 implies !((#[trigger] named[k]).0 <= v <= named[k].1) by {
                assert(!overlaps(named[k].0, named[k].1, named[n - 1]));
            }
        }
    }
}

/// A rebuilt listing holds the sorted tracks, each index as often as
/// before, when its ranges share no track.
proof fn lemma_rebuilt_tracks(rs: Seq<(u16, u16, Seq<char>, Option<Seq<char>>)>, gs: Seq<Group>, v: u16)
    requires
        disjoint_ranges(sort_ranges(rs)),
    ensures
        index_count(views_tracks(rebuild_spec(rs, gs)), v) == index_count(sorted_tracks(gs), v),
        within(views_tracks(rebuild_spec(rs, gs)), sorted_tracks(gs)),
{
    let named = sort_ranges(rs);
    let fl = sorted_tracks(gs);
    let loose = uncovered_tracks(fl, named);
    let head = if loose.len() > 0 {
        seq![(0usize, None::<Seq<char>>, None::<Seq<char>>, loose)]
    } else {
        Seq::<GroupView>::empty()
    };
    let body = rebuilt_body(named, fl, head.len() as int, named.len() as int);
    assert(rebuild_spec(rs, gs) =~= head + body);
    lemma_views_concat(head, body);
    lemma_body_tracks(named, fl, head.len() as int, named.len() as int, v);
    lemma_count_uncovered(fl, named, v);
    lemma_within_uncovered(fl, named);
    if loose.len() > 0 {
        assert(head.drop_last() =~= Seq::<GroupView>::empty());
        assert(head.last().3 == loose);
        assert(views_tracks(Seq::<GroupView>::empty()) == Seq::<TrackView>::empty());
        assert(views_tracks(head) == views_tracks(head.drop_last()) + head.last().3);
        assert(views_tracks(head) =~= Seq::<TrackView>::empty() + loose);
        assert(views_tracks(head) =~= loose);
    } else {
        assert(views_tracks(head) =~= Seq::<TrackView>::empty());
        assert(index_count(loose, v) == 0);
        assert(within(views_tracks(head), fl));
    }
    lemma_count_concat(views_tracks(head), views_tracks(body), v);
    lemma_within_concat(views_tracks(head), views_tracks(body), fl);
}

/// Whether the indices of `s` strictly ascend.
pub open spec fn strictly_ascending(s: Seq<TrackView>) -> bool {
    forall|i: int, j: int| 0 <= i < j < s.len() ==> (#[trigger] s[i]).0 < (#[trigger] s[j]).0
}

/// Two track lists with strictly ascending indices and the same tracks are
/// the same list.
proof fn lemma_strict_unique(a: Seq<TrackView>, b: Seq<TrackView>)
    requires
        a.len() == b.len(),
        strictly_ascending(a),
        strictly_ascending(b),
        forall|x: TrackView| a.contains(x) <==> b.contains(x),
    ensures
        a == b,
    decreases a.len(),
{
    if a.len() > 0 {
        assert(a.contains(a[0]));
        let j = choose|j: int| 0 <= j < b.len() && b[j] == a[0];
        assert(b.contains(b[0]));
        let i = choose|i: int| 0 <= i < a.len() && a[i] == b[0];
        if j > 0 {
            assert(b[0].0 < b[j].0);
            if i > 0 {
                assert(a[0].0 < a[i].0);
            }
        }
        assert(a[0] == b[0]);
        let a1 = a.drop_first();
        let b1 = b.drop_first();
        assert forall|i: int, j: int| 0 <= i < j < a1.len() implies (#[trigger] a1[i]).0 < (#[trigger] a1[j]).0 by {
            assert(a1[i] == a[i + 1] && a1[j] == a[j + 1]);
        }
        assert forall|i: int, j: int| 0 <= i < j < b1.len() implies (#[trigger] b1[i]).0 < (#[trigger] b1[j]).0 by {
            assert(b1[i] == b[i + 1] && b1[j] == b[j + 1]);
        }
        assert forall|x: TrackView| a1.contains(x) <==> b1.contains(x) by {
            if a1.contains(x) {
                let k = choose|k: int| 0 <= k < a1.len() && a1[k] == x;
                assert(a[k + 1] == x);
                assert(a.contains(x));
                let m = choose|m: int| 0 <= m < b.len() && b[m] == x;
                assert(a[0].0 < a[k + 1].0);
                assert(m != 0);
                assert(b1[m - 1] == x);
            }
            if b1.contains(x) {
                let k = choose|k: int| 0 <= k < b1.len() && b1[k] == x;
                assert(b[k + 1] == x);
                assert(b.contains(x));
                let m = choose|m: int| 0 <= m < a.len() && a[m] == x;
                assert(b[0].0 < b[k + 1].0);
                assert(m != 0);
                assert(a1[m - 1] == x);
            }
        }
        lemma_strict_unique(a1, b1);
        assert(a =~= seq![a[0]] + a1);
        assert(b =~= seq![b[0]] + b1);
    }
}

/// The stably sorted tracks of a list: the same tracks, indices ascending.
proof fn lemma_sorted_facts(f: Seq<TrackView>)
    ensures
        ({
            let keys = Seq::new(f.len(), |i: int| f[i].0 as int);
            let o = sort_positions(keys, f.len() as int);
            let srt = Seq::new(f.len(), |k: int| f[o[k]]);
            &&& forall|x: TrackView| srt.contains(x) <==> f.contains(x)
            &&& forall|i: int, j: int| 0 <= i < j < srt.len() ==> (#[trigger] srt[i]).0 <= (#[trigger] srt[j]).0
            &&& distinct_indices(f) ==> distinct_indices(srt)
        }),
{
    let n = f.len() as int;
    let keys = Seq::new(f.len(), |i: int| f[i].0 as int);
    let o = sort_positions(keys, n);
    lemma_sort_props(keys, n);
    let srt = Seq::new(f.len(), |k: int| f[o[k]]);
    assert forall|x: TrackView| srt.contains(x) <==> f.contains(x) by {
        if srt.contains(x) {
            let k = choose|k: int| 0 <= k < srt.len() && srt[k] == x;
            assert(f[o[k]] == x);
        }
        if f.contains(x) {
            let p = choose|p: int| 0 <= p < f.len() && f[p] == x;
            assert(o.contains(p));
            let k = choose|k: int| 0 <= k < o.len() && o[k] == p;
            assert(srt[k] == x);
        }
    }
    assert forall|i: int, j: int| 0 <= i < j < srt.len() implies (#[trigger] srt[i]).0 <= (#[trigger] srt[j]).0 by {
        assert(keys[o[i]] <= keys[o[j]]);
    }
    if distinct_indices(f) {
        assert forall|i: int, j: int| 0 <= i < srt.len() && 0 <= j < srt.len() && i != j implies (#[trigger] srt[i]).0
            != (#[trigger] srt[j]).0 by {
            assert(o[i] != o[j]);
            assert(f[o[i]].0 != f[o[j]].0);
        }
    }
}

/// Tracks with distinct indices are distinct.
proof fn lemma_distinct_no_dup(s: Seq<TrackView>)
    requires
        distinct_indices(s),
    ensures
        s.no_duplicates(),
{
    assert forall|i: int, j: int| 0 <= i < s.len() && 0 <= j < s.len() && i != j implies s[i] != s[j] by {
        assert(s[i].0 != s[j].0);
    }
}

/// A listing whose tracks are those of another, each index as often, sorts
/// to the same tracks.
proof fn lemma_sorted_tracks_same(g1: Seq<Group>, g0: Seq<Group>)
    requires
        distinct_indices(flat_tracks(g0).map_values(|t: Track| t.view())),
        forall|v: u16|
            index_count(flat_tracks(g1).map_values(|t: Track| t.view()), v) == #[trigger] index_count(
                sorted_tracks(g0),
                v,
            ),
        within(flat_tracks(g1).map_values(|t: Track| t.view()), sorted_tracks(g0)),
    ensures
        sorted_tracks(g1) == sorted_tracks(g0),
{
    let f0 = flat_tracks(g0).map_values(|t: Track| t.view());
    let f1 = flat_tracks(g1).map_values(|t: Track| t.view());
    let fl = sorted_tracks(g0);
    lemma_sorted_facts(f0);
    lemma_sorted_facts(f1);
    assert forall|v: u16| #[trigger] index_count(f1, v) <= 1 by {
        lemma_count_le_one(fl, v);
    }
    lemma_distinct_from_counts(f1);
    assert forall|x: TrackView| fl.contains(x) <==> f1.contains(x) by {
        if f1.contains(x) {
            let j = choose|j: int| 0 <= j < f1.len() && f1[j] == x;
            assert(fl.contains(f1[j]));
        }
        if fl.contains(x) {
            let i = choose|i: int| 0 <= i < fl.len() && fl[i] == x;
            lemma_count_le_one(fl, x.0);
            lemma_count_le_one(f1, x.0);
            assert(index_count(f1, x.0) == index_count(fl, x.0));
            let j = choose|j: int| 0 <= j < f1.len() && (#[trigger] f1[j]).0 == x.0;
            assert(fl.contains(f1[j]));
            let i2 = choose|i2: int| 0 <= i2 < fl.len() && fl[i2] == f1[j];
            assert(i2 == i);
        }
    }
    lemma_distinct_no_dup(f1);
    lemma_distinct_no_dup(fl);
    f1.unique_seq_to_set();
    fl.unique_seq_to_set();
    assert(f1.to_set() =~= fl.to_set());
    let a = sorted_tracks(g1);
    assert forall|i: int, j: int| 0 <= i < j < a.len() implies (#[trigger] a[i]).0 < (#[trigger] a[j]).0 by {
        assert(a[i].0 <= a[j].0);
        assert(a[i].0 != a[j].0);
    }
    assert forall|i: int, j: int| 0 <= i < j < fl.len() implies (#[trigger] fl[i]).0 < (#[trigger] fl[j]).0 by {
        assert(fl[i].0 <= fl[j].0);
        assert(fl[i].0 != fl[j].0);
    }
    lemma_strict_unique(a, fl);
}

/// The smallest index of a non-empty track list is one of its indices and
/// none is smaller; likewise the largest.
proof fn lemma_min_max_props(ts: Seq<Track>)
    requires
        ts.len() > 0,
    ensures
        exists|j: int| 0 <= j < ts.len() && (#[trigger] ts[j]).index == min_index(ts),
        forall|j: int| 0 <= j < ts.len() ==> min_index(ts) <= (#[trigger] ts[j]).index,
        exists|j: int| 0 <= j < ts.len() && (#[trigger] ts[j]).index == max_index(ts),
        forall|j: int| 0 <= j < ts.len() ==> (#[trigger] ts[j]).index <= max_index(ts),
    decreases ts.len(),
{
    if ts.len() == 1 {
        assert(ts[0].index == min_index(ts));
        assert(ts[0].index == max_index(ts));
    } else {
        let t = ts.drop_last();
        lemma_min_max_props(t);
        let a = choose|j: int| 0 <= j < t.len() && (#[trigger] t[j]).index == min_index(t);
        let b = choose|j: int| 0 <= j < t.len() && (#[trigger] t[j]).index == max_index(t);
        assert(ts[a] == t[a]);
        assert(ts[b] == t[b]);
        let l = ts.len() - 1;
        assert(ts[l] == ts.last());
        assert forall|j: int| 0 <= j < ts.len() implies min_index(ts) <= (#[trigger] ts[j]).index by {
            if j < l {
                assert(ts[j] == t[j]);
            }
        }
        assert forall|j: int| 0 <= j < ts.len() implies (#[trigger] ts[j]).index <= max_index(ts) by {
            if j < l {
                assert(ts[j] == t[j]);
            }
        }
    }
}

proof fn lemma_tracks_in_props(s: Seq<TrackView>, a: u16, b: u16)
    ensures
        forall|i: int| 0 <= i < tracks_in(s, a, b).len() ==> a <= (#[trigger] tracks_in(s, a, b)[i]).0 <= b,
        forall|x: TrackView| s.contains(x) && a <= x.0 <= b ==> #[trigger] tracks_in(s, a, b).contains(x),
    decreases s.len(),
{
    if s.len() > 0 {
        let t = s.drop_last();
        lemma_tracks_in_props(t, a, b);
        let r = tracks_in(t, a, b);
        let x0 = s.last();
        if a <= x0.0 <= b {
            let r2 = r.push(x0);
            assert forall|i: int| 0 <= i < r2.len() implies a <= (#[trigger] r2[i]).0 <= b by {
                if i < r.len() {
                    assert(r2[i] == r[i]);
                }
            }
            assert forall|x: TrackView| s.contains(x) && a <= x.0 <= b implies #[trigger] r2.contains(x) by {
                let k = choose|k: int| 0 <= k < s.len() && s[k] == x;
                if k < t.len() {
                    assert(t[k] == x);
                    assert(t.contains(x));
                    assert(tracks_in(t, a, b).contains(x));
                    let m = choose|m: int| 0 <= m < r.len() && r[m] == x;
                    assert(r2[m] == x);
                } else {
                    assert(r2[r.len() as int] == x);
                }
            }
        } else {
            assert forall|x: TrackView| s.contains(x) && a <= x.0 <= b implies #[trigger] r.contains(x) by {
                let k = choose|k: int| 0 <= k < s.len() && s[k] == x;
                assert(k < t.len());
                assert(t[k] == x);
                assert(t.contains(x));
                assert(tracks_in(t, a, b).contains(x));
            }
        }
    }
}

/// Whether some track of `s` has the index `v`.
pub open spec fn holds_index(s: Seq<TrackView>, v: u16) -> bool {
    exists|i: int| 0 <= i < s.len() && (#[trigger] s[i]).0 == v
}

/// A group whose tracks are those of `fl` in `a..=b`, where `fl` holds the
/// indices `a` and `b`, has `a` and `b` as its first and last track.
proof fn lemma_group_ends(ts: Seq<Track>, fl: Seq<TrackView>, a: u16, b: u16)
    requires
        ts.map_values(|t: Track| t.view()) == tracks_in(fl, a, b),
        a <= b,
        holds_index(fl, a),
        holds_index(fl, b),
    ensures
        ts.len() > 0,
        min_index(ts) == a,
        max_index(ts) == b,
{
    lemma_tracks_in_props(fl, a, b);
    let r = tracks_in(fl, a, b);
    let ia = choose|i: int| 0 <= i < fl.len() && (#[trigger] fl[i]).0 == a;
    let ib = choose|i: int| 0 <= i < fl.len() && (#[trigger] fl[i]).0 == b;
    assert(fl.contains(fl[ia]));
    assert(fl.contains(fl[ib]));
    assert(r.contains(fl[ia]));
    assert(r.contains(fl[ib]));
    let ja = choose|j: int| 0 <= j < r.len() && r[j] == fl[ia];
    let jb = choose|j: int| 0 <= j < r.len() && r[j] == fl[ib];
    assert(ts.len() == r.len());
    lemma_min_max_props(ts);
    assert(ts[ja].view() == r[ja]);
    assert(ts[jb].view() == r[jb]);
    assert forall|j: int| 0 <= j < ts.len() implies a <= (#[trigger] ts[j]).index <= b by {
        assert(ts[j].view() == r[j]);
    }
}

/// Sorted ranges ascend by first track.
proof fn lemma_sort_ranges_ascend(rs: Seq<(u16, u16, Seq<char>, Option<Seq<char>>)>)
    ensures
        sort_ranges(rs).len() == rs.len(),
        forall|i: int, j: int| 0 <= i < j < rs.len() ==> (#[trigger] sort_ranges(rs)[i]).0 <= (#[trigger] sort_ranges(rs)[j]).0,
{
    let keys = Seq::new(rs.len(), |i: int| rs[i].0 as int);
    let o = sort_positions(keys, rs.len() as int);
    lemma_sort_props(keys, rs.len() as int);
    assert forall|i: int, j: int| 0 <= i < j < rs.len() implies (#[trigger] sort_ranges(rs)[i]).0 <= (#[trigger] sort_ranges(rs)[j]).0 by {
        assert(keys[o[i]] <= keys[o[j]]);
    }
}

/// Ranges that already ascend by first track stay as they are.
proof fn lemma_sort_ranges_sorted(rs: Seq<(u16, u16, Seq<char>, Option<Seq<char>>)>)
    requires
        forall|i: int, j: int| 0 <= i < j < rs.len() ==> (#[trigger] rs[i]).0 <= (#[trigger] rs[j]).0,
    ensures
        sort_ranges(rs) == rs,
{
    let keys = Seq::new(rs.len(), |i: int| rs[i].0 as int);
    lemma_sort_identity(keys, rs.len() as int);
    assert(sort_ranges(rs) =~= rs);
}

/// Whether the ranges start no later than they end and both their ends are
/// indices of tracks of `fl`.
pub open spec fn ends_held(rs: Seq<(u16, u16, Seq<char>, Option<Seq<char>>)>, fl: Seq<TrackView>) -> bool {
    forall|k: int|
        0 <= k < rs.len() ==> (#[trigger] rs[k]).0 <= rs[k].1 && holds_index(fl, rs[k].0) && holds_index(fl, rs[k].1)
}

/// The bucket of a rebuilt listing, if any.
spec fn rebuilt_head(rs: Seq<(u16, u16, Seq<char>, Option<Seq<char>>)>, gs0: Seq<Group>) -> Seq<GroupView> {
    let loose = uncovered_tracks(sorted_tracks(gs0), sort_ranges(rs));
    if loose.len() > 0 {
        seq![(0usize, None::<Seq<char>>, None::<Seq<char>>, loose)]
    } else {
        Seq::empty()
    }
}

proof fn lemma_rebuilt_split(rs: Seq<(u16, u16, Seq<char>, Option<Seq<char>>)>, gs0: Seq<Group>)
    ensures
        rebuild_spec(rs, gs0) == rebuilt_head(rs, gs0) + rebuilt_body(
            sort_ranges(rs),
            sorted_tracks(gs0),
            rebuilt_head(rs, gs0).len() as int,
            sort_ranges(rs).len() as int,
        ),
{
    assert(rebuild_spec(rs, gs0) =~= rebuilt_head(rs, gs0) + rebuilt_body(
        sort_ranges(rs),
        sorted_tracks(gs0),
        rebuilt_head(rs, gs0).len() as int,
        sort_ranges(rs).len() as int,
    ));
}

proof fn lemma_entries_prefix(rs: Seq<(u16, u16, Seq<char>, Option<Seq<char>>)>, gs0: Seq<Group>, g1: Seq<Group>, m: int)
    requires
        g1.map_values(|g: Group| group_view(g)) == rebuild_spec(rs, gs0),
        ends_held(sort_ranges(rs), sorted_tracks(gs0)),
        0 <= m <= sort_ranges(rs).len(),
    ensures
        named_entries(g1.take(rebuilt_head(rs, gs0).len() + m)) == sort_ranges(rs).take(m),
    decreases m,
{
    let named = sort_ranges(rs);
    let fl = sorted_tracks(gs0);
    let head = rebuilt_head(rs, gs0);
    let h = head.len() as int;
    let n = named.len() as int;
    let body = rebuilt_body(named, fl, h, n);
    let vs = g1.map_values(|g: Group| group_view(g));
    lemma_rebuilt_split(rs, gs0);
    assert(vs == head + body);
    assert(g1.len() == h + n);
    if m == 0 {
        assert(named_entries(Seq::<Group>::empty()) == Seq::<(u16, u16, Seq<char>, Option<Seq<char>>)>::empty());
        if h == 1 {
            assert(group_view(g1[0]) == vs[0]);
            assert(vs[0] == head[0]);
            assert(g1[0].title is None);
            assert(g1.take(1).drop_last() =~= Seq::<Group>::empty());
            assert(g1.take(1).last() == g1[0]);
            assert(named_entries(g1.take(1)) == named_entries(g1.take(1).drop_last()));
        } else {
            assert(h == 0);
            assert(g1.take(0) =~= Seq::<Group>::empty());
        }
        assert(named.take(0) =~= Seq::<(u16, u16, Seq<char>, Option<Seq<char>>)>::empty());
    } else {
        lemma_entries_prefix(rs, gs0, g1, m - 1);
        let g = g1[h + m - 1];
        assert(g1.take(h + m).drop_last() =~= g1.take(h + m - 1));
        assert(g1.take(h + m).last() == g);
        assert(group_view(g) == vs[h + m - 1]);
        assert(vs[h + m - 1] == body[m - 1]);
        let r = named[m - 1];
        assert(opt_view_is(g.title, r.2));
        assert(g.tracks@.map_values(|t: Track| t.view()) == tracks_in(fl, r.0, r.1));
        lemma_group_ends(g.tracks@, fl, r.0, r.1);
        assert(g.title is Some && g.tracks@.len() > 0);
        assert(opt_chars(g.title) == r.2);
        assert(opt_view(g.full_width_title) == r.3);
        assert(min_index(g.tracks@) as u16 == r.0);
        assert(max_index(g.tracks@) as u16 == r.1);
        assert(named_entries(g1.take(h + m)) == named_entries(g1.take(h + m - 1)).push(
            (min_index(g.tracks@) as u16, max_index(g.tracks@) as u16, opt_chars(g.title), opt_view(g.full_width_title)),
        ));
        assert(named.take(m) =~= named.take(m - 1).push(r));
    }
}

/// The named ranges of a listing rebuilt from ranges whose ends are held
/// tracks are those ranges, sorted.
proof fn lemma_rebuilt_entries(rs: Seq<(u16, u16, Seq<char>, Option<Seq<char>>)>, gs0: Seq<Group>, g1: Seq<Group>)
    requires
        g1.map_values(|g: Group| group_view(g)) == rebuild_spec(rs, gs0),
        ends_held(sort_ranges(rs), sorted_tracks(gs0)),
    ensures
        named_entries(g1) == sort_ranges(rs),
        named_ranges_spec(g1) == sort_ranges(rs),
{
    let named = sort_ranges(rs);
    let n = named.len() as int;
    lemma_rebuilt_split(rs, gs0);
    lemma_entries_prefix(rs, gs0, g1, n);
    assert(g1.map_values(|g: Group| group_view(g)).len() == g1.len());
    assert(g1.len() == rebuilt_head(rs, gs0).len() + n);
    assert(g1.take(rebuilt_head(rs, gs0).len() + n) =~= g1);
    assert(named.take(n) =~= named);
    lemma_sort_ranges_ascend(rs);
    lemma_sort_ranges_sorted(named);
}

/// Whether an optional title is present with the characters `s`.
spec fn opt_view_is(o: Option<String>, s: Seq<char>) -> bool {
    o matches Some(t) && t@ == s
}

/// A named range: first and last track, name, full-width name.
pub type RangeView = (u16, u16, Seq<char>, Option<Seq<char>>);

proof fn lemma_without_concat(a: Seq<RangeView>, b: Seq<RangeView>, f: Option<u16>)
    ensures
        ranges_without(a + b, f) == ranges_without(a, f) + ranges_without(b, f),
    decreases b.len(),
{
    if b.len() == 0 {
        assert(a + b =~= a);
        assert(ranges_without(a, f) + Seq::<RangeView>::empty() =~= ranges_without(a, f));
    } else {
        lemma_without_concat(a, b.drop_last(), f);
        assert((a + b).drop_last() =~= a + b.drop_last());
        assert((a + b).last() == b.last());
        if f != Some(b.last().0) {
            assert(ranges_without(a, f) + ranges_without(b.drop_last(), f).push(b.last()) =~= (ranges_without(a, f)
                + ranges_without(b.drop_last(), f)).push(b.last()));
        }
    }
}

proof fn lemma_without_none(a: Seq<RangeView>, f: Option<u16>)
    requires
        forall|i: int| 0 <= i < a.len() ==> f != Some((#[trigger] a[i]).0),
    ensures
        ranges_without(a, f) == a,
    decreases a.len(),
{
    if a.len() > 0 {
        let t = a.drop_last();
        assert forall|i: int| 0 <= i < t.len() implies f != Some((#[trigger] t[i]).0) by {
            assert(t[i] == a[i]);
        }
        lemma_without_none(t, f);
        assert(f != Some(a[a.len() - 1].0));
        assert(t.push(a.last()) =~= a);
    }
}

/// Sorting ranges with one more range puts it at some place among the
/// others, which keep their sorted order.
proof fn lemma_sort_push(r0: Seq<RangeView>, x: RangeView) -> (m: int)
    ensures
        0 <= m <= r0.len(),
        sort_ranges(r0.push(x)) == sort_ranges(r0).take(m).push(x) + sort_ranges(r0).skip(m),
{
    let n = r0.len() as int;
    let rs1 = r0.push(x);
    let keys1 = Seq::new(rs1.len(), |i: int| rs1[i].0 as int);
    let keys0 = Seq::new(r0.len(), |i: int| r0[i].0 as int);
    lemma_sort_same_keys(keys1, keys0, n);
    let o = sort_positions(keys0, n);
    lemma_sort_props(keys0, n);
    assert(sort_positions(keys1, n + 1) == insert_pos(sort_positions(keys1, n), n, keys1));
    let m = lemma_insert_shape(o, n, keys1);
    let ord = o.take(m).push(n) + o.skip(m);
    let srt0 = sort_ranges(r0);
    assert forall|k: int| 0 <= k < n + 1 implies #[trigger] sort_ranges(rs1)[k] == (srt0.take(m).push(x) + srt0.skip(m))[k] by {
        if k < m {
            assert(ord[k] == o[k]);
            assert(o[k] < n);
            assert(rs1[o[k]] == r0[o[k]]);
        } else if k == m {
            assert(ord[k] == n);
        } else {
            assert(ord[k] == o[k - 1]);
            assert(o[k - 1] < n);
            assert(rs1[o[k - 1]] == r0[o[k - 1]]);
        }
    }
    assert(sort_ranges(rs1) =~= srt0.take(m).push(x) + srt0.skip(m));
    m
}

/// The positions of ranges in order of first track.
spec fn range_order(rs: Seq<RangeView>) -> Seq<int> {
    sort_positions(Seq::new(rs.len(), |i: int| rs[i].0 as int), rs.len() as int)
}

/// Sorted ranges are the ranges, each once.
proof fn lemma_sort_ranges_perm(rs: Seq<RangeView>)
    ensures
        sort_ranges(rs).len() == rs.len(),
        range_order(rs).len() == rs.len(),
        range_order(rs).no_duplicates(),
        forall|k: int| 0 <= k < rs.len() ==> 0 <= #[trigger] range_order(rs)[k] < rs.len(),
        forall|k: int| 0 <= k < rs.len() ==> #[trigger] sort_ranges(rs)[k] == rs[range_order(rs)[k]],
{
    let keys = Seq::new(rs.len(), |i: int| rs[i].0 as int);
    lemma_sort_props(keys, rs.len() as int);
}

/// The named ranges of a listing start no later than they end, at indices
/// of its tracks.
proof fn lemma_entries_held(gs: Seq<Group>)
    ensures
        ends_held(named_entries(gs), flat_tracks(gs).map_values(|t: Track| t.view())),
    decreases gs.len(),
{
    if gs.len() > 0 {
        let t = gs.drop_last();
        lemma_entries_held(t);
        let ft = flat_tracks(t).map_values(|x: Track| x.view());
        let f = flat_tracks(gs).map_values(|x: Track| x.view());
        let g = gs.last();
        assert(f =~= ft + g.tracks@.map_values(|x: Track| x.view()));
        let e0 = named_entries(t);
        assert forall|v: u16| holds_index(ft, v) implies holds_index(f, v) by {
            let i = choose|i: int| 0 <= i < ft.len() && (#[trigger] ft[i]).0 == v;
            assert(f[i] == ft[i]);
        }
        assert forall|k: int| 0 <= k < e0.len() implies (#[trigger] e0[k]).0 <= e0[k].1 && holds_index(f, e0[k].0)
            && holds_index(f, e0[k].1) by {
            assert(holds_index(ft, e0[k].0));
            assert(holds_index(ft, e0[k].1));
        }
        if g.title is Some && g.tracks@.len() > 0 {
            lemma_min_max_props(g.tracks@);
            let a = choose|j: int| 0 <= j < g.tracks@.len() && (#[trigger] g.tracks@[j]).index == min_index(g.tracks@);
            let b = choose|j: int| 0 <= j < g.tracks@.len() && (#[trigger] g.tracks@[j]).index == max_index(g.tracks@);
            assert(f[ft.len() + a] == g.tracks@[a].view());
            assert(f[ft.len() + b] == g.tracks@[b].view());
            assert(holds_index(f, min_index(g.tracks@) as u16));
            assert(holds_index(f, max_index(g.tracks@) as u16));
            assert(min_index(g.tracks@) <= g.tracks@[b].index);
            let e = named_entries(gs);
            assert forall|k: int| 0 <= k < e.len() implies (#[trigger] e[k]).0 <= e[k].1 && holds_index(f, e[k].0)
                && holds_index(f, e[k].1) by {
                if k < e0.len() {
                    assert(e[k] == e0[k]);
                }
            }
        }
    }
}

/// Adding a group and then removing it leaves the listing grouped as
/// rebuilding it from its own named ranges does. Let `g1` be the groups
/// that `add_group` makes from the groups `gs0` and the new range `new`
/// (`first..=last`, its name, its full-width name). Then the new group is
/// found under its own number, with `first` as its first track, and the
/// groups that `remove_group` makes from `g1` when it dissolves that group
/// are those that rebuilding the named ranges of `gs0` gives. This holds
/// when no two tracks of `gs0` share an index, no two of its named groups
/// span a common index, and the new range starts no later than it ends,
/// begins and ends at indices of tracks of `gs0` and meets no named group
/// (else `add_group` refuses it).
pub proof fn lemma_add_then_remove_group(gs0: Seq<Group>, g1: Seq<Group>, new: RangeView)
    requires
        distinct_indices(flat_tracks(gs0).map_values(|t: Track| t.view())),
        disjoint_ranges(named_ranges_spec(gs0)),
        new.0 <= new.1,
        holds_index(flat_tracks(gs0).map_values(|t: Track| t.view()), new.0),
        holds_index(flat_tracks(gs0).map_values(|t: Track| t.view()), new.1),
        forall|k: int|
            0 <= k < named_ranges_spec(gs0).len() ==> !overlaps(new.0, new.1, #[trigger] named_ranges_spec(gs0)[k]),
        g1.map_values(|g: Group| group_view(g)) == rebuild_spec(named_ranges_spec(gs0).push(new), gs0),
        g1.len() <= usize::MAX,
    ensures
        exists|k: int|
            0 <= k < g1.len() && find_named(g1, g1[k].index) == Some(k) && #[trigger] first_track(g1[k]) == Some(
                new.0,
            ),
        rebuild_spec(ranges_without(named_ranges_spec(g1), Some(new.0)), g1) == rebuild_spec(
            named_ranges_spec(gs0),
            gs0,
        ),
{
    let f0 = flat_tracks(gs0).map_values(|t: Track| t.view());
    let fl = sorted_tracks(gs0);
    let entries = named_entries(gs0);
    let r0 = named_ranges_spec(gs0);
    lemma_sorted_facts(f0);
    assert forall|v: u16| holds_index(f0, v) implies holds_index(fl, v) by {
        let i = choose|i: int| 0 <= i < f0.len() && (#[trigger] f0[i]).0 == v;
        assert(f0.contains(f0[i]));
        assert(fl.contains(f0[i]));
        let j = choose|j: int| 0 <= j < fl.len() && fl[j] == f0[i];
        assert(fl[j].0 == v);
    }
    lemma_entries_held(gs0);
    lemma_sort_ranges_perm(entries);
    assert(ends_held(r0, fl)) by {
        assert forall|k: int| 0 <= k < r0.len() implies (#[trigger] r0[k]).0 <= r0[k].1 && holds_index(fl, r0[k].0)
            && holds_index(fl, r0[k].1) by {
            let p = range_order(entries)[k];
            assert(r0[k] == entries[p]);
            assert(holds_index(f0, entries[p].0));
            assert(holds_index(f0, entries[p].1));
        }
    }
    lemma_sort_ranges_ascend(entries);
    lemma_sort_ranges_sorted(r0);
    let m = lemma_sort_push(r0, new);
    let s = sort_ranges(r0.push(new));
    assert(s == r0.take(m).push(new) + r0.skip(m));
    assert forall|k: int| 0 <= k < s.len() implies (#[trigger] s[k]) == (if k < m {
        r0[k]
    } else if k == m {
        new
    } else {
        r0[k - 1]
    }) by {
        if k < m {
            assert(s[k] == r0.take(m)[k]);
        } else if k > m {
            assert(s[k] == r0.skip(m)[k - m - 1]);
        }
    }
    assert(disjoint_ranges(s)) by {
        assert forall|i: int, j: int| 0 <= i < j < s.len() implies !overlaps(s[i].0, s[i].1, #[trigger] s[j])
            && #[trigger] s[i] == s[i] by {
            if j < m {
                assert(!overlaps(r0[i].0, r0[i].1, r0[j]));
            } else if j == m {
                assert(!overlaps(new.0, new.1, r0[i]));
            } else if i < m {
                assert(!overlaps(r0[i].0, r0[i].1, r0[j - 1]));
            } else if i == m {
                assert(!overlaps(new.0, new.1, r0[j - 1]));
            } else {
                assert(!overlaps(r0[i - 1].0, r0[i - 1].1, r0[j - 1]));
            }
        }
    }
    assert(ends_held(s, fl)) by {
        assert forall|k: int| 0 <= k < s.len() implies (#[trigger] s[k]).0 <= s[k].1 && holds_index(fl, s[k].0)
            && holds_index(fl, s[k].1) by {
            if k < m {
                assert(s[k] == r0[k]);
            } else if k > m {
                assert(s[k] == r0[k - 1]);
            }
        }
    }
    lemma_rebuilt_entries(r0.push(new), gs0, g1);
    assert(named_ranges_spec(g1) == s);
    lemma_without_concat(r0.take(m).push(new), r0.skip(m), Some(new.0));
    lemma_without_concat(r0.take(m), seq![new], Some(new.0));
    assert(r0.take(m).push(new) =~= r0.take(m) + seq![new]);
    assert(seq![new].drop_last() =~= Seq::<RangeView>::empty());
    assert(seq![new].last() == new);
    assert(ranges_without(Seq::<RangeView>::empty(), Some(new.0)) == Seq::<RangeView>::empty());
    assert(ranges_without(seq![new], Some(new.0)) == ranges_without(seq![new].drop_last(), Some(new.0)));
    assert(ranges_without(seq![new], Some(new.0)) =~= Seq::<RangeView>::empty());
    assert forall|i: int| 0 <= i < r0.len() implies Some(new.0) != Some((#[trigger] r0[i]).0) by {
        assert(!overlaps(new.0, new.1, r0[i]));
    }
    lemma_without_none(r0.take(m), Some(new.0));
    lemma_without_none(r0.skip(m), Some(new.0));
    assert(r0.take(m) + Seq::<RangeView>::empty() + r0.skip(m) =~= r0);
    assert(ranges_without(s, Some(new.0)) == r0);
    lemma_flat_views(g1);
    assert forall|v: u16| index_count(flat_tracks(g1).map_values(|t: Track| t.view()), v) == #[trigger] index_count(
        sorted_tracks(gs0),
        v,
    ) by {
        lemma_rebuilt_tracks(r0.push(new), gs0, v);
    }
    lemma_rebuilt_tracks(r0.push(new), gs0, 0);
    lemma_sorted_tracks_same(g1, gs0);
    assert(rebuild_spec(r0, g1) == rebuild_spec(r0, gs0));
    assert(s[m] == new);
    lemma_rebuilt_group_found(r0.push(new), gs0, g1, m);
}

/// The named group that a rebuilt listing makes from the `m`-th sorted
/// range is found under its own number, and its first track is where the
/// range starts.
proof fn lemma_rebuilt_group_found(rs: Seq<RangeView>, gs0: Seq<Group>, g1: Seq<Group>, m: int)
    requires
        g1.map_values(|g: Group| group_view(g)) == rebuild_spec(rs, gs0),
        ends_held(sort_ranges(rs), sorted_tracks(gs0)),
        0 <= m < sort_ranges(rs).len(),
        g1.len() <= usize::MAX,
    ensures
        exists|k: int|
            0 <= k < g1.len() && find_named(g1, g1[k].index) == Some(k) && #[trigger] first_track(g1[k]) == Some(
                sort_ranges(rs)[m].0,
            ),
{
    let named = sort_ranges(rs);
    let fl = sorted_tracks(gs0);
    let head = rebuilt_head(rs, gs0);
    let h = head.len() as int;
    let body = rebuilt_body(named, fl, h, named.len() as int);
    lemma_rebuilt_split(rs, gs0);
    let vs = g1.map_values(|g: Group| group_view(g));
    assert(vs == head + body);
    assert(g1.len() == vs.len());
    assert forall|i: int| 0 <= i < g1.len() implies (#[trigger] g1[i]).index == i by {
        assert(group_view(g1[i]) == vs[i]);
        if i < h {
            assert(vs[i] == head[i]);
        } else {
            assert(vs[i] == body[i - h]);
        }
    }
    let k = h + m;
    assert(group_view(g1[k]) == vs[k]);
    assert(vs[k] == body[m]);
    assert(g1[k].title is Some);
    let r = named[m];
    assert(g1[k].tracks@.map_values(|t: Track| t.view()) == tracks_in(fl, r.0, r.1));
    lemma_group_ends(g1[k].tracks@, fl, r.0, r.1);
    lemma_find_own_number(g1, k, 0);
    assert(first_track(g1[k]) == Some(r.0));
}

/// In groups numbered by their position, the named group at `k` is found
/// under its own number.
proof fn lemma_find_own_number(gs: Seq<Group>, k: int, j: int)
    requires
        0 <= j <= k < gs.len(),
        forall|i: int| 0 <= i < gs.len() ==> (#[trigger] gs[i]).index == i,
        gs[k].title is Some,
    ensures
        find_named_from(gs, gs[k].index, j) == Some(k),
    decreases k - j,
{
    assert(gs[j].index == j);
    if j < k {
        lemma_find_own_number(gs, k, j + 1);
    }
}

} // verus!
