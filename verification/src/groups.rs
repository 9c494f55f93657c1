//! Track groups: the group structure that NetMD keeps inside the disc
//! titles, and the TOC cell budget of titles.
//!
//! The half-width disc title holds `0;<disc title>//` followed by one
//! `<first>-<last>;<name>//` entry per group (1-based track numbers, a
//! single number for a one-track group); the full-width title holds the same
//! in full-width characters.

use vstd::prelude::*;
use crate::chars::{
    append_chars, dec_chars, dec_spec, lemma_dec_len, lemma_dec_len_u64, pow10,
    contains_chars, contains_seq, find_from, find_seq, parse_u16_chars, parse_u16_spec,
    split_chars, split_seq, starts_with_chars, starts_with_seq, sub_chars,
};
use crate::error::NetMDError;
use crate::text::{chars_to_string, str_to_chars};
use crate::title::{
    full_width_range_chars, full_width_range_spec, half_width_length, half_width_length_spec,
    lemma_utf16_len_bound, utf16_len, utf16_len_spec,
};
use crate::order::{int_keys, sort_positions, stable_order};
use crate::types::{opt_view, ChannelCount, Disc, Encoding, Group, Track, TrackFlag};

verus! {

/// One group as read from the disc titles; `name: None` is the bucket of
/// tracks that no group covers.
#[derive(Debug, Clone, PartialEq, Eq)]
pub struct RawTrackGroup {
    pub name: Option<String>,
    pub full_width_name: Option<String>,
    pub tracks: Vec<u16>,
}

/// The characters of an optional string.
pub open spec fn opt_seq(o: Option<String>) -> Option<Seq<char>> {
    match o {
        Some(s) => Some(s@),
        None => None,
    }
}

impl RawTrackGroup {
    /// The group as plain values: name, full-width name, 0-based tracks.
    pub open spec fn view(&self) -> (Option<Seq<char>>, Option<Seq<char>>, Seq<u16>) {
        (opt_seq(self.name), opt_seq(self.full_width_name), self.tracks@)
    }
}

/// The `//` separator of the half-width title.
pub open spec fn sep_half() -> Seq<char> {
    seq!['/', '/']
}

/// The `／／` separator of the full-width title.
pub open spec fn sep_full() -> Seq<char> {
    seq!['／', '／']
}

/// Whether a piece of the half-width title is a group entry: non-empty, not
/// the `0;` disc-title entry, with a non-empty range before a `;`, in a
/// title that holds a `//` at all.
pub open spec fn is_group_piece(p: Seq<char>, has_groups: bool) -> bool {
    &&& p.len() > 0
    &&& !starts_with_seq(p, seq!['0', ';'])
    &&& contains_seq(p, seq![';'])
    &&& has_groups
    &&& find_seq(p, seq![';'])->0 > 0
}

/// The range part of a group entry (before the first `;`).
pub open spec fn piece_range(p: Seq<char>) -> Seq<char> {
    p.take(find_seq(p, seq![';'])->0)
}

/// The name part of a group entry (after the first `;`).
pub open spec fn piece_name(p: Seq<char>) -> Seq<char> {
    p.skip(find_seq(p, seq![';'])->0 + 1)
}

/// `n` without its first `k` characters (empty when it is shorter).
pub open spec fn skip_chars(n: Seq<char>, k: int) -> Seq<char> {
    if k >= n.len() {
        Seq::empty()
    } else {
        n.skip(k)
    }
}

/// The full-width name of a group: the rest of the first full-width entry
/// that starts with the group's full-width range, past the range and `；`.
pub open spec fn full_width_name_spec(fw: Seq<Seq<char>>, fwr: Seq<char>) -> Option<Seq<char>>
    decreases fw.len(),
{
    if fw.len() == 0 {
        None
    } else if starts_with_seq(fw[0], fwr) {
        Some(skip_chars(fw[0], fwr.len() + 1int))
    } else {
        full_width_name_spec(fw.drop_first(), fwr)
    }
}

/// The two ends of a range: around the first `-`, or the range twice.
pub open spec fn range_ends(range: Seq<char>) -> (Seq<char>, Seq<char>) {
    match find_seq(range, seq!['-']) {
        Some(i) => (range.take(i), range.skip(i + 1)),
        None => (range, range),
    }
}

/// The 0-based tracks `lo - 1 .. hi`.
pub open spec fn track_span(lo: u16, hi: u16) -> Seq<u16> {
    Seq::new((hi - lo + 1) as nat, |k: int| (lo - 1 + k) as u16)
}

/// `assigned` with the tracks `lo - 1 .. hi` marked.
pub open spec fn mark_span(assigned: Seq<bool>, lo: u16, hi: u16) -> Seq<bool> {
    Seq::new(assigned.len(), |t: int| assigned[t] || (lo - 1 <= t < hi))
}

/// What one piece of the half-width title contributes, given the tracks
/// already covered: `Some(None)` when it is no group entry, the group and
/// the covered tracks after it when it is one, `None` when the entry is
/// malformed or covers a track twice.
pub open spec fn piece_effect(p: Seq<char>, has_groups: bool, fw: Seq<Seq<char>>, count: u16, assigned: Seq<bool>) -> Option<
    Option<((Option<Seq<char>>, Option<Seq<char>>, Seq<u16>), Seq<bool>)>,
> {
    if !is_group_piece(p, has_groups) {
        Some(None)
    } else {
        let range = piece_range(p);
        match (parse_u16_spec(range_ends(range).0), parse_u16_spec(range_ends(range).1)) {
            (Some(lo), Some(hi0)) => {
                let hi = if hi0 < count {
                    hi0
                } else {
                    count
                };
                if lo < 1 || lo > hi {
                    None
                } else if exists|t: int| lo - 1 <= t < hi && #[trigger] assigned[t] {
                    None
                } else {
                    Some(
                        Some(
                            (
                                (
                                    Some(piece_name(p)),
                                    full_width_name_spec(fw, full_width_range_spec(range)),
                                    track_span(lo, hi),
                                ),
                                mark_span(assigned, lo, hi),
                            ),
                        ),
                    )
                }
            },
            _ => None,
        }
    }
}

/// Reading one piece into the groups read so far and the tracks they cover.
pub open spec fn group_step(
    st: Option<(Seq<(Option<Seq<char>>, Option<Seq<char>>, Seq<u16>)>, Seq<bool>)>,
    p: Seq<char>,
    has_groups: bool,
    fw: Seq<Seq<char>>,
    count: u16,
) -> Option<(Seq<(Option<Seq<char>>, Option<Seq<char>>, Seq<u16>)>, Seq<bool>)> {
    match st {
        None => None,
        Some((groups, assigned)) => match piece_effect(p, has_groups, fw, count, assigned) {
            None => None,
            Some(None) => st,
            Some(Some((g, a))) => Some((groups.push(g), a)),
        },
    }
}

/// The groups read from the first pieces of the half-width title.
pub open spec fn group_fold(pieces: Seq<Seq<char>>, has_groups: bool, fw: Seq<Seq<char>>, count: u16) -> Option<
    (Seq<(Option<Seq<char>>, Option<Seq<char>>, Seq<u16>)>, Seq<bool>),
>
    decreases pieces.len(),
{
    if pieces.len() == 0 {
        Some((Seq::empty(), Seq::new(count as nat, |t: int| false)))
    } else {
        group_step(group_fold(pieces.drop_last(), has_groups, fw, count), pieces.last(), has_groups, fw, count)
    }
}

/// The tracks below `n` that no group covers, in order.
pub open spec fn unassigned(assigned: Seq<bool>, n: int) -> Seq<u16>
    decreases n,
{
    if n <= 0 {
        Seq::empty()
    } else if !assigned[n - 1] {
        unassigned(assigned, n - 1).push((n - 1) as u16)
    } else {
        unassigned(assigned, n - 1)
    }
}

/// The group list of a disc: its group entries in title order, preceded by
/// the bucket of uncovered tracks when there is one; `None` when an entry
/// is malformed or two entries cover the same track.
pub open spec fn parse_groups_spec(raw: Seq<char>, raw_full: Seq<char>, count: u16) -> Option<
    Seq<(Option<Seq<char>>, Option<Seq<char>>, Seq<u16>)>,
> {
    let has_groups = contains_seq(raw, sep_half());
    let fw = split_seq(raw_full, sep_full());
    match group_fold(split_seq(raw, sep_half()), has_groups, fw, count) {
        None => None,
        Some((groups, assigned)) => {
            let rest = unassigned(assigned, count as int);
            if rest.len() > 0 {
                Some(seq![(None::<Seq<char>>, None::<Seq<char>>, rest)] + groups)
            } else {
                Some(groups)
            }
        },
    }
}

fn find_full_width_name(fw: &Vec<Vec<char>>, fwr: &[char]) -> (r: Option<Vec<char>>)
    ensures
        match full_width_name_spec(fw@.map_values(|v: Vec<char>| v@), fwr@) {
            Some(s) => r matches Some(v) && v@ == s,
            None => r is None,
        },
{
    let ghost all = fw@.map_values(|v: Vec<char>| v@);
    assert(all.skip(0) =~= all);
    let mut i: usize = 0;
    while i < fw.len()
        invariant
            i <= fw@.len(),
            all == fw@.map_values(|v: Vec<char>| v@),
            full_width_name_spec(all, fwr@) == full_width_name_spec(all.skip(i as int), fwr@),
        decreases fw@.len() - i,
    {
        assert(all.skip(i as int)[0] == fw@[i as int]@);
        assert(all.skip(i as int).drop_first() =~= all.skip(i + 1));
        let n = &fw[i];
        if starts_with_chars(n.as_slice(), fwr) {
            let k = fwr.len();
            if k >= n.len() {
                return Some(Vec::new());
            }
            return Some(sub_chars(n.as_slice(), k + 1, n.len()));
        }
        i = i + 1;
    }
    None
}

/// Marks the tracks `lo - 1 .. hi` as covered, unless one already is.
fn claim_span(assigned: &mut Vec<bool>, lo: u16, hi: u16) -> (r: Option<Vec<u16>>)
    requires
        1 <= lo <= hi,
        hi <= old(assigned)@.len(),
    ensures
        final(assigned)@.len() == old(assigned)@.len(),
        (exists|t: int| lo - 1 <= t < hi && #[trigger] old(assigned)@[t]) ==> r is None,
        !(exists|t: int| lo - 1 <= t < hi && #[trigger] old(assigned)@[t]) ==> (r matches Some(v)
            && v@ == track_span(lo, hi) && final(assigned)@ == mark_span(old(assigned)@, lo, hi)),
{
    let mut list: Vec<u16> = Vec::new();
    let mut t: u16 = lo - 1;
    assert(assigned@ =~= mark_span(old(assigned)@, lo, t));
    while t < hi
        invariant
            1 <= lo <= hi,
            hi <= old(assigned)@.len(),
            lo - 1 <= t <= hi,
            assigned@ == mark_span(old(assigned)@, lo, t),
            assigned@.len() == old(assigned)@.len(),
            forall|u: int| lo - 1 <= u < t ==> !(#[trigger] old(assigned)@[u]),
            list@ == Seq::new((t - (lo - 1)) as nat, |k: int| (lo - 1 + k) as u16),
        decreases hi - t,
    {
        if assigned[t as usize] {
            assert(old(assigned)@[t as int]);
            return None;
        }
        assigned.set(t as usize, true);
        list.push(t);
        t = t + 1;
        assert(assigned@ =~= mark_span(old(assigned)@, lo, t));
        assert(list@ =~= Seq::new((t - (lo - 1)) as nat, |k: int| (lo - 1 + k) as u16));
    }
    assert(list@ =~= track_span(lo, hi));
    assert(assigned@ =~= mark_span(old(assigned)@, lo, hi));
    Some(list)
}

/// Reads one piece of the half-width title (see [`piece_effect`]).
fn read_group_piece(
    p: &[char],
    has_groups: bool,
    fw_groups: &Vec<Vec<char>>,
    count: u16,
    assigned: &mut Vec<bool>,
) -> (r: Result<Option<RawTrackGroup>, NetMDError>)
    requires
        old(assigned)@.len() == count,
    ensures
        final(assigned)@.len() == count,
        match piece_effect(p@, has_groups, fw_groups@.map_values(|v: Vec<char>| v@), count, old(assigned)@) {
            None => r matches Err(e) && e == NetMDError::UnexpectedResponse,
            Some(None) => r matches Ok(None) && final(assigned)@ == old(assigned)@,
            Some(Some((g, a))) => r matches Ok(Some(v)) && v.view() == g && final(assigned)@ == a,
        },
{
    let semi = vec![';'];
    let dash = vec!['-'];
    let zero_semi = vec!['0', ';'];
    assert(semi@ =~= seq![';']);
    assert(dash@ =~= seq!['-']);
    assert(zero_semi@ =~= seq!['0', ';']);
    let relevant = p.len() > 0 && !starts_with_chars(p, zero_semi.as_slice()) && contains_chars(
        p,
        semi.as_slice(),
    ) && has_groups;
    if !relevant {
        return Ok(None);
    }
    assert(p@.skip(0) =~= p@);
    let semi_pos = match find_from(p, 0, semi.as_slice()) {
        Some(s) => s,
        None => {
            return Ok(None);
        },
    };
    if semi_pos == 0 {
        return Ok(None);
    }
    let range = sub_chars(p, 0, semi_pos);
    let name = sub_chars(p, semi_pos + 1, p.len());
    assert(range@ =~= piece_range(p@));
    assert(name@ =~= piece_name(p@));
    let fwr = full_width_range_chars(range.as_slice());
    let fw_name = find_full_width_name(fw_groups, fwr.as_slice());
    assert(range@.skip(0) =~= range@);
    let (lo_s, hi_s) = match find_from(range.as_slice(), 0, dash.as_slice()) {
        Some(d) => (sub_chars(range.as_slice(), 0, d), sub_chars(range.as_slice(), d + 1, range.len())),
        None => (sub_chars(range.as_slice(), 0, range.len()), sub_chars(range.as_slice(), 0, range.len())),
    };
    assert(lo_s@ =~= range_ends(range@).0);
    assert(hi_s@ =~= range_ends(range@).1);
    let lo = match parse_u16_chars(lo_s.as_slice()) {
        Some(v) => v,
        None => {
            return Err(NetMDError::UnexpectedResponse);
        },
    };
    let hi0 = match parse_u16_chars(hi_s.as_slice()) {
        Some(v) => v,
        None => {
            return Err(NetMDError::UnexpectedResponse);
        },
    };
    let hi = if hi0 < count {
        hi0
    } else {
        count
    };
    if lo < 1 || lo > hi {
        return Err(NetMDError::UnexpectedResponse);
    }
    let list = match claim_span(assigned, lo, hi) {
        Some(l) => l,
        None => {
            return Err(NetMDError::UnexpectedResponse);
        },
    };
    let full_width_name = match fw_name {
        Some(n) => Some(chars_to_string(n.as_slice())),
        None => None,
    };
    Ok(Some(RawTrackGroup { name: Some(chars_to_string(name.as_slice())), full_width_name, tracks: list }))
}

/// Reads the group structure of a disc from its two raw titles.
pub fn parse_track_group_list(raw_title: &str, raw_full_title: &str, track_count: u16) -> (r: Result<
    Vec<RawTrackGroup>,
    NetMDError,
>)
    ensures
        match parse_groups_spec(raw_title@, raw_full_title@, track_count) {
            Some(gs) => r matches Ok(v) && v@.len() == gs.len() && forall|k: int|
                0 <= k < gs.len() ==> (#[trigger] v@[k]).view() == gs[k],
            None => r matches Err(e) && e == NetMDError::UnexpectedResponse,
        },
{
    let raw = str_to_chars(raw_title);
    let raw_full = str_to_chars(raw_full_title);
    let sep = vec!['/', '/'];
    let fw_sep = vec!['／', '／'];
    let semi = vec![';'];
    let dash = vec!['-'];
    let zero_semi = vec!['0', ';'];
    assert(sep@ =~= sep_half());
    assert(fw_sep@ =~= sep_full());
    assert(semi@ =~= seq![';']);
    assert(dash@ =~= seq!['-']);
    assert(zero_semi@ =~= seq!['0', ';']);
    let has_groups = contains_chars(raw.as_slice(), sep.as_slice());
    let fw_groups = split_chars(raw_full.as_slice(), fw_sep.as_slice());
    let pieces = split_chars(raw.as_slice(), sep.as_slice());
    let ghost fw = split_seq(raw_full@, sep_full());
    let ghost ps = split_seq(raw@, sep_half());
    assert(fw_groups@.map_values(|v: Vec<char>| v@) =~= fw);
    let mut result: Vec<RawTrackGroup> = Vec::new();
    let mut assigned: Vec<bool> = Vec::new();
    let mut z: u16 = 0;
    while z < track_count
        invariant
            z <= track_count,
            assigned@ == Seq::new(z as nat, |t: int| false),
        decreases track_count - z,
    {
        assigned.push(false);
        z = z + 1;
        assert(assigned@ =~= Seq::new(z as nat, |t: int| false));
    }
    let mut i: usize = 0;
    while i < pieces.len()
        invariant
            i <= pieces@.len(),
            ps == split_seq(raw_title@, sep_half()),
            fw == split_seq(raw_full_title@, sep_full()),
            has_groups == contains_seq(raw_title@, sep_half()),
            pieces@.len() == ps.len(),
            forall|k: int| 0 <= k < ps.len() ==> (#[trigger] pieces@[k])@ == ps[k],
            fw_groups@.map_values(|v: Vec<char>| v@) == fw,
            has_groups == contains_seq(raw@, sep_half()),
            sep@ == sep_half(),
            semi@ == seq![';'],
            dash@ == seq!['-'],
            zero_semi@ == seq!['0', ';'],
            assigned@.len() == track_count,
            group_fold(ps.take(i as int), has_groups, fw, track_count) matches Some(st) && st.1
                == assigned@ && st.0.len() == result@.len() && forall|k: int|
                0 <= k < result@.len() ==> (#[trigger] result@[k]).view() == st.0[k],
        decreases pieces@.len() - i,
    {
        assert(ps.take(i + 1).drop_last() =~= ps.take(i as int));
        let p = pieces[i].as_slice();
        match read_group_piece(p, has_groups, &fw_groups, track_count, &mut assigned) {
            Err(e) => {
                proof {
                    assert(ps.take(i + 1).last() == p@);
                    assert(group_fold(ps.take(i + 1), has_groups, fw, track_count) is None);
                    lemma_group_fold_none(ps, has_groups, fw, track_count, i as int + 1);
                    assert(ps.take(ps.len() as int) =~= ps);
                }
                return Err(e);
            },
            Ok(None) => {},
            Ok(Some(g)) => {
                result.push(g);
            },
        }
        i = i + 1;
    }
    assert(ps.take(ps.len() as int) =~= ps);
    let mut rest: Vec<u16> = Vec::new();
    let mut t: u16 = 0;
    while t < track_count
        invariant
            t <= track_count,
            assigned@.len() == track_count,
            rest@ == unassigned(assigned@, t as int),
        decreases track_count - t,
    {
        if !assigned[t as usize] {
            rest.push(t);
        }
        t = t + 1;
    }
    if rest.len() > 0 {
        let bucket = RawTrackGroup { name: None, full_width_name: None, tracks: rest };
        let mut out: Vec<RawTrackGroup> = Vec::new();
        out.push(bucket);
        let mut k: usize = 0;
        while k < result.len()
            invariant
                k <= result@.len(),
                out@.len() == k + 1,
                out@[0].view() == (None::<Seq<char>>, None::<Seq<char>>, unassigned(assigned@, track_count as int)),
                forall|j: int| 1 <= j < k + 1 ==> (#[trigger] out@[j]).view() == result@[j - 1].view(),
            decreases result@.len() - k,
        {
            out.push(result[k].clone_group());
            k = k + 1;
        }
        Ok(out)
    } else {
        Ok(result)
    }
}

/// Once a piece fails, the whole reading fails.
proof fn lemma_group_fold_none(ps: Seq<Seq<char>>, has_groups: bool, fw: Seq<Seq<char>>, count: u16, i: int)
    requires
        0 <= i <= ps.len(),
        group_fold(ps.take(i), has_groups, fw, count) is None,
    ensures
        group_fold(ps, has_groups, fw, count) is None,
    decreases ps.len() - i,
{
    if i < ps.len() {
        assert(ps.take(i + 1).drop_last() =~= ps.take(i));
        lemma_group_fold_none(ps, has_groups, fw, count, i + 1);
    } else {
        assert(ps.take(i) =~= ps);
    }
}

/// The tracks of a group list, group after group.
pub open spec fn listed_tracks(gs: Seq<(Option<Seq<char>>, Option<Seq<char>>, Seq<u16>)>) -> Seq<u16>
    decreases gs.len(),
{
    if gs.len() == 0 {
        Seq::empty()
    } else {
        listed_tracks(gs.drop_last()) + gs.last().2
    }
}

/// What reading the group entries keeps: no track is listed twice, every
/// listed track lies below `count` and is marked, and every marked track
/// is listed.
spec fn fold_inv(
    gs: Seq<(Option<Seq<char>>, Option<Seq<char>>, Seq<u16>)>,
    assigned: Seq<bool>,
    count: u16,
) -> bool {
    let l = listed_tracks(gs);
    &&& assigned.len() == count
    &&& l.no_duplicates()
    &&& forall|k: int| 0 <= k < l.len() ==> (#[trigger] l[k]) < count && assigned[l[k] as int]
    &&& forall|t: int| 0 <= t < count && #[trigger] assigned[t] ==> l.contains(t as u16)
}

proof fn lemma_fold_step_inv(
    gs: Seq<(Option<Seq<char>>, Option<Seq<char>>, Seq<u16>)>,
    assigned: Seq<bool>,
    p: Seq<char>,
    has_groups: bool,
    fw: Seq<Seq<char>>,
    count: u16,
)
    requires
        fold_inv(gs, assigned, count),
        group_step(Some((gs, assigned)), p, has_groups, fw, count) is Some,
    ensures
        fold_inv(
            group_step(Some((gs, assigned)), p, has_groups, fw, count).unwrap().0,
            group_step(Some((gs, assigned)), p, has_groups, fw, count).unwrap().1,
            count,
        ),
{
    match piece_effect(p, has_groups, fw, count, assigned) {
        Some(Some((g, a))) => {
            let range = piece_range(p);
            let lo = parse_u16_spec(range_ends(range).0)->0;
            let hi0 = parse_u16_spec(range_ends(range).1)->0;
            let hi = if hi0 < count {
                hi0
            } else {
                count
            };
            let span = track_span(lo, hi);
            assert(g.2 == span);
            assert(a == mark_span(assigned, lo, hi));
            let l = listed_tracks(gs);
            let gs2 = gs.push(g);
            assert(gs2.drop_last() =~= gs);
            let l2 = listed_tracks(gs2);
            assert(l2 == l + span);
            assert forall|k: int| 0 <= k < l2.len() implies (#[trigger] l2[k]) < count && a[l2[k] as int] by {
                if k < l.len() {
                    assert(l2[k] == l[k]);
                } else {
                    assert(l2[k] == span[k - l.len()]);
                }
            }
            assert forall|t: int| 0 <= t < count && #[trigger] a[t] implies l2.contains(t as u16) by {
                if assigned[t] {
                    let k = choose|k: int| 0 <= k < l.len() && l[k] == t as u16;
                    assert(l2[k] == l[k]);
                } else {
                    assert(lo - 1 <= t < hi);
                    let k = t - (lo - 1);
                    assert(span[k] == t as u16);
                    assert(l2[l.len() + k] == span[k]);
                }
            }
            assert forall|i: int, j: int| 0 <= i < l2.len() && 0 <= j < l2.len() && i != j implies l2[i]
                != l2[j] by {
                if i < l.len() && j < l.len() {
                    assert(l2[i] == l[i] && l2[j] == l[j]);
                } else if i >= l.len() && j >= l.len() {
                    assert(l2[i] == span[i - l.len()] && l2[j] == span[j - l.len()]);
                } else if i < l.len() {
                    assert(l2[i] == l[i]);
                    assert(assigned[l[i] as int]);
                    assert(l2[j] == span[j - l.len()]);
                    assert(!assigned[(lo - 1 + (j - l.len())) as int]);
                } else {
                    assert(l2[j] == l[j]);
                    assert(assigned[l[j] as int]);
                    assert(l2[i] == span[i - l.len()]);
                    assert(!assigned[(lo - 1 + (i - l.len())) as int]);
                }
            }
        },
        _ => {},
    }
}

proof fn lemma_fold_inv(pieces: Seq<Seq<char>>, has_groups: bool, fw: Seq<Seq<char>>, count: u16)
    requires
        group_fold(pieces, has_groups, fw, count) is Some,
    ensures
        fold_inv(group_fold(pieces, has_groups, fw, count).unwrap().0, group_fold(pieces, has_groups, fw, count).unwrap().1, count),
    decreases pieces.len(),
{
    if pieces.len() == 0 {
        assert(listed_tracks(Seq::<(Option<Seq<char>>, Option<Seq<char>>, Seq<u16>)>::empty()) =~= Seq::<u16>::empty());
    } else {
        let prev = group_fold(pieces.drop_last(), has_groups, fw, count);
        assert(prev is Some);
        lemma_fold_inv(pieces.drop_last(), has_groups, fw, count);
        lemma_fold_step_inv(prev.unwrap().0, prev.unwrap().1, pieces.last(), has_groups, fw, count);
    }
}

proof fn lemma_unassigned(assigned: Seq<bool>, n: int)
    requires
        0 <= n <= assigned.len(),
        n <= 0x10000,
    ensures
        forall|k: int| 0 <= k < unassigned(assigned, n).len() ==> (#[trigger] unassigned(assigned, n)[k]) < n
            && !assigned[unassigned(assigned, n)[k] as int],
        forall|i: int, j: int|
            0 <= i < j < unassigned(assigned, n).len() ==> unassigned(assigned, n)[i] < unassigned(assigned, n)[j],
        forall|t: u16| t < n && !assigned[t as int] ==> #[trigger] unassigned(assigned, n).contains(t),
    decreases n,
{
    if n > 0 {
        lemma_unassigned(assigned, n - 1);
        let u = unassigned(assigned, n - 1);
        if !assigned[n - 1] {
            let u2 = u.push((n - 1) as u16);
            assert(unassigned(assigned, n) == u2);
            assert forall|k: int| 0 <= k < u2.len() implies (#[trigger] u2[k]) < n && !assigned[u2[k] as int] by {
                if k < u.len() {
                    assert(u2[k] == u[k]);
                }
            }
            assert forall|i: int, j: int| 0 <= i < j < u2.len() implies u2[i] < u2[j] by {
                assert(u2[i] == u[i]);
                if j < u.len() {
                    assert(u2[j] == u[j]);
                }
            }
            assert forall|t: u16| t < n && !assigned[t as int] implies #[trigger] u2.contains(t) by {
                if t < n - 1 {
                    assert(u.contains(t));
                    let k = choose|k: int| 0 <= k < u.len() && u[k] == t;
                    assert(u2[k] == u[k]);
                } else {
                    assert(u2[u.len() as int] == (n - 1) as u16);
                }
            }
        } else {
            assert(unassigned(assigned, n) == u);
            assert forall|t: u16| t < n && !assigned[t as int] implies #[trigger] u.contains(t) by {
                assert(t < n - 1);
            }
        }
    }
}

proof fn lemma_listed_prepend(
    b: (Option<Seq<char>>, Option<Seq<char>>, Seq<u16>),
    gs: Seq<(Option<Seq<char>>, Option<Seq<char>>, Seq<u16>)>,
)
    ensures
        listed_tracks(seq![b] + gs) == b.2 + listed_tracks(gs),
    decreases gs.len(),
{
    let s = seq![b] + gs;
    if gs.len() == 0 {
        assert(s =~= seq![b]);
        assert(s.drop_last() =~= Seq::<(Option<Seq<char>>, Option<Seq<char>>, Seq<u16>)>::empty());
        assert(s.last() == b);
        assert(listed_tracks(s.drop_last()) == Seq::<u16>::empty());
        assert(listed_tracks(gs) == Seq::<u16>::empty());
        assert(Seq::<u16>::empty() + b.2 =~= b.2);
        assert(b.2 + Seq::<u16>::empty() =~= b.2);
    } else {
        lemma_listed_prepend(b, gs.drop_last());
        assert(s.drop_last() =~= seq![b] + gs.drop_last());
        assert(s.last() == gs.last());
        assert(b.2 + listed_tracks(gs.drop_last()) + gs.last().2 =~= b.2 + (listed_tracks(gs.drop_last())
            + gs.last().2));
    }
}

/// Every group list read from a disc's titles lists each of its tracks
/// exactly once: no track twice, every listed track below the track count,
/// and every track below the count listed.
pub proof fn lemma_parsed_groups_partition(raw: Seq<char>, raw_full: Seq<char>, count: u16)
    requires
        parse_groups_spec(raw, raw_full, count) is Some,
    ensures
        ({
            let l = listed_tracks(parse_groups_spec(raw, raw_full, count)->0);
            &&& l.no_duplicates()
            &&& forall|k: int| 0 <= k < l.len() ==> #[trigger] l[k] < count
            &&& forall|t: u16| t < count ==> #[trigger] l.contains(t)
        }),
{
    let has_groups = contains_seq(raw, sep_half());
    let fw = split_seq(raw_full, sep_full());
    let pieces = split_seq(raw, sep_half());
    let st = group_fold(pieces, has_groups, fw, count);
    lemma_fold_inv(pieces, has_groups, fw, count);
    let gs = st.unwrap().0;
    let assigned = st.unwrap().1;
    let rest = unassigned(assigned, count as int);
    lemma_unassigned(assigned, count as int);
    let l = listed_tracks(gs);
    if rest.len() > 0 {
        let b = (None::<Seq<char>>, None::<Seq<char>>, rest);
        lemma_listed_prepend(b, gs);
        let all = rest + l;
        assert(listed_tracks(parse_groups_spec(raw, raw_full, count)->0) == all);
        assert forall|k: int| 0 <= k < all.len() implies #[trigger] all[k] < count by {
            if k < rest.len() {
                assert(all[k] == rest[k]);
            } else {
                assert(all[k] == l[k - rest.len()]);
            }
        }
        assert forall|t: u16| t < count implies #[trigger] all.contains(t) by {
            if assigned[t as int] {
                let k = choose|k: int| 0 <= k < l.len() && l[k] == t;
                assert(all[rest.len() + k] == l[k]);
            } else {
                assert(rest.contains(t));
                let k = choose|k: int| 0 <= k < rest.len() && rest[k] == t;
                assert(all[k] == rest[k]);
            }
        }
        assert forall|i: int, j: int| 0 <= i < all.len() && 0 <= j < all.len() && i != j implies all[i]
            != all[j] by {
            if i < rest.len() && j < rest.len() {
                assert(all[i] == rest[i] && all[j] == rest[j]);
                if i < j {
                    assert(rest[i] < rest[j]);
                } else {
                    assert(rest[j] < rest[i]);
                }
            } else if i >= rest.len() && j >= rest.len() {
                assert(all[i] == l[i - rest.len()] && all[j] == l[j - rest.len()]);
            } else if i < rest.len() {
                assert(all[i] == rest[i]);
                assert(!assigned[rest[i] as int]);
                assert(all[j] == l[j - rest.len()]);
                assert(assigned[l[j - rest.len()] as int]);
            } else {
                assert(all[j] == rest[j]);
                assert(!assigned[rest[j] as int]);
                assert(all[i] == l[i - rest.len()]);
                assert(assigned[l[i - rest.len()] as int]);
            }
        }
    } else {
        assert forall|t: u16| t < count implies #[trigger] l.contains(t) by {
            if !assigned[t as int] {
                assert(rest.contains(t));
            }
        }
    }
}

impl RawTrackGroup {
    /// A copy of the group.
    pub fn clone_group(&self) -> (r: RawTrackGroup)
        ensures
            r.view() == self.view(),
    {
        RawTrackGroup {
            name: clone_opt_string(&self.name),
            full_width_name: clone_opt_string(&self.full_width_name),
            tracks: self.tracks.clone(),
        }
    }
}

/// A copy of an optional string.
pub fn clone_opt_string(o: &Option<String>) -> (r: Option<String>)
    ensures
        opt_seq(r) == opt_seq(*o),
{
    match o {
        Some(s) => Some(s.clone()),
        None => None,
    }
}

/// Characters of an optional string, empty for `None`.
pub open spec fn opt_chars(o: Option<String>) -> Seq<char> {
    match o {
        Some(s) => s@,
        None => Seq::empty(),
    }
}

/// The characters of an optional string, empty for `None`.
pub fn opt_to_chars(o: &Option<String>) -> (r: Vec<char>)
    ensures
        r@ == opt_chars(*o),
{
    match o {
        Some(s) => str_to_chars(s.as_str()),
        None => Vec::new(),
    }
}

/// All tracks of a listing, group after group.
pub open spec fn flat_tracks(groups: Seq<Group>) -> Seq<Track>
    decreases groups.len(),
{
    if groups.len() == 0 {
        Seq::empty()
    } else {
        flat_tracks(groups.drop_last()) + groups.last().tracks@
    }
}

proof fn lemma_flat_tracks_mono(groups: Seq<Group>, i: int)
    requires
        0 <= i <= groups.len(),
    ensures
        flat_tracks(groups.take(i)).len() <= flat_tracks(groups).len(),
    decreases groups.len() - i,
{
    if i < groups.len() {
        assert(groups.take(i + 1).drop_last() =~= groups.take(i));
        lemma_flat_tracks_mono(groups, i + 1);
    } else {
        assert(groups.take(i) =~= groups);
    }
}

/// The sum of the group sizes of a listing.
pub open spec fn group_sizes(groups: Seq<Group>) -> nat
    decreases groups.len(),
{
    if groups.len() == 0 {
        0
    } else {
        group_sizes(groups.drop_last()) + groups.last().tracks@.len()
    }
}

/// The tracks of a listing, group after group, are as many as the sizes of
/// its groups add up to.
pub proof fn lemma_track_count(groups: Seq<Group>)
    ensures
        flat_tracks(groups).len() == group_sizes(groups),
    decreases groups.len(),
{
    if groups.len() > 0 {
        lemma_track_count(groups.drop_last());
    }
}

/// Number of tracks in a listing: as many as [`tracks`] lists, and the sum
/// of the group sizes.
pub fn count_tracks_in_disc(disc: &Disc) -> (n: usize)
    requires
        flat_tracks(disc.groups@).len() <= usize::MAX,
    ensures
        n == flat_tracks(disc.groups@).len(),
        n == group_sizes(disc.groups@),
{
    proof {
        lemma_track_count(disc.groups@);
    }
    let mut n: usize = 0;
    let mut i: usize = 0;
    while i < disc.groups.len()
        invariant
            i <= disc.groups@.len(),
            flat_tracks(disc.groups@).len() <= usize::MAX,
            n == flat_tracks(disc.groups@.take(i as int)).len(),
        decreases disc.groups@.len() - i,
    {
        assert(disc.groups@.take(i + 1).drop_last() =~= disc.groups@.take(i as int));
        proof {
            lemma_flat_tracks_mono(disc.groups@, i + 1);
        }
        n = n + disc.groups[i].tracks.len();
        i = i + 1;
    }
    assert(disc.groups@.take(disc.groups@.len() as int) =~= disc.groups@);
    n
}

/// All tracks of a listing, group after group.
pub fn tracks(disc: &Disc) -> (r: Vec<&Track>)
    ensures
        r@.len() == flat_tracks(disc.groups@).len(),
        forall|k: int| 0 <= k < r@.len() ==> *(#[trigger] r@[k]) == flat_tracks(disc.groups@)[k],
{
    let mut r: Vec<&Track> = Vec::new();
    let mut i: usize = 0;
    while i < disc.groups.len()
        invariant
            i <= disc.groups@.len(),
            r@.len() == flat_tracks(disc.groups@.take(i as int)).len(),
            forall|k: int| 0 <= k < r@.len() ==> *(#[trigger] r@[k]) == flat_tracks(disc.groups@.take(i as int))[k],
        decreases disc.groups@.len() - i,
    {
        assert(disc.groups@.take(i + 1).drop_last() =~= disc.groups@.take(i as int));
        let g = &disc.groups[i];
        let ghost before = r@;
        let ghost prev = flat_tracks(disc.groups@.take(i as int));
        let ghost next = flat_tracks(disc.groups@.take(i + 1));
        assert(next == prev + g.tracks@);
        let mut j: usize = 0;
        while j < g.tracks.len()
            invariant
                j <= g.tracks@.len(),
                r@.len() == before.len() + j,
                forall|k: int| 0 <= k < before.len() ==> r@[k] == before[k],
                forall|k: int| 0 <= k < j ==> *(#[trigger] r@[before.len() + k]) == g.tracks@[k],
            decreases g.tracks@.len() - j,
        {
            r.push(&g.tracks[j]);
            j = j + 1;
        }
        assert forall|k: int| 0 <= k < r@.len() implies *(#[trigger] r@[k]) == next[k] by {
            if k >= before.len() {
                assert(*r@[before.len() + (k - before.len())] == g.tracks@[k - before.len()]);
            } else {
                assert(*before[k] == prev[k]);
            }
        }
        i = i + 1;
    }
    assert(disc.groups@.take(disc.groups@.len() as int) =~= disc.groups@);
    r
}

/// TOC cells a track title takes, in each table.
#[derive(Debug, Clone, Copy, PartialEq, Eq, Structural)]
pub struct TitleCells {
    pub half_width: usize,
    pub full_width: usize,
}

/// Characters left for titles, in each table.
#[derive(Debug, Clone, Copy, PartialEq, Eq, Structural)]
pub struct RemainingChars {
    pub half_width: usize,
    pub full_width: usize,
}

/// The two raw disc titles that hold the group structure.
#[derive(Debug, Clone, PartialEq, Eq)]
pub struct CompiledTitles {
    pub raw_title: String,
    pub raw_full_width_title: String,
}

/// Cells of seven characters needed for `n` characters.
pub open spec fn ceil7(n: nat) -> nat {
    (n + 6) / 7
}

/// Cells of seven characters needed for `len` characters.
pub fn chars_to_cells(len: usize) -> (r: usize)
    ensures
        r == ceil7(len as nat),
{
    len / 7 + if len % 7 != 0 {
        1
    } else {
        0
    }
}

/// LP tracks reserve one cell for the codec name.
pub open spec fn encoding_correction(t: Track) -> nat {
    if t.encoding == Encoding::Sp {
        0
    } else {
        1
    }
}

pub open spec fn max_nat(a: nat, b: nat) -> nat {
    if a >= b {
        a
    } else {
        b
    }
}

/// Half-width cells of a track title.
pub open spec fn cells_half(t: Track) -> nat {
    max_nat(encoding_correction(t), ceil7(half_width_length_spec(opt_chars(t.title))))
}

/// Full-width cells of a track title (two bytes per UTF-16 unit).
pub open spec fn cells_full(t: Track) -> nat {
    max_nat(encoding_correction(t), ceil7(utf16_len_spec(opt_chars(t.full_width_title)) * 2))
}

/// TOC cells a track title takes, in each table.
pub fn cells_for_title(track: &Track) -> (c: TitleCells)
    requires
        4 * opt_chars(track.title).len() <= usize::MAX,
        4 * opt_chars(track.full_width_title).len() <= usize::MAX,
    ensures
        c.half_width == cells_half(*track),
        c.full_width == cells_full(*track),
{
    let correction: usize = if matches!(track.encoding, Encoding::Sp) {
        0
    } else {
        1
    };
    let fw = opt_to_chars(&track.full_width_title);
    let hw = opt_to_chars(&track.title);
    proof {
        lemma_utf16_len_bound(fw@);
        lemma_utf16_len_bound(hw@);
    }
    let full_width_length = chars_to_cells(utf16_len(fw.as_slice()) * 2);
    let half_width_length = chars_to_cells(half_width_length(hw.as_slice()));
    TitleCells {
        half_width: if correction >= half_width_length {
            correction
        } else {
            half_width_length
        },
        full_width: if correction >= full_width_length {
            correction
        } else {
            full_width_length
        },
    }
}

/// Text held by a track, plus one for its cell reservation.
pub open spec fn track_text(t: Track) -> nat {
    opt_chars(t.title).len() + opt_chars(t.full_width_title).len() + 1
}

pub open spec fn tracks_text(ts: Seq<Track>) -> nat
    decreases ts.len(),
{
    if ts.len() == 0 {
        0
    } else {
        tracks_text(ts.drop_last()) + track_text(ts.last())
    }
}

/// Text held by a group: names, room for its range entry, its tracks.
pub open spec fn group_text(g: Group) -> nat {
    opt_chars(g.title).len() + opt_chars(g.full_width_title).len() + 64 + tracks_text(g.tracks@)
}

pub open spec fn groups_text(gs: Seq<Group>) -> nat
    decreases gs.len(),
{
    if gs.len() == 0 {
        0
    } else {
        groups_text(gs.drop_last()) + group_text(gs.last())
    }
}

/// Text held by a listing.
pub open spec fn disc_text(d: Disc) -> nat {
    d.title@.len() + d.full_width_title@.len() + 64 + groups_text(d.groups@)
}

/// Whether the tracks of every named group have indices below `0xffff`
/// (their 1-based numbers must fit in 16 bits).
pub open spec fn named_indices_ok(gs: Seq<Group>) -> bool {
    forall|i: int, j: int|
        0 <= i < gs.len() && gs[i].title is Some && 0 <= j < gs[i].tracks@.len() ==> (
        #[trigger] gs[i].tracks@[j]).index < 0xffff
}

/// The size limits under which the title arithmetic fits in `usize`.
pub open spec fn disc_fits(d: Disc) -> bool {
    64 * disc_text(d) <= usize::MAX && named_indices_ok(d.groups@)
}

fn opt_len(o: &Option<String>) -> (n: usize)
    ensures
        n == opt_chars(*o).len(),
{
    match o {
        Some(s) => s.as_str().unicode_len(),
        None => 0,
    }
}

/// The text held by a track list, when it is at most `limit`.
fn tracks_text_within(ts: &Vec<Track>, limit: usize) -> (r: Option<usize>)
    ensures
        match r {
            Some(n) => n == tracks_text(ts@) && n <= limit,
            None => tracks_text(ts@) > limit,
        },
{
    let mut acc: usize = 0;
    let mut j: usize = 0;
    while j < ts.len()
        invariant
            j <= ts@.len(),
            acc == tracks_text(ts@.take(j as int)),
            acc <= limit,
        decreases ts@.len() - j,
    {
        assert(ts@.take(j + 1).drop_last() =~= ts@.take(j as int));
        proof {
            lemma_tracks_bound(ts@, j + 1);
        }
        let a = opt_len(&ts[j].title);
        let b = opt_len(&ts[j].full_width_title);
        if a > limit - acc || b > limit - acc - a || 1 > limit - acc - a - b {
            return None;
        }
        acc = acc + a + b + 1;
        j = j + 1;
    }
    assert(ts@.take(ts@.len() as int) =~= ts@);
    Some(acc)
}

/// Whether a listing is within the size limits of the title arithmetic
/// (see [`disc_fits`]).
pub fn disc_fits_check(d: &Disc) -> (b: bool)
    ensures
        b == disc_fits(*d),
{
    let limit: usize = usize::MAX / 64;
    let t = d.title.as_str().unicode_len();
    let f = d.full_width_title.as_str().unicode_len();
    if t > limit || f > limit - t || 64 > limit - t - f {
        return false;
    }
    let mut acc: usize = t + f + 64;
    let mut i: usize = 0;
    while i < d.groups.len()
        invariant
            i <= d.groups@.len(),
            limit == usize::MAX / 64,
            acc == d.title@.len() + d.full_width_title@.len() + 64 + groups_text(d.groups@.take(i as int)),
            acc <= limit,
        decreases d.groups@.len() - i,
    {
        assert(d.groups@.take(i + 1).drop_last() =~= d.groups@.take(i as int));
        proof {
            lemma_groups_bound(d.groups@, i + 1);
        }
        let g = &d.groups[i];
        let a = opt_len(&g.title);
        let b = opt_len(&g.full_width_title);
        if a > limit - acc || b > limit - acc - a || 64 > limit - acc - a - b {
            return false;
        }
        let rest = limit - acc - a - b - 64;
        match tracks_text_within(&g.tracks, rest) {
            Some(n) => {
                acc = acc + a + b + 64 + n;
            },
            None => {
                return false;
            },
        }
        i = i + 1;
    }
    assert(d.groups@.take(d.groups@.len() as int) =~= d.groups@);
    let mut i: usize = 0;
    while i < d.groups.len()
        invariant
            i <= d.groups@.len(),
            64 * disc_text(*d) <= usize::MAX,
            forall|k: int, j: int|
                0 <= k < i && d.groups@[k].title is Some && 0 <= j < d.groups@[k].tracks@.len() ==> (
                #[trigger] d.groups@[k].tracks@[j]).index < 0xffff,
        decreases d.groups@.len() - i,
    {
        let g = &d.groups[i];
        if g.title.is_some() {
            let mut j: usize = 0;
            while j < g.tracks.len()
                invariant
                    j <= g.tracks@.len(),
                    g == &d.groups@[i as int],
                    i < d.groups@.len(),
                    g.title is Some,
                    forall|m: int| 0 <= m < j ==> (#[trigger] g.tracks@[m]).index < 0xffff,
                decreases g.tracks@.len() - j,
            {
                if g.tracks[j].index >= 0xffff {
                    assert(!named_indices_ok(d.groups@)) by {
                        assert(d.groups@[i as int].tracks@[j as int].index >= 0xffff);
                    }
                    return false;
                }
                j = j + 1;
            }
        }
        i = i + 1;
    }
    true
}

/// Half-width cells of all track titles of a track list.
pub open spec fn tracks_cells_half(ts: Seq<Track>) -> nat
    decreases ts.len(),
{
    if ts.len() == 0 {
        0
    } else {
        tracks_cells_half(ts.drop_last()) + cells_half(ts.last())
    }
}

/// Full-width cells of all track titles of a track list.
pub open spec fn tracks_cells_full(ts: Seq<Track>) -> nat
    decreases ts.len(),
{
    if ts.len() == 0 {
        0
    } else {
        tracks_cells_full(ts.drop_last()) + cells_full(ts.last())
    }
}

/// Half-width cells of all track titles of a listing.
pub open spec fn groups_cells_half(gs: Seq<Group>) -> nat
    decreases gs.len(),
{
    if gs.len() == 0 {
        0
    } else {
        groups_cells_half(gs.drop_last()) + tracks_cells_half(gs.last().tracks@)
    }
}

/// Full-width cells of all track titles of a listing.
pub open spec fn groups_cells_full(gs: Seq<Group>) -> nat
    decreases gs.len(),
{
    if gs.len() == 0 {
        0
    } else {
        groups_cells_full(gs.drop_last()) + tracks_cells_full(gs.last().tracks@)
    }
}

proof fn lemma_ceil7_le(n: nat)
    ensures
        ceil7(n) <= n + 1,
        n >= 1 ==> ceil7(n) <= n,
{
}

proof fn lemma_track_cells_bound(t: Track)
    ensures
        cells_half(t) <= 4 * track_text(t),
        cells_full(t) <= 4 * track_text(t),
        track_text(t) >= 1,
{
    lemma_utf16_len_bound(opt_chars(t.title));
    lemma_utf16_len_bound(opt_chars(t.full_width_title));
    lemma_ceil7_le(half_width_length_spec(opt_chars(t.title)));
    lemma_ceil7_le(utf16_len_spec(opt_chars(t.full_width_title)) * 2);
}

proof fn lemma_tracks_bound(ts: Seq<Track>, i: int)
    requires
        0 <= i <= ts.len(),
    ensures
        tracks_cells_half(ts.take(i)) <= 4 * tracks_text(ts.take(i)),
        tracks_cells_full(ts.take(i)) <= 4 * tracks_text(ts.take(i)),
        tracks_text(ts.take(i)) <= tracks_text(ts),
        i == ts.len() ==> ts.take(i) == ts,
    decreases ts.len() - i,
{
    if i < ts.len() {
        lemma_tracks_bound(ts, i + 1);
        assert(ts.take(i + 1).drop_last() =~= ts.take(i));
        lemma_track_cells_bound(ts[i]);
    } else {
        assert(ts.take(i) =~= ts);
    }
    if i > 0 {
        lemma_tracks_bound_prefix(ts, i);
    }
}

proof fn lemma_tracks_bound_prefix(ts: Seq<Track>, i: int)
    requires
        0 <= i <= ts.len(),
    ensures
        tracks_cells_half(ts.take(i)) <= 4 * tracks_text(ts.take(i)),
        tracks_cells_full(ts.take(i)) <= 4 * tracks_text(ts.take(i)),
    decreases i,
{
    if i > 0 {
        lemma_tracks_bound_prefix(ts, i - 1);
        assert(ts.take(i).drop_last() =~= ts.take(i - 1));
        lemma_track_cells_bound(ts[i - 1]);
    }
}

proof fn lemma_groups_bound(gs: Seq<Group>, i: int)
    requires
        0 <= i <= gs.len(),
    ensures
        groups_cells_half(gs.take(i)) <= 4 * groups_text(gs.take(i)),
        groups_cells_full(gs.take(i)) <= 4 * groups_text(gs.take(i)),
        groups_text(gs.take(i)) <= groups_text(gs),
    decreases gs.len() - i,
{
    lemma_groups_bound_prefix(gs, i);
    if i < gs.len() {
        lemma_groups_bound(gs, i + 1);
        assert(gs.take(i + 1).drop_last() =~= gs.take(i));
    } else {
        assert(gs.take(i) =~= gs);
    }
}

proof fn lemma_groups_bound_prefix(gs: Seq<Group>, i: int)
    requires
        0 <= i <= gs.len(),
    ensures
        groups_cells_half(gs.take(i)) <= 4 * groups_text(gs.take(i)),
        groups_cells_full(gs.take(i)) <= 4 * groups_text(gs.take(i)),
    decreases i,
{
    if i > 0 {
        lemma_groups_bound_prefix(gs, i - 1);
        assert(gs.take(i).drop_last() =~= gs.take(i - 1));
        let ts = gs[i - 1].tracks@;
        lemma_tracks_bound_prefix(ts, ts.len() as int);
        assert(ts.take(ts.len() as int) =~= ts);
    }
}

/// Adds the cells of the track titles of one group.
fn add_track_cells(ts: &Vec<Track>, half: usize, full: usize, limit: Ghost<nat>) -> (r: (usize, usize))
    requires
        half + 4 * tracks_text(ts@) <= limit@,
        full + 4 * tracks_text(ts@) <= limit@,
        limit@ <= usize::MAX,
    ensures
        r.0 == half + tracks_cells_half(ts@),
        r.1 == full + tracks_cells_full(ts@),
{
    let mut h = half;
    let mut f = full;
    let mut j: usize = 0;
    while j < ts.len()
        invariant
            j <= ts@.len(),
            half + 4 * tracks_text(ts@) <= limit@,
            full + 4 * tracks_text(ts@) <= limit@,
            limit@ <= usize::MAX,
            h == half + tracks_cells_half(ts@.take(j as int)),
            f == full + tracks_cells_full(ts@.take(j as int)),
        decreases ts@.len() - j,
    {
        assert(ts@.take(j + 1).drop_last() =~= ts@.take(j as int));
        proof {
            lemma_tracks_bound(ts@, j + 1);
            lemma_tracks_bound_prefix(ts@, j + 1);
        }
        let t = &ts[j];
        assert(opt_chars(t.title).len() <= tracks_text(ts@)) by {
            lemma_track_in_text(ts@, j as int);
        }
        assert(opt_chars(t.full_width_title).len() <= tracks_text(ts@)) by {
            lemma_track_in_text(ts@, j as int);
        }
        let c = cells_for_title(t);
        h = h + c.half_width;
        f = f + c.full_width;
        j = j + 1;
    }
    assert(ts@.take(ts@.len() as int) =~= ts@);
    (h, f)
}

proof fn lemma_track_in_text(ts: Seq<Track>, j: int)
    requires
        0 <= j < ts.len(),
    ensures
        track_text(ts[j]) <= tracks_text(ts),
    decreases ts.len(),
{
    if j < ts.len() - 1 {
        lemma_track_in_text(ts.drop_last(), j);
    }
}

/// Smallest track index of a non-empty track list.
pub open spec fn min_index(ts: Seq<Track>) -> int
    decreases ts.len(),
{
    if ts.len() == 0 {
        0
    } else if ts.len() == 1 {
        ts[0].index as int
    } else {
        let m = min_index(ts.drop_last());
        if (ts.last().index as int) < m {
            ts.last().index as int
        } else {
            m
        }
    }
}

/// Largest track index of a non-empty track list.
pub open spec fn max_index(ts: Seq<Track>) -> int
    decreases ts.len(),
{
    if ts.len() == 0 {
        0
    } else if ts.len() == 1 {
        ts[0].index as int
    } else {
        let m = max_index(ts.drop_last());
        if (ts.last().index as int) > m {
            ts.last().index as int
        } else {
            m
        }
    }
}

/// Smallest and largest track index of a non-empty track list.
fn min_max_index(ts: &Vec<Track>) -> (r: (u16, u16))
    requires
        ts@.len() > 0,
    ensures
        r.0 == min_index(ts@),
        r.1 == max_index(ts@),
        exists|j: int| 0 <= j < ts@.len() && (#[trigger] ts@[j]).index == r.0,
        exists|j: int| 0 <= j < ts@.len() && (#[trigger] ts@[j]).index == r.1,
{
    let mut lo = ts[0].index;
    let mut hi = ts[0].index;
    let mut i: usize = 1;
    assert(ts@.take(1).len() == 1);
    while i < ts.len()
        invariant
            1 <= i <= ts@.len(),
            lo == min_index(ts@.take(i as int)),
            hi == max_index(ts@.take(i as int)),
            exists|j: int| 0 <= j < ts@.len() && (#[trigger] ts@[j]).index == lo,
            exists|j: int| 0 <= j < ts@.len() && (#[trigger] ts@[j]).index == hi,
        decreases ts@.len() - i,
    {
        assert(ts@.take(i + 1).drop_last() =~= ts@.take(i as int));
        let x = ts[i].index;
        if x < lo {
            lo = x;
        }
        if x > hi {
            hi = x;
        }
        i = i + 1;
    }
    assert(ts@.take(ts@.len() as int) =~= ts@);
    (lo, hi)
}

/// The range entry of a group as the cell budget counts it: `<first>-<last>//`
/// (1-based), or `<first>false//` for a one-track group.
pub open spec fn listing_range(g: Group) -> Seq<char> {
    let lo = (min_index(g.tracks@) + 1) as nat;
    let hi = (max_index(g.tracks@) + 1) as nat;
    if g.tracks@.len() != 1 {
        dec_spec(lo) + seq!['-'] + dec_spec(hi) + seq!['/', '/']
    } else {
        dec_spec(lo) + seq!['f', 'a', 'l', 's', 'e', '/', '/']
    }
}

/// Group names followed by their range entries, over the named non-empty
/// groups of a listing.
pub open spec fn listing_suffix(gs: Seq<Group>, full: bool) -> Seq<char>
    decreases gs.len(),
{
    if gs.len() == 0 {
        Seq::empty()
    } else {
        let prev = listing_suffix(gs.drop_last(), full);
        let g = gs.last();
        if g.title is Some && g.tracks@.len() > 0 {
            prev + (if full {
                opt_chars(g.full_width_title)
            } else {
                opt_chars(g.title)
            }) + listing_range(g)
        } else {
            prev
        }
    }
}

/// The `0;//` entry of an empty disc title.
pub open spec fn zero_entry() -> Seq<char> {
    seq!['0', ';', '/', '/']
}

/// Characters left in a table of 255 cells of seven characters.
pub open spec fn free_chars(used: nat) -> nat {
    if used < 255 {
        ((255 - used) * 7) as nat
    } else {
        0
    }
}

/// Characters left for titles, half-width then full-width, when the disc
/// titles are `title` / `fw_title` (and, if `include_groups`, the group
/// entries follow them) and every track keeps its title.
pub open spec fn remaining_spec(title: Seq<char>, fw_title: Seq<char>, gs: Seq<Group>, include_groups: bool) -> (nat, nat) {
    let fw = fw_title + zero_entry() + (if include_groups {
        listing_suffix(gs, true)
    } else {
        Seq::empty()
    });
    let hw = title + zero_entry() + (if include_groups {
        listing_suffix(gs, false)
    } else {
        Seq::empty()
    });
    let used_full = ceil7(utf16_len_spec(fw) * 2) + groups_cells_full(gs);
    let used_half = ceil7(half_width_length_spec(hw)) + groups_cells_half(gs);
    (free_chars(used_half), free_chars(used_full))
}

proof fn lemma_range_len(g: Group)
    requires
        g.tracks@.len() > 0,
        0 <= min_index(g.tracks@) < 0xffff,
        0 <= max_index(g.tracks@) < 0xffff,
    ensures
        listing_range(g).len() <= 13,
{
    reveal_with_fuel(pow10, 6);
    lemma_dec_len((min_index(g.tracks@) + 1) as nat, 5);
    lemma_dec_len((max_index(g.tracks@) + 1) as nat, 5);
}

fn listing_suffix_exec(groups: &Vec<Group>, full: bool) -> (r: Vec<char>)
    requires
        named_indices_ok(groups@),
    ensures
        r@ == listing_suffix(groups@, full),
        r@.len() <= groups_text(groups@),
{
    let mut r: Vec<char> = Vec::new();
    let mut i: usize = 0;
    while i < groups.len()
        invariant
            i <= groups@.len(),
            named_indices_ok(groups@),
            r@ == listing_suffix(groups@.take(i as int), full),
            r@.len() <= groups_text(groups@.take(i as int)),
        decreases groups@.len() - i,
    {
        assert(groups@.take(i + 1).drop_last() =~= groups@.take(i as int));
        let g = &groups[i];
        if g.title.is_some() && g.tracks.len() > 0 {
            let (lo, hi) = min_max_index(&g.tracks);
            assert(lo < 0xffff && hi < 0xffff) by {
                let a = choose|j: int| 0 <= j < g.tracks@.len() && (#[trigger] g.tracks@[j]).index == lo;
                let b = choose|j: int| 0 <= j < g.tracks@.len() && (#[trigger] g.tracks@[j]).index == hi;
                assert(groups@[i as int].tracks@[a].index < 0xffff);
                assert(groups@[i as int].tracks@[b].index < 0xffff);
            }
            proof {
                lemma_range_len(*g);
            }
            let name = if full {
                opt_to_chars(&g.full_width_title)
            } else {
                opt_to_chars(&g.title)
            };
            append_chars(&mut r, name.as_slice());
            let d = dec_chars((lo + 1) as u64);
            append_chars(&mut r, d.as_slice());
            if g.tracks.len() != 1 {
                r.push('-');
                let e = dec_chars((hi + 1) as u64);
                append_chars(&mut r, e.as_slice());
                r.push('/');
                r.push('/');
            } else {
                let tail = vec!['f', 'a', 'l', 's', 'e', '/', '/'];
                append_chars(&mut r, tail.as_slice());
            }
            assert(r@ =~= listing_suffix(groups@.take(i + 1), full));
        }
        i = i + 1;
    }
    assert(groups@.take(groups@.len() as int) =~= groups@);
    r
}

/// Characters left for titles when the disc titles are `title` / `fw_title`
/// (see [`remaining_spec`]).
fn remaining_for(title: &[char], fw_title: &[char], groups: &Vec<Group>, include_groups: bool) -> (r: RemainingChars)
    requires
        64 * (title@.len() + fw_title@.len() + 64 + groups_text(groups@)) <= usize::MAX,
        named_indices_ok(groups@),
    ensures
        (r.half_width as nat, r.full_width as nat) == remaining_spec(title@, fw_title@, groups@, include_groups),
{
    let zero = vec!['0', ';', '/', '/'];
    assert(zero@ =~= zero_entry());
    let mut fw: Vec<char> = Vec::new();
    append_chars(&mut fw, fw_title);
    append_chars(&mut fw, zero.as_slice());
    let mut hw: Vec<char> = Vec::new();
    append_chars(&mut hw, title);
    append_chars(&mut hw, zero.as_slice());
    if include_groups {
        let sf = listing_suffix_exec(groups, true);
        append_chars(&mut fw, sf.as_slice());
        let sh = listing_suffix_exec(groups, false);
        append_chars(&mut hw, sh.as_slice());
    } else {
        assert(fw@ =~= fw@ + Seq::<char>::empty());
        assert(hw@ =~= hw@ + Seq::<char>::empty());
    }
    let ghost limit: nat = 16 * (title@.len() + fw_title@.len() + 64 + groups_text(groups@));
    proof {
        lemma_utf16_len_bound(fw@);
        lemma_utf16_len_bound(hw@);
        lemma_ceil7_le(utf16_len_spec(fw@) * 2);
        lemma_ceil7_le(half_width_length_spec(hw@));
    }
    let mut used_full = chars_to_cells(utf16_len(fw.as_slice()) * 2);
    let mut used_half = chars_to_cells(half_width_length(hw.as_slice()));
    let ghost base_full = used_full as nat;
    let ghost base_half = used_half as nat;
    let mut i: usize = 0;
    while i < groups.len()
        invariant
            i <= groups@.len(),
            limit <= usize::MAX,
            limit == 16 * (title@.len() + fw_title@.len() + 64 + groups_text(groups@)),
            base_full + 4 * groups_text(groups@) <= limit,
            base_half + 4 * groups_text(groups@) <= limit,
            used_full == base_full + groups_cells_full(groups@.take(i as int)),
            used_half == base_half + groups_cells_half(groups@.take(i as int)),
        decreases groups@.len() - i,
    {
        assert(groups@.take(i + 1).drop_last() =~= groups@.take(i as int));
        proof {
            lemma_groups_bound(groups@, i as int);
            lemma_groups_bound(groups@, i + 1);
        }
        let (h, f) = add_track_cells(&groups[i].tracks, used_half, used_full, Ghost(limit));
        used_half = h;
        used_full = f;
        i = i + 1;
    }
    assert(groups@.take(groups@.len() as int) =~= groups@);
    let half_width = if used_half < 255 {
        (255 - used_half) * 7
    } else {
        0
    };
    let full_width = if used_full < 255 {
        (255 - used_full) * 7
    } else {
        0
    };
    RemainingChars { half_width, full_width }
}

/// Characters left for titles on a disc (see [`remaining_spec`]).
pub fn remaining_characters_for_titles(disc: &Disc, include_groups: bool) -> (r: RemainingChars)
    requires
        disc_fits(*disc),
    ensures
        (r.half_width as nat, r.full_width as nat) == remaining_spec(
            disc.title@,
            disc.full_width_title@,
            disc.groups@,
            include_groups,
        ),
{
    let t = str_to_chars(disc.title.as_str());
    let f = str_to_chars(disc.full_width_title.as_str());
    remaining_for(t.as_slice(), f.as_slice(), &disc.groups, include_groups)
}

/// The range entry a group gets in the compiled titles: `<first>-<first + n - 1>`
/// (1-based, `n` the number of tracks), or `<first>` for one track.
pub open spec fn compile_range(g: Group) -> Seq<char> {
    let lo = min_index(g.tracks@);
    if g.tracks@.len() != 1 {
        dec_spec((lo + 1) as nat) + seq!['-'] + dec_spec((lo + g.tracks@.len()) as nat)
    } else {
        dec_spec((lo + 1) as nat)
    }
}

/// One group added to the titles being compiled `(half, full, groups seen)`:
/// each title takes the group entry only while it still fits the space left.
pub open spec fn compile_step(
    st: (Seq<char>, Seq<char>, nat),
    g: Group,
    use_full: bool,
    avail_half: nat,
    avail_full: nat,
) -> (Seq<char>, Seq<char>, nat) {
    if g.title is None || g.tracks@.len() == 0 {
        st
    } else {
        let range = compile_range(g);
        let title_after = st.0 + range + seq![';'] + opt_chars(g.title) + seq!['/', '/'];
        let full_after = st.1 + full_width_range_spec(range) + seq!['；'] + opt_chars(g.full_width_title)
            + seq!['／', '／'];
        let new_full = if use_full && avail_full >= ceil7(utf16_len_spec(full_after) * 2) * 7 {
            full_after
        } else {
            st.1
        };
        let new_raw = if avail_half >= ceil7(half_width_length_spec(title_after)) * 7 {
            title_after
        } else {
            st.0
        };
        (new_raw, new_full, st.2 + 1)
    }
}

pub open spec fn compile_fold(
    gs: Seq<Group>,
    init: (Seq<char>, Seq<char>, nat),
    use_full: bool,
    avail_half: nat,
    avail_full: nat,
) -> (Seq<char>, Seq<char>, nat)
    decreases gs.len(),
{
    if gs.len() == 0 {
        init
    } else {
        compile_step(compile_fold(gs.drop_last(), init, use_full, avail_half, avail_full), gs.last(), use_full, avail_half, avail_full)
    }
}

/// Whether an optional title is present and non-empty.
pub open spec fn has_text(o: Option<String>) -> bool {
    opt_chars(o).len() > 0
}

/// Whether a listing has any full-width title at all.
pub open spec fn uses_full_width(d: Disc) -> bool {
    ||| d.full_width_title@.len() > 0
    ||| exists|i: int|
        0 <= i < d.groups@.len() && (has_text(#[trigger] d.groups@[i].full_width_title) || exists|j: int|
            0 <= j < d.groups@[i].tracks@.len() && has_text(#[trigger] d.groups@[i].tracks@[j].full_width_title))
}

/// The raw half-width and full-width disc titles that encode a listing's
/// groups: the disc title entry, then each named group's entry while the
/// TOC has room for it; the plain disc titles when no group is named; a
/// title that does not fit at all is dropped; the full-width title is empty
/// when the listing has no full-width text.
pub open spec fn compile_spec(d: Disc) -> (Seq<char>, Seq<char>) {
    let avail = remaining_spec(Seq::empty(), Seq::empty(), d.groups@, false);
    let use_full = uses_full_width(d);
    let init_raw = if d.title@.len() > 0 {
        seq!['0', ';'] + d.title@ + seq!['/', '/']
    } else {
        Seq::empty()
    };
    let init_full = if use_full {
        seq!['０', '；'] + d.full_width_title@ + seq!['／', '／']
    } else {
        Seq::empty()
    };
    let st = compile_fold(d.groups@, (init_raw, init_full, 0), use_full, avail.0, avail.1);
    let raw1 = if st.2 == 0 {
        d.title@
    } else {
        st.0
    };
    let full1 = if st.2 == 0 {
        d.full_width_title@
    } else {
        st.1
    };
    let raw2 = if avail.0 < ceil7(half_width_length_spec(raw1)) * 7 {
        Seq::empty()
    } else {
        raw1
    };
    let full2 = if avail.1 < ceil7(utf16_len_spec(full1) * 2) {
        Seq::empty()
    } else {
        full1
    };
    (
        raw2,
        if use_full {
            full2
        } else {
            Seq::empty()
        },
    )
}

fn opt_has_text(o: &Option<String>) -> (r: bool)
    ensures
        r == has_text(*o),
{
    let c = opt_to_chars(o);
    c.len() > 0
}

fn uses_full_width_exec(disc: &Disc) -> (r: bool)
    ensures
        r == uses_full_width(*disc),
{
    if disc.full_width_title.as_str().unicode_len() > 0 {
        return true;
    }
    let mut i: usize = 0;
    while i < disc.groups.len()
        invariant
            i <= disc.groups@.len(),
            disc.full_width_title@.len() == 0,
            forall|k: int| 0 <= k < i ==> !(has_text(#[trigger] disc.groups@[k].full_width_title) || exists|j: int|
                0 <= j < disc.groups@[k].tracks@.len() && has_text(#[trigger] disc.groups@[k].tracks@[j].full_width_title)),
        decreases disc.groups@.len() - i,
    {
        let g = &disc.groups[i];
        if opt_has_text(&g.full_width_title) {
            return true;
        }
        let mut j: usize = 0;
        while j < g.tracks.len()
            invariant
                i < disc.groups@.len(),
                *g == disc.groups@[i as int],
                j <= g.tracks@.len(),
                forall|m: int| 0 <= m < j ==> !has_text(#[trigger] g.tracks@[m].full_width_title),
            decreases g.tracks@.len() - j,
        {
            if opt_has_text(&g.tracks[j].full_width_title) {
                assert(has_text(disc.groups@[i as int].tracks@[j as int].full_width_title));
                assert(has_text(disc.groups@[i as int].full_width_title) || exists|m: int|
                    0 <= m < disc.groups@[i as int].tracks@.len() && has_text(
                        #[trigger] disc.groups@[i as int].tracks@[m].full_width_title,
                    ));
                return true;
            }
            j = j + 1;
        }
        i = i + 1;
    }
    false
}

proof fn lemma_full_width_range_len(s: Seq<char>)
    ensures
        full_width_range_spec(s).len() <= s.len(),
    decreases s.len(),
{
    if s.len() > 0 {
        lemma_full_width_range_len(s.drop_last());
    }
}

proof fn lemma_group_in_text(gs: Seq<Group>, i: int)
    requires
        0 <= i < gs.len(),
    ensures
        groups_text(gs.take(i)) + group_text(gs[i]) == groups_text(gs.take(i + 1)),
        tracks_text(gs[i].tracks@) >= gs[i].tracks@.len(),
{
    assert(gs.take(i + 1).drop_last() =~= gs.take(i));
    lemma_tracks_text_len(gs[i].tracks@);
}

proof fn lemma_tracks_text_len(ts: Seq<Track>)
    ensures
        tracks_text(ts) >= ts.len(),
    decreases ts.len(),
{
    if ts.len() > 0 {
        lemma_tracks_text_len(ts.drop_last());
    }
}

/// One named, non-empty group added to the titles being compiled (see [`compile_step`]).
fn compile_group(
    raw: Vec<char>,
    raw_full: Vec<char>,
    g: &Group,
    use_full: bool,
    avail_half: usize,
    avail_full: usize,
    limit: Ghost<nat>,
) -> (r: (Vec<char>, Vec<char>))
    requires
        g.title is Some,
        g.tracks@.len() > 0,
        forall|j: int| 0 <= j < g.tracks@.len() ==> (#[trigger] g.tracks@[j]).index < 0xffff,
        raw@.len() + group_text(*g) <= limit@,
        raw_full@.len() + group_text(*g) <= limit@,
        4 * limit@ <= usize::MAX,
    ensures
        ({
            let st = compile_step((raw@, raw_full@, 0), *g, use_full, avail_half as nat, avail_full as nat);
            r.0@ == st.0 && r.1@ == st.1
        }),
        r.0@.len() <= raw@.len() + group_text(*g),
        r.1@.len() <= raw_full@.len() + group_text(*g),
{
    let (lo, _hi) = min_max_index(&g.tracks);
    assert(lo < 0xffff) by {
        let a = choose|j: int| 0 <= j < g.tracks@.len() && (#[trigger] g.tracks@[j]).index == lo;
    }
    proof {
        lemma_tracks_text_len(g.tracks@);
        reveal_with_fuel(pow10, 6);
        lemma_dec_len((lo + 1) as nat, 5);
        lemma_dec_len_u64((lo + g.tracks@.len()) as nat);
    }
    let mut range = dec_chars((lo + 1) as u64);
    if g.tracks.len() != 1 {
        range.push('-');
        let e = dec_chars((lo as usize + g.tracks.len()) as u64);
        append_chars(&mut range, e.as_slice());
    }
    assert(range@ =~= compile_range(*g));
    let name = opt_to_chars(&g.title);
    let full_name = opt_to_chars(&g.full_width_title);
    let mut title_after = raw.clone();
    append_chars(&mut title_after, range.as_slice());
    title_after.push(';');
    append_chars(&mut title_after, name.as_slice());
    title_after.push('/');
    title_after.push('/');
    let fwr = full_width_range_chars(range.as_slice());
    proof {
        lemma_full_width_range_len(range@);
    }
    let mut full_after = raw_full.clone();
    append_chars(&mut full_after, fwr.as_slice());
    full_after.push('；');
    append_chars(&mut full_after, full_name.as_slice());
    full_after.push('／');
    full_after.push('／');
    assert(title_after@ =~= raw@ + compile_range(*g) + seq![';'] + opt_chars(g.title) + seq!['/', '/']);
    assert(full_after@ =~= raw_full@ + full_width_range_spec(compile_range(*g)) + seq!['；'] + opt_chars(
        g.full_width_title,
    ) + seq!['／', '／']);
    proof {
        lemma_utf16_len_bound(full_after@);
        lemma_utf16_len_bound(title_after@);
        lemma_ceil7_le(half_width_length_spec(title_after@));
        lemma_ceil7_le(utf16_len_spec(full_after@) * 2);
    }
    let half_len = chars_to_cells(half_width_length(title_after.as_slice())) * 7;
    let mut new_full = raw_full;
    if use_full {
        let full_len = chars_to_cells(utf16_len(full_after.as_slice()) * 2) * 7;
        if avail_full >= full_len {
            new_full = full_after;
        }
    }
    let mut new_raw = raw;
    if avail_half >= half_len {
        new_raw = title_after;
    }
    (new_raw, new_full)
}

/// Compiles a listing into the two raw disc titles (see [`compile_spec`]).
pub fn compile_disc_titles(disc: &Disc) -> (r: CompiledTitles)
    requires
        disc_fits(*disc),
    ensures
        r.raw_title@ == compile_spec(*disc).0,
        r.raw_full_width_title@ == compile_spec(*disc).1,
{
    let empty: Vec<char> = Vec::new();
    let avail = remaining_for(empty.as_slice(), empty.as_slice(), &disc.groups, false);
    assert(empty@ =~= Seq::<char>::empty());
    let use_full = uses_full_width_exec(disc);
    let title = str_to_chars(disc.title.as_str());
    let full_title = str_to_chars(disc.full_width_title.as_str());
    let mut raw: Vec<char> = Vec::new();
    let mut raw_full: Vec<char> = Vec::new();
    if title.len() > 0 {
        raw.push('0');
        raw.push(';');
        append_chars(&mut raw, title.as_slice());
        raw.push('/');
        raw.push('/');
    }
    if use_full {
        raw_full.push('０');
        raw_full.push('；');
        append_chars(&mut raw_full, full_title.as_slice());
        raw_full.push('／');
        raw_full.push('／');
    }
    let ghost init = (raw@, raw_full@, 0nat);
    let ghost ah = avail.half_width as nat;
    let ghost af = avail.full_width as nat;
    assert(init.0 =~= (if disc.title@.len() > 0 { seq!['0', ';'] + disc.title@ + seq!['/', '/'] } else { Seq::empty() }));
    assert(init.1 =~= (if use_full { seq!['０', '；'] + disc.full_width_title@ + seq!['／', '／'] } else { Seq::empty() }));
    let ghost limit: nat = disc_text(*disc) + 8;
    let mut hits: usize = 0;
    let mut i: usize = 0;
    while i < disc.groups.len()
        invariant
            i <= disc.groups@.len(),
            disc_fits(*disc),
            limit == disc_text(*disc) + 8,
            ah == avail.half_width,
            af == avail.full_width,
            hits <= i,
            compile_fold(disc.groups@.take(i as int), init, use_full, ah, af) == (raw@, raw_full@, hits as nat),
            raw@.len() <= disc.title@.len() + 4 + groups_text(disc.groups@.take(i as int)),
            raw_full@.len() <= disc.full_width_title@.len() + 4 + groups_text(disc.groups@.take(i as int)),
        decreases disc.groups@.len() - i,
    {
        assert(disc.groups@.take(i + 1).drop_last() =~= disc.groups@.take(i as int));
        proof {
            lemma_group_in_text(disc.groups@, i as int);
            lemma_groups_bound(disc.groups@, i + 1);
        }
        let g = &disc.groups[i];
        if g.title.is_some() && g.tracks.len() > 0 {
            assert forall|j: int| 0 <= j < g.tracks@.len() implies (#[trigger] g.tracks@[j]).index < 0xffff by {
                assert(disc.groups@[i as int].tracks@[j].index < 0xffff);
            }
            let (a, b) = compile_group(raw, raw_full, g, use_full, avail.half_width, avail.full_width, Ghost(limit));
            raw = a;
            raw_full = b;
            hits = hits + 1;
        }
        i = i + 1;
    }
    assert(disc.groups@.take(disc.groups@.len() as int) =~= disc.groups@);
    if hits == 0 {
        raw = title;
        raw_full = full_title;
    }
    proof {
        lemma_groups_bound(disc.groups@, disc.groups@.len() as int);
        lemma_utf16_len_bound(raw@);
        lemma_utf16_len_bound(raw_full@);
    }
    let half_len = chars_to_cells(half_width_length(raw.as_slice())) * 7;
    let full_len = chars_to_cells(utf16_len(raw_full.as_slice()) * 2);
    if avail.half_width < half_len {
        raw = Vec::new();
    }
    if avail.full_width < full_len {
        raw_full = Vec::new();
    }
    CompiledTitles {
        raw_title: chars_to_string(raw.as_slice()),
        raw_full_width_title: if use_full {
            chars_to_string(raw_full.as_slice())
        } else {
            String::new()
        },
    }
}

/// A named range as plain values: first and last 0-based track, name,
/// full-width name.
pub open spec fn range_view(r: (u16, u16, String, Option<String>)) -> (u16, u16, Seq<char>, Option<Seq<char>>) {
    (r.0, r.1, r.2@, opt_view(r.3))
}

/// A group as plain values.
pub open spec fn group_view(g: Group) -> (
    usize,
    Option<Seq<char>>,
    Option<Seq<char>>,
    Seq<(u16, Option<Seq<char>>, Option<Seq<char>>, u32, ChannelCount, Encoding, TrackFlag)>,
) {
    (g.index, opt_view(g.title), opt_view(g.full_width_title), g.tracks@.map_values(|t: Track| t.view()))
}

/// The named, non-empty groups of a listing as ranges, in listing order.
pub open spec fn named_entries(gs: Seq<Group>) -> Seq<(u16, u16, Seq<char>, Option<Seq<char>>)>
    decreases gs.len(),
{
    if gs.len() == 0 {
        Seq::empty()
    } else {
        let prev = named_entries(gs.drop_last());
        let g = gs.last();
        if g.title is Some && g.tracks@.len() > 0 {
            prev.push(
                (
                    min_index(g.tracks@) as u16,
                    max_index(g.tracks@) as u16,
                    opt_chars(g.title),
                    opt_view(g.full_width_title),
                ),
            )
        } else {
            prev
        }
    }
}

/// Ranges stably sorted by their first track.
pub open spec fn sort_ranges(rs: Seq<(u16, u16, Seq<char>, Option<Seq<char>>)>) -> Seq<
    (u16, u16, Seq<char>, Option<Seq<char>>),
> {
    let order = sort_positions(Seq::new(rs.len(), |i: int| rs[i].0 as int), rs.len() as int);
    Seq::new(rs.len(), |k: int| rs[order[k]])
}

/// The named ranges of a listing, sorted by first track.
pub open spec fn named_ranges_spec(gs: Seq<Group>) -> Seq<(u16, u16, Seq<char>, Option<Seq<char>>)> {
    sort_ranges(named_entries(gs))
}

/// All tracks of a listing, stably sorted by index.
pub open spec fn sorted_tracks(gs: Seq<Group>) -> Seq<(u16, Option<Seq<char>>, Option<Seq<char>>, u32, ChannelCount, Encoding, TrackFlag)> {
    let flat = flat_tracks(gs).map_values(|t: Track| t.view());
    let order = sort_positions(Seq::new(flat.len(), |i: int| flat[i].0 as int), flat.len() as int);
    Seq::new(flat.len(), |k: int| flat[order[k]])
}

/// Whether some range covers the track index `idx`.
pub open spec fn covered(idx: u16, rs: Seq<(u16, u16, Seq<char>, Option<Seq<char>>)>) -> bool {
    exists|k: int| 0 <= k < rs.len() && (#[trigger] rs[k]).0 <= idx <= rs[k].1
}

/// The tracks that no range covers.
pub open spec fn uncovered_tracks(
    ts: Seq<(u16, Option<Seq<char>>, Option<Seq<char>>, u32, ChannelCount, Encoding, TrackFlag)>,
    rs: Seq<(u16, u16, Seq<char>, Option<Seq<char>>)>,
) -> Seq<(u16, Option<Seq<char>>, Option<Seq<char>>, u32, ChannelCount, Encoding, TrackFlag)>
    decreases ts.len(),
{
    if ts.len() == 0 {
        ts
    } else if covered(ts.last().0, rs) {
        uncovered_tracks(ts.drop_last(), rs)
    } else {
        uncovered_tracks(ts.drop_last(), rs).push(ts.last())
    }
}

/// The tracks whose index lies in `first..=last`.
pub open spec fn tracks_in(
    ts: Seq<(u16, Option<Seq<char>>, Option<Seq<char>>, u32, ChannelCount, Encoding, TrackFlag)>,
    first: u16,
    last: u16,
) -> Seq<(u16, Option<Seq<char>>, Option<Seq<char>>, u32, ChannelCount, Encoding, TrackFlag)>
    decreases ts.len(),
{
    if ts.len() == 0 {
        ts
    } else if first <= ts.last().0 <= last {
        tracks_in(ts.drop_last(), first, last).push(ts.last())
    } else {
        tracks_in(ts.drop_last(), first, last)
    }
}

/// The groups of a listing rebuilt from a set of named ranges: first the
/// bucket of tracks no range covers (if any), then one group per range in
/// order of first track, each holding the tracks in its range, sorted by
/// index; groups are numbered from 0.
pub open spec fn rebuild_spec(ranges: Seq<(u16, u16, Seq<char>, Option<Seq<char>>)>, gs: Seq<Group>) -> Seq<
    (
        usize,
        Option<Seq<char>>,
        Option<Seq<char>>,
        Seq<(u16, Option<Seq<char>>, Option<Seq<char>>, u32, ChannelCount, Encoding, TrackFlag)>,
    ),
> {
    let named = sort_ranges(ranges);
    let flat = sorted_tracks(gs);
    let loose = uncovered_tracks(flat, named);
    let head = if loose.len() > 0 {
        seq![(0usize, None::<Seq<char>>, None::<Seq<char>>, loose)]
    } else {
        Seq::empty()
    };
    head + Seq::new(
        named.len(),
        |k: int|
            (
                (head.len() + k) as usize,
                Some(named[k].2),
                named[k].3,
                tracks_in(flat, named[k].0, named[k].1),
            ),
    )
}

/// Whether two inclusive track ranges share a track.
pub open spec fn overlaps(first: u16, last: u16, r: (u16, u16, Seq<char>, Option<Seq<char>>)) -> bool {
    first <= r.1 && r.0 <= last
}

fn clone_range(r: &(u16, u16, String, Option<String>)) -> (c: (u16, u16, String, Option<String>))
    ensures
        range_view(c) == range_view(*r),
{
    (r.0, r.1, r.2.clone(), clone_opt_string(&r.3))
}

/// Ranges stably sorted by first track.
fn sort_range_vec(rs: &Vec<(u16, u16, String, Option<String>)>) -> (r: Vec<(u16, u16, String, Option<String>)>)
    ensures
        r@.len() == rs@.len(),
        forall|k: int| 0 <= k < r@.len() ==> range_view(#[trigger] r@[k]) == sort_ranges(rs@.map_values(|x: (u16, u16, String, Option<String>)| range_view(x)))[k],
{
    let ghost views = rs@.map_values(|x: (u16, u16, String, Option<String>)| range_view(x));
    let mut keys: Vec<u16> = Vec::new();
    let mut i: usize = 0;
    while i < rs.len()
        invariant
            i <= rs@.len(),
            keys@.len() == i,
            forall|k: int| 0 <= k < i ==> (#[trigger] keys@[k]) == rs@[k].0,
        decreases rs@.len() - i,
    {
        keys.push(rs[i].0);
        i = i + 1;
    }
    let order = stable_order(&keys);
    assert(int_keys(keys@) =~= Seq::new(views.len(), |i: int| views[i].0 as int));
    let mut r: Vec<(u16, u16, String, Option<String>)> = Vec::new();
    let mut k: usize = 0;
    while k < order.len()
        invariant
            k <= order@.len(),
            order@.len() == rs@.len(),
            views == rs@.map_values(|x: (u16, u16, String, Option<String>)| range_view(x)),
            int_keys(keys@) == Seq::new(views.len(), |i: int| views[i].0 as int),
            forall|m: int| 0 <= m < order@.len() ==> (#[trigger] order@[m]) as int == sort_positions(
                int_keys(keys@),
                keys@.len() as int,
            )[m],
            forall|m: int| 0 <= m < order@.len() ==> (#[trigger] order@[m]) < keys@.len(),
            keys@.len() == rs@.len(),
            r@.len() == k,
            forall|m: int| 0 <= m < k ==> range_view(#[trigger] r@[m]) == sort_ranges(views)[m],
        decreases order@.len() - k,
    {
        let p = order[k];
        r.push(clone_range(&rs[p]));
        k = k + 1;
    }
    r
}

/// Whether a track index lies in one of the ranges.
fn is_covered(idx: u16, rs: &Vec<(u16, u16, String, Option<String>)>) -> (b: bool)
    ensures
        b == covered(idx, rs@.map_values(|x: (u16, u16, String, Option<String>)| range_view(x))),
{
    let ghost views = rs@.map_values(|x: (u16, u16, String, Option<String>)| range_view(x));
    let mut i: usize = 0;
    while i < rs.len()
        invariant
            i <= rs@.len(),
            views == rs@.map_values(|x: (u16, u16, String, Option<String>)| range_view(x)),
            forall|k: int| 0 <= k < i ==> !((#[trigger] views[k]).0 <= idx <= views[k].1),
        decreases rs@.len() - i,
    {
        if rs[i].0 <= idx && idx <= rs[i].1 {
            assert(views[i as int].0 <= idx <= views[i as int].1);
            return true;
        }
        i = i + 1;
    }
    false
}

impl Disc {
    /// The named, non-empty groups as ranges, sorted by first track.
    fn named_ranges(&self) -> (r: Vec<(u16, u16, String, Option<String>)>)
        ensures
            r@.map_values(|x: (u16, u16, String, Option<String>)| range_view(x)) == named_ranges_spec(self.groups@),
    {
        let mut entries: Vec<(u16, u16, String, Option<String>)> = Vec::new();
        let mut i: usize = 0;
        while i < self.groups.len()
            invariant
                i <= self.groups@.len(),
                entries@.map_values(|x: (u16, u16, String, Option<String>)| range_view(x)) == named_entries(self.groups@.take(i as int)),
            decreases self.groups@.len() - i,
        {
            assert(self.groups@.take(i + 1).drop_last() =~= self.groups@.take(i as int));
            let g = &self.groups[i];
            match &g.title {
                Some(name) => {
                    if g.tracks.len() > 0 {
                        let (lo, hi) = min_max_index(&g.tracks);
                        let e = (lo, hi, name.clone(), clone_opt_string(&g.full_width_title));
                        entries.push(e);
                        assert(entries@.map_values(|x: (u16, u16, String, Option<String>)| range_view(x)) =~= named_entries(self.groups@.take(i + 1)));
                    }
                },
                None => {},
            }
            i = i + 1;
        }
        assert(self.groups@.take(self.groups@.len() as int) =~= self.groups@);
        let r = sort_range_vec(&entries);
        assert(r@.map_values(|x: (u16, u16, String, Option<String>)| range_view(x)) =~= named_ranges_spec(self.groups@));
        r
    }

    /// All tracks, stably sorted by index.
    fn sorted_flat_tracks(&self) -> (r: Vec<Track>)
        ensures
            r@.map_values(|t: Track| t.view()) == sorted_tracks(self.groups@),
    {
        let all = tracks(self);
        let ghost flat = flat_tracks(self.groups@).map_values(|t: Track| t.view());
        let mut keys: Vec<u16> = Vec::new();
        let mut i: usize = 0;
        while i < all.len()
            invariant
                i <= all@.len(),
                all@.len() == flat_tracks(self.groups@).len(),
                forall|k: int| 0 <= k < all@.len() ==> *(#[trigger] all@[k]) == flat_tracks(self.groups@)[k],
                keys@.len() == i,
                forall|k: int| 0 <= k < i ==> (#[trigger] keys@[k]) == all@[k].index,
            decreases all@.len() - i,
        {
            keys.push(all[i].index);
            i = i + 1;
        }
        let order = stable_order(&keys);
        assert(int_keys(keys@) =~= Seq::new(flat.len(), |i: int| flat[i].0 as int));
        let mut r: Vec<Track> = Vec::new();
        let mut k: usize = 0;
        while k < order.len()
            invariant
                k <= order@.len(),
                order@.len() == all@.len(),
                all@.len() == flat_tracks(self.groups@).len(),
                flat == flat_tracks(self.groups@).map_values(|t: Track| t.view()),
                forall|m: int| 0 <= m < all@.len() ==> *(#[trigger] all@[m]) == flat_tracks(self.groups@)[m],
                int_keys(keys@) == Seq::new(flat.len(), |i: int| flat[i].0 as int),
                keys@.len() == all@.len(),
                forall|m: int| 0 <= m < order@.len() ==> (#[trigger] order@[m]) as int == sort_positions(
                    int_keys(keys@),
                    keys@.len() as int,
                )[m],
                forall|m: int| 0 <= m < order@.len() ==> (#[trigger] order@[m]) < keys@.len(),
                r@.len() == k,
                forall|m: int| 0 <= m < k ==> (#[trigger] r@[m]).view() == sorted_tracks(self.groups@)[m],
            decreases order@.len() - k,
        {
            let p = order[k];
            r.push(all[p].duplicate());
            k = k + 1;
        }
        assert(r@.map_values(|t: Track| t.view()) =~= sorted_tracks(self.groups@));
        r
    }
}

/// Position of the first named group numbered `idx`, searching from `k` on.
pub open spec fn find_named_from(gs: Seq<Group>, idx: usize, k: int) -> Option<int>
    decreases gs.len() - k,
{
    if k < 0 || k >= gs.len() {
        None
    } else if gs[k].index == idx && gs[k].title is Some {
        Some(k)
    } else {
        find_named_from(gs, idx, k + 1)
    }
}

/// Position of the first named group numbered `idx`.
pub open spec fn find_named(gs: Seq<Group>, idx: usize) -> Option<int> {
    find_named_from(gs, idx, 0)
}

/// The ranges whose first track is not `first`.
pub open spec fn ranges_without(rs: Seq<(u16, u16, Seq<char>, Option<Seq<char>>)>, first: Option<u16>) -> Seq<
    (u16, u16, Seq<char>, Option<Seq<char>>),
>
    decreases rs.len(),
{
    if rs.len() == 0 {
        rs
    } else if first == Some(rs.last().0) {
        ranges_without(rs.drop_last(), first)
    } else {
        ranges_without(rs.drop_last(), first).push(rs.last())
    }
}

/// The smallest track index of a group, if it has tracks.
pub open spec fn first_track(g: Group) -> Option<u16> {
    if g.tracks@.len() > 0 {
        Some(min_index(g.tracks@) as u16)
    } else {
        None
    }
}

/// Whether two listings agree on everything but their groups.
pub open spec fn same_but_groups(a: Disc, b: Disc) -> bool {
    &&& a.title == b.title
    &&& a.full_width_title == b.full_width_title
    &&& a.writable == b.writable
    &&& a.write_protected == b.write_protected
    &&& a.used == b.used
    &&& a.left == b.left
    &&& a.total == b.total
    &&& a.track_count == b.track_count
}

proof fn lemma_find_named_bounds(gs: Seq<Group>, idx: usize, k: int)
    requires
        k >= 0,
    ensures
        find_named_from(gs, idx, k) matches Some(i) ==> k <= i < gs.len() && gs[i].index == idx
            && gs[i].title is Some,
    decreases gs.len() - k,
{
    if k < gs.len() {
        lemma_find_named_bounds(gs, idx, k + 1);
    }
}

fn find_named_exec(groups: &Vec<Group>, idx: usize) -> (r: Option<usize>)
    ensures
        r is None <==> find_named(groups@, idx) is None,
        r matches Some(i) ==> find_named(groups@, idx) == Some(i as int) && i < groups@.len(),
{
    proof {
        lemma_find_named_bounds(groups@, idx, 0);
    }
    let mut k: usize = 0;
    while k < groups.len()
        invariant
            k <= groups@.len(),
            find_named(groups@, idx) == find_named_from(groups@, idx, k as int),
        decreases groups@.len() - k,
    {
        if groups[k].index == idx && groups[k].title.is_some() {
            return Some(k);
        }
        k = k + 1;
    }
    None
}

impl Disc {
    /// Replaces the groups by those rebuilt from `named` (see [`rebuild_spec`]).
    fn rebuild(&mut self, named: Vec<(u16, u16, String, Option<String>)>)
        ensures
            final(self).groups@.map_values(|g: Group| group_view(g)) == rebuild_spec(
                named@.map_values(|x: (u16, u16, String, Option<String>)| range_view(x)),
                old(self).groups@,
            ),
            same_but_groups(*final(self), *old(self)),
    {
        let ghost ranges = named@.map_values(|x: (u16, u16, String, Option<String>)| range_view(x));
        let sorted = sort_range_vec(&named);
        let ghost sr = sort_ranges(ranges);
        assert(sorted@.map_values(|x: (u16, u16, String, Option<String>)| range_view(x)) =~= sr);
        let flat = self.sorted_flat_tracks();
        let ghost fl = sorted_tracks(self.groups@);
        let mut loose: Vec<Track> = Vec::new();
        let mut i: usize = 0;
        while i < flat.len()
            invariant
                i <= flat@.len(),
                flat@.map_values(|t: Track| t.view()) == fl,
                sorted@.map_values(|x: (u16, u16, String, Option<String>)| range_view(x)) == sr,
                loose@.map_values(|t: Track| t.view()) == uncovered_tracks(fl.take(i as int), sr),
            decreases flat@.len() - i,
        {
            assert(fl.take(i + 1).drop_last() =~= fl.take(i as int));
            assert(fl.take(i + 1).last() == flat@[i as int].view());
            if !is_covered(flat[i].index, &sorted) {
                loose.push(flat[i].duplicate());
            }
            assert(loose@.map_values(|t: Track| t.view()) =~= uncovered_tracks(fl.take(i + 1), sr));
            i = i + 1;
        }
        assert(fl.take(fl.len() as int) =~= fl);
        let mut groups: Vec<Group> = Vec::new();
        let head: usize = if loose.len() > 0 {
            1
        } else {
            0
        };
        let ghost loose_v = loose@.map_values(|t: Track| t.view());
        if loose.len() > 0 {
            groups.push(Group { index: 0, title: None, full_width_title: None, tracks: loose });
        }
        let ghost head_v = if loose_v.len() > 0 {
            seq![(0usize, None::<Seq<char>>, None::<Seq<char>>, loose_v)]
        } else {
            Seq::empty()
        };
        assert(groups@.map_values(|g: Group| group_view(g)) =~= head_v);
        let mut k: usize = 0;
        while k < sorted.len()
            invariant
                k <= sorted@.len(),
                head == head_v.len(),
                flat@.map_values(|t: Track| t.view()) == fl,
                sorted@.map_values(|x: (u16, u16, String, Option<String>)| range_view(x)) == sr,
                groups@.len() == head + k,
                forall|m: int| 0 <= m < head ==> group_view(#[trigger] groups@[m]) == head_v[m],
                forall|m: int| 0 <= m < k ==> group_view(#[trigger] groups@[head + m]) == (
                    (head + m) as usize,
                    Some(sr[m].2),
                    sr[m].3,
                    tracks_in(fl, sr[m].0, sr[m].1),
                ),
            decreases sorted@.len() - k,
        {
            let r = &sorted[k];
            assert(range_view(*r) == sr[k as int]);
            let mut members: Vec<Track> = Vec::new();
            let mut j: usize = 0;
            while j < flat.len()
                invariant
                    j <= flat@.len(),
                    flat@.map_values(|t: Track| t.view()) == fl,
                    members@.map_values(|t: Track| t.view()) == tracks_in(fl.take(j as int), r.0, r.1),
                decreases flat@.len() - j,
            {
                assert(fl.take(j + 1).drop_last() =~= fl.take(j as int));
                assert(fl.take(j + 1).last() == flat@[j as int].view());
                if r.0 <= flat[j].index && flat[j].index <= r.1 {
                    members.push(flat[j].duplicate());
                }
                assert(members@.map_values(|t: Track| t.view()) =~= tracks_in(fl.take(j + 1), r.0, r.1));
                j = j + 1;
            }
            assert(fl.take(fl.len() as int) =~= fl);
            let g = Group {
                index: groups.len(),
                title: Some(r.2.clone()),
                full_width_title: clone_opt_string(&r.3),
                tracks: members,
            };
            groups.push(g);
            k = k + 1;
        }
        assert(groups@.map_values(|g: Group| group_view(g)) =~= rebuild_spec(ranges, self.groups@));
        self.groups = groups;
    }

    /// Makes the 0-based tracks `first..=last` a new group named `name`.
    /// Refused when `first > last`, when `last` is past the last track, or
    /// when the range overlaps a named group.
    pub fn add_group(&mut self, first: u16, last: u16, name: String, full_name: Option<String>) -> (r: Result<
        (),
        NetMDError,
    >)
        ensures
            ({
                let refused = first > last || last >= old(self).track_count || exists|k: int|
                    0 <= k < named_ranges_spec(old(self).groups@).len() && overlaps(
                        first,
                        last,
                        #[trigger] named_ranges_spec(old(self).groups@)[k],
                    );
                &&& refused ==> (r matches Err(e) && e == NetMDError::UnexpectedResponse && *final(self) == *old(self))
                &&& !refused ==> (r is Ok && final(self).groups@.map_values(|g: Group| group_view(g))
                    == rebuild_spec(
                    named_ranges_spec(old(self).groups@).push((first, last, name@, opt_view(full_name))),
                    old(self).groups@,
                ) && same_but_groups(*final(self), *old(self)))
            }),
    {
        if first > last {
            return Err(NetMDError::UnexpectedResponse);
        }
        if last as usize >= self.track_count as usize {
            return Err(NetMDError::UnexpectedResponse);
        }
        let mut ranges = self.named_ranges();
        let ghost rs = named_ranges_spec(self.groups@);
        let mut i: usize = 0;
        while i < ranges.len()
            invariant
                *self == *old(self),
                rs == named_ranges_spec(old(self).groups@),
                i <= ranges@.len(),
                ranges@.map_values(|x: (u16, u16, String, Option<String>)| range_view(x)) == rs,
                forall|k: int| 0 <= k < i ==> !overlaps(first, last, #[trigger] rs[k]),
            decreases ranges@.len() - i,
        {
            assert(range_view(ranges@[i as int]) == rs[i as int]);
            if first <= ranges[i].1 && ranges[i].0 <= last {
                return Err(NetMDError::UnexpectedResponse);
            }
            i = i + 1;
        }
        let ghost new_range = (first, last, name@, opt_view(full_name));
        ranges.push((first, last, name, full_name));
        assert(ranges@.map_values(|x: (u16, u16, String, Option<String>)| range_view(x)) =~= rs.push(new_range));
        self.rebuild(ranges);
        Ok(())
    }

    /// Renames the named group numbered `group_index`; a `full_name` of
    /// `None` keeps its full-width name. Refused when there is no such group.
    pub fn rename_group(&mut self, group_index: usize, name: String, full_name: Option<String>) -> (r: Result<
        (),
        NetMDError,
    >)
        ensures
            match find_named(old(self).groups@, group_index) {
                None => r matches Err(e) && e == NetMDError::UnexpectedResponse && *final(self) == *old(self),
                Some(k) => r is Ok && same_but_groups(*final(self), *old(self)) && final(self).groups@.len()
                    == old(self).groups@.len() && (forall|j: int|
                    0 <= j < old(self).groups@.len() && j != k ==> #[trigger] final(self).groups@[j]
                        == old(self).groups@[j]) && group_view(final(self).groups@[k]) == (
                    old(self).groups@[k].index,
                    Some(name@),
                    if full_name is Some {
                        opt_view(full_name)
                    } else {
                        opt_view(old(self).groups@[k].full_width_title)
                    },
                    old(self).groups@[k].tracks@.map_values(|t: Track| t.view()),
                ),
            },
    {
        let k = match find_named_exec(&self.groups, group_index) {
            Some(k) => k,
            None => {
                return Err(NetMDError::UnexpectedResponse);
            },
        };
        let mut groups: Vec<Group> = Vec::new();
        std::mem::swap(&mut groups, &mut self.groups);
        let mut g = groups.remove(k);
        g.title = Some(name);
        if full_name.is_some() {
            g.full_width_title = full_name;
        }
        groups.insert(k, g);
        self.groups = groups;
        Ok(())
    }

    /// Dissolves the named group numbered `group_index`: its tracks return
    /// to the bucket of ungrouped tracks. Refused when there is no such group.
    pub fn remove_group(&mut self, group_index: usize) -> (r: Result<(), NetMDError>)
        ensures
            match find_named(old(self).groups@, group_index) {
                None => r matches Err(e) && e == NetMDError::UnexpectedResponse && *final(self) == *old(self),
                Some(k) => r is Ok && same_but_groups(*final(self), *old(self)) && final(self).groups@.map_values(
                    |g: Group| group_view(g),
                ) == rebuild_spec(
                    ranges_without(named_ranges_spec(old(self).groups@), first_track(old(self).groups@[k])),
                    old(self).groups@,
                ),
            },
    {
        let k = match find_named_exec(&self.groups, group_index) {
            Some(k) => k,
            None => {
                return Err(NetMDError::UnexpectedResponse);
            },
        };
        let target: Option<u16> = if self.groups[k].tracks.len() > 0 {
            let (lo, _hi) = min_max_index(&self.groups[k].tracks);
            Some(lo)
        } else {
            None
        };
        let all = self.named_ranges();
        let ghost rs = named_ranges_spec(self.groups@);
        let mut kept: Vec<(u16, u16, String, Option<String>)> = Vec::new();
        let mut i: usize = 0;
        assert(target == first_track(old(self).groups@[k as int]));
        while i < all.len()
            invariant
                *self == *old(self),
                k < old(self).groups@.len(),
                rs == named_ranges_spec(old(self).groups@),
                target == first_track(old(self).groups@[k as int]),
                i <= all@.len(),
                all@.map_values(|x: (u16, u16, String, Option<String>)| range_view(x)) == rs,
                kept@.map_values(|x: (u16, u16, String, Option<String>)| range_view(x)) == ranges_without(rs.take(i as int), target),
            decreases all@.len() - i,
        {
            assert(rs.take(i + 1).drop_last() =~= rs.take(i as int));
            assert(rs.take(i + 1).last() == range_view(all@[i as int]));
            if target != Some(all[i].0) {
                kept.push(clone_range(&all[i]));
            }
            assert(kept@.map_values(|x: (u16, u16, String, Option<String>)| range_view(x)) =~= ranges_without(rs.take(i + 1), target));
            i = i + 1;
        }
        assert(rs.take(rs.len() as int) =~= rs);
        self.rebuild(kept);
        Ok(())
    }
}


} // verus!
