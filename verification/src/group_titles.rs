//! Reading back the group structure that the compiled disc titles carry.
//!
//! `compile_disc_titles` writes each named group as a `<range>;<name>//`
//! entry of the half-width disc title (and a `<range>；<name>／／` entry of
//! the full-width one), and `parse_track_group_list` reads those entries
//! back. This module states and proves that the reading gives back the
//! named groups of the listing, with their names, full-width names and
//! tracks.

use vstd::prelude::*;
use crate::chars::{
    contains_seq, dec_spec, digit_spec, find_seq, lemma_dec_digits, lemma_digit_chars,
    lemma_find_bounds, lemma_find_concat, lemma_find_first, lemma_parse_dec, matches_at,
    parse_u16_spec, split_seq, starts_with_seq,
};
use crate::groups::{
    ceil7, compile_fold, free_chars, listing_suffix, zero_entry, compile_range, compile_spec, full_width_name_spec, group_fold, group_step,
    is_group_piece, mark_span, min_index, opt_chars, opt_seq, parse_groups_spec, piece_effect,
    piece_name, piece_range, range_ends, remaining_spec, sep_full, sep_half, track_span, unassigned,
    uses_full_width,
};
use crate::title::{full_width_range_char, full_width_range_spec, half_width_length_spec, utf16_len_spec};
use crate::types::{Disc, Group, Track};

verus! {

/// Whether every `c` of `s` is followed by a character other than `c`,
/// that is, `s` holds no `cc` and does not end in `c`.
pub open spec fn sep_safe(s: Seq<char>, c: char) -> bool {
    forall|i: int| 0 <= i < s.len() && #[trigger] s[i] == c ==> i + 1 < s.len() && s[i + 1] != c
}

/// Whether `s` holds no `//` and does not end in `/`.
pub open spec fn slash_safe(s: Seq<char>) -> bool {
    sep_safe(s, '/')
}

/// Two safe texts make a safe text.
pub proof fn lemma_sep_safe_concat(a: Seq<char>, b: Seq<char>, c: char)
    requires
        sep_safe(a, c),
        sep_safe(b, c),
    ensures
        sep_safe(a + b, c),
{
    let s = a + b;
    assert forall|i: int| 0 <= i < s.len() && #[trigger] s[i] == c implies i + 1 < s.len() && s[i + 1] != c by {
        if i < a.len() {
            assert(s[i] == a[i]);
            assert(s[i + 1] == a[i + 1]);
        } else {
            assert(s[i] == b[i - a.len()]);
            assert(s[i + 1] == b[i + 1 - a.len()]);
        }
    }
}

/// Splitting `p` `cc` `rest` at `cc`, for a safe `p`, gives `p` first.
proof fn lemma_split_front(p: Seq<char>, rest: Seq<char>, c: char)
    requires
        sep_safe(p, c),
    ensures
        split_seq(p + seq![c, c] + rest, seq![c, c]) == seq![p] + split_seq(rest, seq![c, c]),
{
    let sep = seq![c, c];
    let tail = sep + rest;
    let s = p + tail;
    assert(p + sep + rest =~= s);
    assert forall|i: int| 0 <= i < p.len() implies !matches_at(p + tail, i, sep) by {
        if matches_at(s, i, sep) {
            assert(s.subrange(i, i + 2)[0] == s[i]);
            assert(s.subrange(i, i + 2)[1] == s[i + 1]);
            assert(s[i] == p[i]);
            if i + 1 < p.len() {
                assert(s[i + 1] == p[i + 1]);
            }
        }
    }
    lemma_find_concat(p, tail, sep);
    assert(tail.take(2) =~= sep);
    assert(find_seq(tail, sep) == Some(0int));
    assert(find_seq(s, sep) == Some(p.len() as int));
    assert(s.take(p.len() as int) =~= p);
    assert(s.skip(p.len() as int + 2) =~= rest);
}

/// Texts each followed by `cc`, one after another.
pub open spec fn joined(ps: Seq<Seq<char>>, c: char) -> Seq<char>
    decreases ps.len(),
{
    if ps.len() == 0 {
        Seq::empty()
    } else {
        ps[0] + seq![c, c] + joined(ps.drop_first(), c)
    }
}

/// Adding a text at the end of the list adds it, and `cc`, at the end.
proof fn lemma_joined_push(ps: Seq<Seq<char>>, x: Seq<char>, c: char)
    ensures
        joined(ps.push(x), c) == joined(ps, c) + x + seq![c, c],
    decreases ps.len(),
{
    if ps.len() == 0 {
        assert(ps.push(x).drop_first() =~= Seq::<Seq<char>>::empty());
        assert(joined(Seq::<Seq<char>>::empty(), c) == Seq::<char>::empty());
        assert(x + seq![c, c] + Seq::<char>::empty() =~= Seq::<char>::empty() + x + seq![c, c]);
    } else {
        lemma_joined_push(ps.drop_first(), x, c);
        assert(ps.push(x).drop_first() =~= ps.drop_first().push(x));
        assert(ps.push(x)[0] == ps[0]);
        assert(ps[0] + seq![c, c] + (joined(ps.drop_first(), c) + x + seq![c, c]) =~= ps[0] + seq![c, c]
            + joined(ps.drop_first(), c) + x + seq![c, c]);
    }
}

/// Splitting joined safe texts at `cc` gives them back, and an empty last
/// piece.
proof fn lemma_split_joined(ps: Seq<Seq<char>>, c: char)
    requires
        forall|k: int| 0 <= k < ps.len() ==> sep_safe(#[trigger] ps[k], c),
    ensures
        split_seq(joined(ps, c), seq![c, c]) == ps.push(Seq::<char>::empty()),
    decreases ps.len(),
{
    if ps.len() == 0 {
        assert(split_seq(Seq::<char>::empty(), seq![c, c]) == seq![Seq::<char>::empty()]);
        assert(ps.push(Seq::<char>::empty()) =~= seq![Seq::<char>::empty()]);
    } else {
        let rest = ps.drop_first();
        assert forall|k: int| 0 <= k < rest.len() implies sep_safe(#[trigger] rest[k], c) by {
            assert(rest[k] == ps[k + 1]);
        }
        lemma_split_joined(rest, c);
        assert(sep_safe(ps[0], c));
        lemma_split_front(ps[0], joined(rest, c), c);
        assert(seq![ps[0]] + rest.push(Seq::<char>::empty()) =~= ps.push(Seq::<char>::empty()));
    }
}

/// Whether a group of a listing gets an entry: it has a name and tracks.
pub open spec fn is_named(g: Group) -> bool {
    g.title is Some && g.tracks@.len() > 0
}

/// The entry of a named group without its `//`: `<range>;<name>`.
pub open spec fn group_piece(g: Group) -> Seq<char> {
    compile_range(g) + seq![';'] + opt_chars(g.title)
}

/// The entries of the named groups of a listing, in order.
pub open spec fn group_pieces(gs: Seq<Group>) -> Seq<Seq<char>>
    decreases gs.len(),
{
    if gs.len() == 0 {
        Seq::empty()
    } else if is_named(gs.last()) {
        group_pieces(gs.drop_last()).push(group_piece(gs.last()))
    } else {
        group_pieces(gs.drop_last())
    }
}

/// The half-width disc title that holds the disc title entry and every
/// group entry; the plain disc title when no group is named.
pub open spec fn full_half_title(d: Disc) -> Seq<char> {
    let ps = group_pieces(d.groups@);
    if ps.len() == 0 {
        d.title@
    } else if d.title@.len() > 0 {
        seq!['0', ';'] + d.title@ + sep_half() + joined(ps, '/')
    } else {
        joined(ps, '/')
    }
}

/// Whether that title fits the half-width TOC next to the track titles.
pub open spec fn half_title_fits(d: Disc) -> bool {
    remaining_spec(Seq::empty(), Seq::empty(), d.groups@, false).0 >= ceil7(
        half_width_length_spec(full_half_title(d)),
    ) * 7
}

/// The half-width length of two texts one after the other is the sum of
/// their lengths.
proof fn lemma_half_width_concat(a: Seq<char>, b: Seq<char>)
    ensures
        half_width_length_spec(a + b) == half_width_length_spec(a) + half_width_length_spec(b),
    decreases b.len(),
{
    if b.len() == 0 {
        assert(a + b =~= a);
    } else {
        lemma_half_width_concat(a, b.drop_last());
        assert((a + b).drop_last() =~= a + b.drop_last());
        assert((a + b).last() == b.last());
    }
}

proof fn lemma_ceil7_mono(a: nat, b: nat)
    requires
        a <= b,
    ensures
        ceil7(a) <= ceil7(b),
{
    assert((a + 6) / 7 <= (b + 6) / 7) by (nonlinear_arith)
        requires
            a <= b,
    ;
}

/// Compiling counts one group per named group.
proof fn lemma_fold_count(gs: Seq<Group>, init: (Seq<char>, Seq<char>, nat), use_full: bool, ah: nat, af: nat)
    ensures
        compile_fold(gs, init, use_full, ah, af).2 == init.2 + group_pieces(gs).len(),
    decreases gs.len(),
{
    if gs.len() > 0 {
        lemma_fold_count(gs.drop_last(), init, use_full, ah, af);
    }
}

/// While the whole title fits, compiling keeps every group entry.
proof fn lemma_fold_half(gs: Seq<Group>, init: (Seq<char>, Seq<char>, nat), use_full: bool, ah: nat, af: nat)
    requires
        ah >= ceil7(half_width_length_spec(init.0 + joined(group_pieces(gs), '/'))) * 7,
    ensures
        compile_fold(gs, init, use_full, ah, af).0 == init.0 + joined(group_pieces(gs), '/'),
    decreases gs.len(),
{
    if gs.len() == 0 {
        assert(joined(Seq::<Seq<char>>::empty(), '/') == Seq::<char>::empty());
        assert(init.0 + Seq::<char>::empty() =~= init.0);
    } else {
        let g = gs.last();
        let ps = group_pieces(gs.drop_last());
        if is_named(g) {
            let x = group_piece(g);
            lemma_joined_push(ps, x, '/');
            let before = init.0 + joined(ps, '/');
            let after = init.0 + joined(ps.push(x), '/');
            assert(after =~= before + (x + sep_half()));
            lemma_half_width_concat(before, x + sep_half());
            lemma_ceil7_mono(half_width_length_spec(before), half_width_length_spec(after));
            lemma_fold_half(gs.drop_last(), init, use_full, ah, af);
            let prev = compile_fold(gs.drop_last(), init, use_full, ah, af);
            assert(prev.0 + compile_range(g) + seq![';'] + opt_chars(g.title) + seq!['/', '/'] =~= after);
        } else {
            lemma_fold_half(gs.drop_last(), init, use_full, ah, af);
        }
    }
}

/// When the half-width title fits, the compiled half-width title is the one
/// that holds every group entry.
pub proof fn lemma_compile_half(d: Disc)
    requires
        half_title_fits(d),
    ensures
        compile_spec(d).0 == full_half_title(d),
{
    let avail = remaining_spec(Seq::empty(), Seq::empty(), d.groups@, false);
    let use_full = uses_full_width(d);
    let init_raw = if d.title@.len() > 0 {
        seq!['0', ';'] + d.title@ + seq!['/', '/']
    } else {
        Seq::empty()
    };
    let init_full = if use_full {
        seq!['０', '；'] + d.full_width_title@ + seq!['／', '／']
    } else {
        Seq::empty()
    };
    let init = (init_raw, init_full, 0nat);
    lemma_fold_count(d.groups@, init, use_full, avail.0, avail.1);
    let ps = group_pieces(d.groups@);
    if ps.len() > 0 {
        if d.title@.len() > 0 {
            assert(init_raw + joined(ps, '/') =~= full_half_title(d));
        } else {
            assert(init_raw + joined(ps, '/') =~= full_half_title(d));
        }
        lemma_fold_half(d.groups@, init, use_full, avail.0, avail.1);
    }
}

/// Whether tracks are numbered one after another from the first.
pub open spec fn consecutive(ts: Seq<Track>) -> bool {
    forall|j: int| 0 <= j < ts.len() ==> #[trigger] ts[j].index == ts[0].index + j
}

/// The indices of tracks, in order.
pub open spec fn track_indices(ts: Seq<Track>) -> Seq<u16> {
    ts.map_values(|t: Track| t.index)
}

/// Whether the named groups of a listing can be written as group entries
/// and read back: each name is slash-safe, each group's tracks are numbered
/// one after another and lie below `count`, and no track is in two named
/// groups.
pub open spec fn groups_encodable(gs: Seq<Group>, count: u16) -> bool {
    &&& forall|i: int|
        0 <= i < gs.len() && is_named(#[trigger] gs[i]) ==> slash_safe(opt_chars(gs[i].title)) && consecutive(
            gs[i].tracks@,
        ) && gs[i].tracks@[0].index + gs[i].tracks@.len() <= count
    &&& forall|i: int, j: int, a: int, b: int|
        0 <= i < j < gs.len() && is_named(gs[i]) && is_named(gs[j]) && 0 <= a < gs[i].tracks@.len() && 0 <= b
            < gs[j].tracks@.len() ==> #[trigger] gs[i].tracks@[a].index != #[trigger] gs[j].tracks@[b].index
}

/// Which tracks below `count` a named group of the listing holds.
pub open spec fn named_mask(gs: Seq<Group>, count: u16) -> Seq<bool>
    decreases gs.len(),
{
    if gs.len() == 0 {
        Seq::new(count as nat, |t: int| false)
    } else {
        let m = named_mask(gs.drop_last(), count);
        if is_named(gs.last()) {
            Seq::new(count as nat, |t: int| m[t] || track_indices(gs.last().tracks@).contains(t as u16))
        } else {
            m
        }
    }
}

/// The name and tracks of each named group, in order.
pub open spec fn named_groups(gs: Seq<Group>) -> Seq<(Option<Seq<char>>, Seq<u16>)>
    decreases gs.len(),
{
    if gs.len() == 0 {
        Seq::empty()
    } else if is_named(gs.last()) {
        named_groups(gs.drop_last()).push((opt_seq(gs.last().title), track_indices(gs.last().tracks@)))
    } else {
        named_groups(gs.drop_last())
    }
}

/// What reading the group entries gives for each named group, its
/// full-width name (looked up in the full-width pieces `fw`) included.
spec fn read_groups(gs: Seq<Group>, fw: Seq<Seq<char>>) -> Seq<(Option<Seq<char>>, Option<Seq<char>>, Seq<u16>)>
    decreases gs.len(),
{
    if gs.len() == 0 {
        Seq::empty()
    } else if is_named(gs.last()) {
        let g = gs.last();
        read_groups(gs.drop_last(), fw).push(
            (
                opt_seq(g.title),
                full_width_name_spec(fw, full_width_range_spec(compile_range(g))),
                track_indices(g.tracks@),
            ),
        )
    } else {
        read_groups(gs.drop_last(), fw)
    }
}

/// The group list a listing should read back as, names and tracks: the
/// bucket of the tracks below `count` that no named group holds (when there
/// are any), then each named group.
pub open spec fn expected_groups(gs: Seq<Group>, count: u16) -> Seq<(Option<Seq<char>>, Seq<u16>)> {
    let rest = unassigned(named_mask(gs, count), count as int);
    if rest.len() > 0 {
        seq![(None::<Seq<char>>, rest)] + named_groups(gs)
    } else {
        named_groups(gs)
    }
}

/// The names and tracks of a group list read from the titles.
pub open spec fn names_and_tracks(gl: Seq<(Option<Seq<char>>, Option<Seq<char>>, Seq<u16>)>) -> Seq<
    (Option<Seq<char>>, Seq<u16>),
> {
    gl.map_values(|g: (Option<Seq<char>>, Option<Seq<char>>, Seq<u16>)| (g.0, g.2))
}

/// The first of consecutive tracks has the smallest index.
proof fn lemma_min_consecutive(ts: Seq<Track>)
    requires
        ts.len() > 0,
        consecutive(ts),
    ensures
        min_index(ts) == ts[0].index,
    decreases ts.len(),
{
    if ts.len() > 1 {
        let p = ts.drop_last();
        assert forall|j: int| 0 <= j < p.len() implies #[trigger] p[j].index == p[0].index + j by {
            assert(p[j] == ts[j]);
            assert(ts[j].index == ts[0].index + j);
        }
        lemma_min_consecutive(p);
        assert(ts[ts.len() - 1].index == ts[0].index + ts.len() - 1);
    }
}

/// A text without `c` has no match of `c`.
proof fn lemma_no_char(s: Seq<char>, c: char)
    requires
        forall|i: int| 0 <= i < s.len() ==> s[i] != c,
    ensures
        find_seq(s, seq![c]) is None,
{
    lemma_find_bounds(s, seq![c]);
    if let Some(i) = find_seq(s, seq![c]) {
        assert(s.subrange(i, i + 1)[0] == s[i]);
    }
}

/// A character of a range entry: a decimal digit or `-`.
pub open spec fn range_char(c: char) -> bool {
    c == '-' || ('0' <= c && c <= '9')
}

/// The range entry of a named group reads back as its first and last track
/// (1-based), and holds only digits and `-`, starting with a non-zero digit.
proof fn lemma_range_parts(g: Group, count: u16)
    requires
        is_named(g),
        consecutive(g.tracks@),
        g.tracks@[0].index + g.tracks@.len() <= count,
    ensures
        compile_range(g).len() > 0,
        '1' <= compile_range(g)[0] && compile_range(g)[0] <= '9',
        forall|i: int| 0 <= i < compile_range(g).len() ==> range_char(#[trigger] compile_range(g)[i]),
        parse_u16_spec(range_ends(compile_range(g)).0) == Some((g.tracks@[0].index + 1) as u16),
        parse_u16_spec(range_ends(compile_range(g)).1) == Some((g.tracks@[0].index + g.tracks@.len()) as u16),
{
    let ts = g.tracks@;
    lemma_min_consecutive(ts);
    let lo = ts[0].index as nat;
    let n = ts.len();
    let a = dec_spec(lo + 1);
    let b = dec_spec(lo + n);
    lemma_dec_digits(lo + 1);
    lemma_dec_digits(lo + n);
    lemma_parse_dec(lo + 1);
    lemma_parse_dec(lo + n);
    let r = compile_range(g);
    if n != 1 {
        let dash = seq!['-'];
        assert(r == a + dash + b);
        assert(r =~= a + (dash + b));
        assert forall|i: int| 0 <= i < r.len() implies range_char(#[trigger] r[i]) by {
            if i < a.len() {
                assert(r[i] == a[i]);
                assert(digit_spec(a[i]) is Some);
            } else if i > a.len() {
                assert(r[i] == b[i - a.len() - 1]);
                assert(digit_spec(b[i - a.len() - 1]) is Some);
            }
        }
        assert forall|i: int| 0 <= i < a.len() implies !matches_at(a + (dash + b), i, dash) by {
            lemma_digit_chars(a, i);
            if matches_at(r, i, dash) {
                assert(r.subrange(i, i + 1)[0] == r[i]);
            }
        }
        lemma_find_concat(a, dash + b, dash);
        assert((dash + b).take(1) =~= dash);
        assert(find_seq(dash + b, dash) == Some(0int));
        assert(range_ends(r).0 =~= a);
        assert(range_ends(r).1 =~= b);
        assert(r[0] == a[0]);
        assert(digit_spec(a[0]) is Some);
    } else {
        assert(r == a);
        assert forall|i: int| 0 <= i < r.len() implies range_char(#[trigger] r[i]) by {
            assert(digit_spec(a[i]) is Some);
        }
        assert(digit_spec(a[0]) is Some);
        assert forall|i: int| 0 <= i < r.len() implies r[i] != '-' by {
            lemma_digit_chars(a, i);
        }
        lemma_no_char(r, '-');
    }
}

/// What the entry of a named group does when it is read: it gives the
/// group's name and tracks and marks those tracks, provided none of them
/// was marked before.
proof fn lemma_piece_effect_named(g: Group, fw: Seq<Seq<char>>, count: u16, m: Seq<bool>)
    requires
        is_named(g),
        consecutive(g.tracks@),
        g.tracks@[0].index + g.tracks@.len() <= count,
        m.len() == count,
        forall|t: int| g.tracks@[0].index <= t < g.tracks@[0].index + g.tracks@.len() ==> !m[t],
    ensures
        piece_effect(group_piece(g), true, fw, count, m) == Some(
            Some(
                (
                    (
                        opt_seq(g.title),
                        full_width_name_spec(fw, full_width_range_spec(compile_range(g))),
                        track_indices(g.tracks@),
                    ),
                    Seq::new(count as nat, |t: int| m[t] || track_indices(g.tracks@).contains(t as u16)),
                ),
            ),
        ),
{
    lemma_range_parts(g, count);
    let ts = g.tracks@;
    let lo = ts[0].index as int;
    let n = ts.len() as int;
    let r = compile_range(g);
    let name = opt_chars(g.title);
    let semi = seq![';'];
    let x = group_piece(g);
    assert(x =~= r + (semi + name));
    assert forall|i: int| 0 <= i < r.len() implies !matches_at(r + (semi + name), i, semi) by {
        if matches_at(x, i, semi) {
            assert(x.subrange(i, i + 1)[0] == x[i]);
            assert(x[i] == r[i]);
        }
    }
    lemma_find_concat(r, semi + name, semi);
    assert((semi + name).take(1) =~= semi);
    assert(find_seq(semi + name, semi) == Some(0int));
    assert(find_seq(x, semi) == Some(r.len() as int));
    if starts_with_seq(x, seq!['0', ';']) {
        assert(x.take(2)[0] == x[0]);
        assert(x[0] == r[0]);
    }
    assert(is_group_piece(x, true));
    assert(piece_range(x) =~= r);
    assert(piece_name(x) =~= name);
    assert(opt_seq(g.title) == Some(name));
    let idx = track_indices(ts);
    assert(track_span((lo + 1) as u16, (lo + n) as u16) =~= idx) by {
        assert forall|k: int| 0 <= k < n implies #[trigger] idx[k] == ((lo + 1) as u16 - 1 + k) as u16 by {
            assert(ts[k].index == ts[0].index + k);
        }
    }
    assert(mark_span(m, (lo + 1) as u16, (lo + n) as u16) =~= Seq::new(
        count as nat,
        |t: int| m[t] || idx.contains(t as u16),
    )) by {
        assert forall|t: int| 0 <= t < count implies (m[t] || ((lo + 1) as u16 - 1 <= t < (lo + n) as u16)) == (m[t]
            || #[trigger] idx.contains(t as u16)) by {
            if lo <= t < lo + n {
                assert(ts[t - lo].index == ts[0].index + (t - lo));
                assert(idx[t - lo] == t as u16);
            }
            if idx.contains(t as u16) {
                let k = choose|k: int| 0 <= k < idx.len() && idx[k] == t as u16;
                assert(ts[k].index == ts[0].index + k);
            }
        }
    }
}

proof fn lemma_mask_len(gs: Seq<Group>, count: u16)
    ensures
        named_mask(gs, count).len() == count,
    decreases gs.len(),
{
    if gs.len() > 0 {
        lemma_mask_len(gs.drop_last(), count);
    }
}

/// A marked track is held by a named group.
proof fn lemma_mask_holds(gs: Seq<Group>, count: u16, t: int)
    requires
        0 <= t < count,
        named_mask(gs, count)[t],
    ensures
        exists|i: int, a: int|
            0 <= i < gs.len() && is_named(gs[i]) && 0 <= a < gs[i].tracks@.len() && #[trigger] gs[i].tracks@[a].index
                == t,
    decreases gs.len(),
{
    lemma_mask_len(gs, count);
    let g = gs.last();
    let m = named_mask(gs.drop_last(), count);
    lemma_mask_len(gs.drop_last(), count);
    if is_named(g) && !m[t] {
        let idx = track_indices(g.tracks@);
        assert(idx.contains(t as u16));
        let a = choose|a: int| 0 <= a < idx.len() && idx[a] == t as u16;
        assert(gs[gs.len() - 1].tracks@[a].index == t);
    } else {
        lemma_mask_holds(gs.drop_last(), count, t);
        let (i, a) = choose|i: int, a: int|
            0 <= i < gs.drop_last().len() && is_named(gs.drop_last()[i]) && 0 <= a < gs.drop_last()[i].tracks@.len()
                && #[trigger] gs.drop_last()[i].tracks@[a].index == t;
        assert(gs[i] == gs.drop_last()[i]);
        assert(gs[i].tracks@[a].index == t);
    }
}

/// Dropping the last group keeps a listing encodable.
proof fn lemma_encodable_prefix(gs: Seq<Group>, count: u16)
    requires
        gs.len() > 0,
        groups_encodable(gs, count),
    ensures
        groups_encodable(gs.drop_last(), count),
{
    let p = gs.drop_last();
    assert forall|i: int| 0 <= i < p.len() && is_named(#[trigger] p[i]) implies slash_safe(opt_chars(p[i].title))
        && consecutive(p[i].tracks@) && p[i].tracks@[0].index + p[i].tracks@.len() <= count by {
        assert(p[i] == gs[i]);
    }
    assert forall|i: int, j: int, a: int, b: int|
        0 <= i < j < p.len() && is_named(p[i]) && is_named(p[j]) && 0 <= a < p[i].tracks@.len() && 0 <= b
            < p[j].tracks@.len() implies #[trigger] p[i].tracks@[a].index != #[trigger] p[j].tracks@[b].index by {
        assert(p[i] == gs[i]);
        assert(p[j] == gs[j]);
    }
}

/// Reading the entries of the named groups, after at most one piece that is
/// no group entry, gives each named group and marks its tracks.
proof fn lemma_fold_pieces(pre: Seq<Seq<char>>, gs: Seq<Group>, fw: Seq<Seq<char>>, count: u16)
    requires
        pre.len() <= 1,
        pre.len() == 1 ==> !is_group_piece(pre[0], true),
        groups_encodable(gs, count),
    ensures
        group_fold(pre + group_pieces(gs), true, fw, count) == Some((read_groups(gs, fw), named_mask(gs, count))),
    decreases gs.len(),
{
    if gs.len() == 0 {
        assert(pre + group_pieces(gs) =~= pre);
        if pre.len() == 1 {
            assert(pre.drop_last() =~= Seq::<Seq<char>>::empty());
            let st0 = group_fold(Seq::<Seq<char>>::empty(), true, fw, count);
            assert(group_fold(pre, true, fw, count) == group_step(st0, pre[0], true, fw, count));
        }
    } else {
        let g = gs.last();
        let gs0 = gs.drop_last();
        lemma_encodable_prefix(gs, count);
        lemma_fold_pieces(pre, gs0, fw, count);
        if is_named(g) {
            let x = group_piece(g);
            let q0 = pre + group_pieces(gs0);
            assert(pre + group_pieces(gs) =~= q0.push(x));
            assert(q0.push(x).drop_last() =~= q0);
            let m = named_mask(gs0, count);
            lemma_mask_len(gs0, count);
            let last = gs.len() - 1;
            assert(gs[last] == g);
            let lo = g.tracks@[0].index as int;
            let n = g.tracks@.len() as int;
            assert forall|t: int| lo <= t < lo + n implies !m[t] by {
                if m[t] {
                    lemma_mask_holds(gs0, count, t);
                    let (i, a) = choose|i: int, a: int|
                        0 <= i < gs0.len() && is_named(gs0[i]) && 0 <= a < gs0[i].tracks@.len()
                            && #[trigger] gs0[i].tracks@[a].index == t;
                    assert(gs[i] == gs0[i]);
                    assert(g.tracks@[t - lo].index == g.tracks@[0].index + (t - lo));
                    assert(gs[i].tracks@[a].index != gs[last].tracks@[t - lo].index);
                }
            }
            lemma_piece_effect_named(g, fw, count, m);
            assert(group_fold(q0.push(x), true, fw, count) == group_step(
                group_fold(q0, true, fw, count),
                x,
                true,
                fw,
                count,
            ));
        } else {
            assert(group_pieces(gs) == group_pieces(gs0));
        }
    }
}

/// In a title without group entries every piece is skipped.
proof fn lemma_fold_no_groups(ps: Seq<Seq<char>>, fw: Seq<Seq<char>>, count: u16)
    ensures
        group_fold(ps, false, fw, count) == Some(
            (Seq::<(Option<Seq<char>>, Option<Seq<char>>, Seq<u16>)>::empty(), Seq::new(count as nat, |t: int| false)),
        ),
    decreases ps.len(),
{
    if ps.len() > 0 {
        lemma_fold_no_groups(ps.drop_last(), fw, count);
    }
}

/// A listing without named groups marks nothing and names nothing.
proof fn lemma_no_named(gs: Seq<Group>, fw: Seq<Seq<char>>, count: u16)
    requires
        group_pieces(gs).len() == 0,
    ensures
        named_mask(gs, count) == Seq::new(count as nat, |t: int| false),
        named_groups(gs) == Seq::<(Option<Seq<char>>, Seq<u16>)>::empty(),
    decreases gs.len(),
{
    if gs.len() > 0 {
        lemma_no_named(gs.drop_last(), fw, count);
    }
}

/// The names and tracks of what is read are those of the named groups.
proof fn lemma_read_names(gs: Seq<Group>, fw: Seq<Seq<char>>)
    ensures
        names_and_tracks(read_groups(gs, fw)) == named_groups(gs),
    decreases gs.len(),
{
    if gs.len() > 0 {
        lemma_read_names(gs.drop_last(), fw);
        let r0 = read_groups(gs.drop_last(), fw);
        if is_named(gs.last()) {
            let g = gs.last();
            let e = (
                opt_seq(g.title),
                full_width_name_spec(fw, full_width_range_spec(compile_range(g))),
                track_indices(g.tracks@),
            );
            assert(names_and_tracks(r0.push(e)) =~= names_and_tracks(r0).push((e.0, e.2)));
        }
    }
}

/// The entries of an encodable listing are slash-safe.
proof fn lemma_pieces_safe(gs: Seq<Group>, count: u16)
    requires
        groups_encodable(gs, count),
    ensures
        forall|k: int| 0 <= k < group_pieces(gs).len() ==> slash_safe(#[trigger] group_pieces(gs)[k]),
    decreases gs.len(),
{
    if gs.len() > 0 {
        lemma_encodable_prefix(gs, count);
        lemma_pieces_safe(gs.drop_last(), count);
        let g = gs.last();
        if is_named(g) {
            assert(gs[gs.len() - 1] == g);
            lemma_range_parts(g, count);
            let r = compile_range(g);
            assert(slash_safe(r));
            assert(slash_safe(seq![';']));
            lemma_sep_safe_concat(r, seq![';'], '/');
            lemma_sep_safe_concat(r + seq![';'], opt_chars(g.title), '/');
            let p0 = group_pieces(gs.drop_last());
            assert forall|k: int| 0 <= k < group_pieces(gs).len() implies slash_safe(#[trigger] group_pieces(gs)[k]) by {
                if k < p0.len() {
                    assert(group_pieces(gs)[k] == p0[k]);
                }
            }
        }
    }
}

/// The bucket of the tracks below `count` that no named group holds, as a
/// group list of one entry, or of none when every track is held.
spec fn bucket(gs: Seq<Group>, count: u16) -> Seq<(Option<Seq<char>>, Option<Seq<char>>, Seq<u16>)> {
    let rest = unassigned(named_mask(gs, count), count as int);
    if rest.len() > 0 {
        seq![(None::<Seq<char>>, None::<Seq<char>>, rest)]
    } else {
        Seq::empty()
    }
}

/// Reading the compiled half-width title, with a full-width title
/// `raw_full`, gives the bucket and then what reading each named group's
/// entry gives.
proof fn lemma_read_back_groups(d: Disc, raw_full: Seq<char>, count: u16)
    requires
        slash_safe(d.title@),
        groups_encodable(d.groups@, count),
        half_title_fits(d),
    ensures
        parse_groups_spec(compile_spec(d).0, raw_full, count) == Some(
            bucket(d.groups@, count) + read_groups(d.groups@, split_seq(raw_full, sep_full())),
        ),
{
    lemma_compile_half(d);
    let raw = full_half_title(d);
    let gs = d.groups@;
    let ps = group_pieces(gs);
    let fw = split_seq(raw_full, sep_full());
    let sep = sep_half();
    let empty3 = Seq::<(Option<Seq<char>>, Option<Seq<char>>, Seq<u16>)>::empty();
    if ps.len() == 0 {
        lemma_find_bounds(raw, sep);
        if let Some(i) = find_seq(raw, sep) {
            assert(raw.subrange(i, i + 2)[0] == raw[i]);
            assert(raw.subrange(i, i + 2)[1] == raw[i + 1]);
        }
        assert(!contains_seq(raw, sep));
        lemma_fold_no_groups(split_seq(raw, sep), fw, count);
        lemma_no_named(gs, fw, count);
        lemma_no_read(gs, fw);
        assert(bucket(gs, count) + empty3 =~= bucket(gs, count));
        let rest = unassigned(Seq::new(count as nat, |t: int| false), count as int);
        let none3 = (None::<Seq<char>>, None::<Seq<char>>, rest);
        assert(seq![none3] + empty3 =~= seq![none3]);
    } else {
        let t = d.title@;
        let z = seq!['0', ';'] + t;
        let pre = if t.len() > 0 {
            seq![z]
        } else {
            Seq::<Seq<char>>::empty()
        };
        let q = pre + ps;
        if t.len() > 0 {
            assert(q[0] == z);
            assert(q.drop_first() =~= ps);
            assert(raw =~= z + sep + joined(ps, '/'));
            assert(!is_group_piece(z, true)) by {
                assert(z.take(2) =~= seq!['0', ';']);
            }
        } else {
            assert(q =~= ps);
        }
        assert(joined(q, '/') == raw);
        lemma_pieces_safe(gs, count);
        assert(slash_safe(seq!['0', ';']));
        lemma_sep_safe_concat(seq!['0', ';'], t, '/');
        assert forall|k: int| 0 <= k < q.len() implies sep_safe(#[trigger] q[k], '/') by {
            if t.len() > 0 {
                if k > 0 {
                    assert(q[k] == ps[k - 1]);
                }
            } else {
                assert(q[k] == ps[k]);
            }
        }
        lemma_split_joined(q, '/');
        assert(q.len() > 0);
        assert(joined(q, '/') == q[0] + sep + joined(q.drop_first(), '/'));
        assert(matches_at(raw, q[0].len() as int, sep)) by {
            assert(raw.subrange(q[0].len() as int, q[0].len() as int + 2) =~= sep);
        }
        lemma_find_first(raw, sep, q[0].len() as int);
        let pieces = q.push(Seq::<char>::empty());
        assert(pieces.drop_last() =~= q);
        lemma_fold_pieces(pre, gs, fw, count);
        let rg = read_groups(gs, fw);
        let rest = unassigned(named_mask(gs, count), count as int);
        if rest.len() == 0 {
            assert(bucket(gs, count) + rg =~= rg);
        }
    }
}

/// Without named groups nothing is read.
proof fn lemma_no_read(gs: Seq<Group>, fw: Seq<Seq<char>>)
    requires
        group_pieces(gs).len() == 0,
    ensures
        read_groups(gs, fw) == Seq::<(Option<Seq<char>>, Option<Seq<char>>, Seq<u16>)>::empty(),
    decreases gs.len(),
{
    if gs.len() > 0 {
        lemma_no_read(gs.drop_last(), fw);
    }
}

/// Writing a listing's groups into the half-width disc title and reading
/// them back gives its named groups again: reading the title that
/// `compile_disc_titles` writes (with any full-width title) succeeds and
/// yields, names and tracks, the bucket of the tracks below `count` that no
/// named group holds (when there are any), then every named group in order
/// with its name and tracks. This holds when the disc title and the group
/// names hold no `//` and do not end in `/`, each named group's tracks are
/// numbered one after another and lie below `count`, no track is in two
/// named groups, and the half-width title fits the TOC.
pub proof fn lemma_compiled_groups_read_back(d: Disc, raw_full: Seq<char>, count: u16)
    requires
        slash_safe(d.title@),
        groups_encodable(d.groups@, count),
        half_title_fits(d),
    ensures
        parse_groups_spec(compile_spec(d).0, raw_full, count) matches Some(gl) && names_and_tracks(gl)
            == expected_groups(d.groups@, count),
{
    let gs = d.groups@;
    let fw = split_seq(raw_full, sep_full());
    lemma_read_back_groups(d, raw_full, count);
    lemma_read_names(gs, fw);
    let rg = read_groups(gs, fw);
    let rest = unassigned(named_mask(gs, count), count as int);
    if rest.len() > 0 {
        let none3 = (None::<Seq<char>>, None::<Seq<char>>, rest);
        assert(names_and_tracks(seq![none3] + rg) =~= seq![(None::<Seq<char>>, rest)] + names_and_tracks(rg));
    } else {
        assert(bucket(gs, count) + rg =~= rg);
    }
}

/// The full-width range entry of a named group.
pub open spec fn fw_range(g: Group) -> Seq<char> {
    full_width_range_spec(compile_range(g))
}

/// The full-width entry of a named group without its `／／`:
/// `<range>；<full-width name>`.
pub open spec fn fw_piece(g: Group) -> Seq<char> {
    fw_range(g) + seq!['；'] + opt_chars(g.full_width_title)
}

/// The full-width entries of the named groups of a listing, in order.
pub open spec fn fw_pieces(gs: Seq<Group>) -> Seq<Seq<char>>
    decreases gs.len(),
{
    if gs.len() == 0 {
        Seq::empty()
    } else if is_named(gs.last()) {
        fw_pieces(gs.drop_last()).push(fw_piece(gs.last()))
    } else {
        fw_pieces(gs.drop_last())
    }
}

/// The full-width disc title that holds the disc title entry and every
/// group entry; the plain full-width disc title when no group is named.
pub open spec fn full_full_title(d: Disc) -> Seq<char> {
    if group_pieces(d.groups@).len() == 0 {
        d.full_width_title@
    } else {
        seq!['０', '；'] + d.full_width_title@ + seq!['／', '／'] + joined(fw_pieces(d.groups@), '／')
    }
}

/// Whether that title fits the full-width TOC next to the track titles.
pub open spec fn full_title_fits(d: Disc) -> bool {
    remaining_spec(Seq::empty(), Seq::empty(), d.groups@, false).1 >= ceil7(
        utf16_len_spec(full_full_title(d)) * 2,
    ) * 7
}

/// Whether the full-width titles can be written and read back: the disc's
/// full-width title and the groups' full-width names hold no `／／` and do
/// not end in `／`, and no named group's range entry begins with the range
/// entry of a later named group (the later group's full-width name would be
/// looked up in the earlier entry).
pub open spec fn full_width_encodable(d: Disc) -> bool {
    let gs = d.groups@;
    &&& sep_safe(d.full_width_title@, '／')
    &&& forall|i: int|
        0 <= i < gs.len() && is_named(#[trigger] gs[i]) ==> sep_safe(opt_chars(gs[i].full_width_title), '／')
    &&& forall|i: int, j: int|
        0 <= i < j < gs.len() && is_named(gs[i]) && is_named(gs[j]) ==> !starts_with_seq(
            #[trigger] compile_range(gs[i]),
            #[trigger] compile_range(gs[j]),
        )
}

/// What each named group should read back as: its name, its full-width
/// name when the titles are also written in full width, and its tracks.
pub open spec fn named_groups_read(gs: Seq<Group>, full: bool) -> Seq<
    (Option<Seq<char>>, Option<Seq<char>>, Seq<u16>),
>
    decreases gs.len(),
{
    if gs.len() == 0 {
        Seq::empty()
    } else if is_named(gs.last()) {
        let g = gs.last();
        named_groups_read(gs.drop_last(), full).push(
            (
                opt_seq(g.title),
                if full {
                    Some(opt_chars(g.full_width_title))
                } else {
                    None
                },
                track_indices(g.tracks@),
            ),
        )
    } else {
        named_groups_read(gs.drop_last(), full)
    }
}

/// The group list a listing should read back as: the bucket of the tracks
/// below `count` that no named group holds (when there are any), then each
/// named group as [`named_groups_read`] gives it.
pub open spec fn expected_read(gs: Seq<Group>, count: u16, full: bool) -> Seq<
    (Option<Seq<char>>, Option<Seq<char>>, Seq<u16>),
> {
    let rest = unassigned(named_mask(gs, count), count as int);
    if rest.len() > 0 {
        seq![(None::<Seq<char>>, None::<Seq<char>>, rest)] + named_groups_read(gs, full)
    } else {
        named_groups_read(gs, full)
    }
}

/// The UTF-16 length of two texts one after the other is the sum of their
/// lengths.
proof fn lemma_utf16_concat(a: Seq<char>, b: Seq<char>)
    ensures
        utf16_len_spec(a + b) == utf16_len_spec(a) + utf16_len_spec(b),
    decreases b.len(),
{
    if b.len() == 0 {
        assert(a + b =~= a);
    } else {
        lemma_utf16_concat(a, b.drop_last());
        assert((a + b).drop_last() =~= a + b.drop_last());
        assert((a + b).last() == b.last());
    }
}

/// While the whole full-width title fits, compiling keeps every full-width
/// group entry.
proof fn lemma_fold_full(gs: Seq<Group>, init: (Seq<char>, Seq<char>, nat), ah: nat, af: nat)
    requires
        af >= ceil7(utf16_len_spec(init.1 + joined(fw_pieces(gs), '／')) * 2) * 7,
    ensures
        compile_fold(gs, init, true, ah, af).1 == init.1 + joined(fw_pieces(gs), '／'),
    decreases gs.len(),
{
    if gs.len() == 0 {
        assert(joined(Seq::<Seq<char>>::empty(), '／') == Seq::<char>::empty());
        assert(init.1 + Seq::<char>::empty() =~= init.1);
    } else {
        let g = gs.last();
        let ps = fw_pieces(gs.drop_last());
        if is_named(g) {
            let x = fw_piece(g);
            lemma_joined_push(ps, x, '／');
            let before = init.1 + joined(ps, '／');
            let after = init.1 + joined(ps.push(x), '／');
            assert(after =~= before + (x + seq!['／', '／']));
            lemma_utf16_concat(before, x + seq!['／', '／']);
            lemma_ceil7_mono(utf16_len_spec(before) * 2, utf16_len_spec(after) * 2);
            lemma_fold_full(gs.drop_last(), init, ah, af);
            let prev = compile_fold(gs.drop_last(), init, true, ah, af);
            assert(prev.1 + full_width_range_spec(compile_range(g)) + seq!['；'] + opt_chars(g.full_width_title)
                + seq!['／', '／'] =~= after);
        } else {
            lemma_fold_full(gs.drop_last(), init, ah, af);
        }
    }
}

proof fn lemma_pieces_len(gs: Seq<Group>)
    ensures
        fw_pieces(gs).len() == group_pieces(gs).len(),
    decreases gs.len(),
{
    if gs.len() > 0 {
        lemma_pieces_len(gs.drop_last());
    }
}

/// When the listing has full-width text and the full-width title fits, the
/// compiled full-width title is the one that holds every group entry.
pub proof fn lemma_compile_full(d: Disc)
    requires
        uses_full_width(d),
        full_title_fits(d),
    ensures
        compile_spec(d).1 == full_full_title(d),
{
    let avail = remaining_spec(Seq::empty(), Seq::empty(), d.groups@, false);
    let init_raw = if d.title@.len() > 0 {
        seq!['0', ';'] + d.title@ + seq!['/', '/']
    } else {
        Seq::empty()
    };
    let init_full = seq!['０', '；'] + d.full_width_title@ + seq!['／', '／'];
    let init = (init_raw, init_full, 0nat);
    lemma_fold_count(d.groups@, init, true, avail.0, avail.1);
    lemma_pieces_len(d.groups@);
    let ps = fw_pieces(d.groups@);
    if ps.len() > 0 {
        lemma_fold_full(d.groups@, init, avail.0, avail.1);
    }
}

/// The full-width form of a range text maps it character by character.
proof fn lemma_fw_pointwise(s: Seq<char>)
    requires
        forall|k: int| 0 <= k < s.len() ==> range_char(#[trigger] s[k]),
    ensures
        full_width_range_spec(s).len() == s.len(),
        forall|k: int|
            0 <= k < s.len() ==> full_width_range_char(s[k]) == Some(#[trigger] full_width_range_spec(s)[k]),
    decreases s.len(),
{
    if s.len() > 0 {
        let p = s.drop_last();
        assert forall|k: int| 0 <= k < p.len() implies range_char(#[trigger] p[k]) by {
            assert(p[k] == s[k]);
        }
        lemma_fw_pointwise(p);
        let c = s.last();
        assert(range_char(s[s.len() - 1]));
        assert(full_width_range_char(c) is Some);
        let f = full_width_range_spec(s);
        assert forall|k: int| 0 <= k < s.len() implies full_width_range_char(s[k]) == Some(#[trigger] f[k]) by {
            if k < p.len() {
                assert(s[k] == p[k]);
            }
        }
    }
}

/// The full-width form of range characters: never `；` nor `／`, `０` only
/// for `0`, and different characters stay different.
proof fn lemma_fw_char(a: char, b: char)
    requires
        range_char(a),
        range_char(b),
    ensures
        full_width_range_char(a) matches Some(fa) && fa != '；' && fa != '／' && (fa == '０' ==> a == '0'),
        full_width_range_char(a) == full_width_range_char(b) ==> a == b,
{
}

/// The full-width range entry of a named group: as long as its range
/// entry, never `；` nor `／`, and not starting with `０`.
proof fn lemma_fw_range_parts(g: Group, count: u16)
    requires
        is_named(g),
        consecutive(g.tracks@),
        g.tracks@[0].index + g.tracks@.len() <= count,
    ensures
        fw_range(g).len() == compile_range(g).len(),
        fw_range(g).len() > 0,
        fw_range(g)[0] != '０',
        forall|k: int| 0 <= k < fw_range(g).len() ==> #[trigger] fw_range(g)[k] != '；' && fw_range(g)[k] != '／',
        forall|k: int|
            0 <= k < fw_range(g).len() ==> full_width_range_char(compile_range(g)[k]) == Some(
                #[trigger] fw_range(g)[k],
            ),
{
    lemma_range_parts(g, count);
    let r = compile_range(g);
    lemma_fw_pointwise(r);
    let f = fw_range(g);
    assert forall|k: int| 0 <= k < f.len() implies #[trigger] f[k] != '；' && f[k] != '／' by {
        assert(range_char(r[k]));
        lemma_fw_char(r[k], r[k]);
    }
    assert(range_char(r[0]));
    lemma_fw_char(r[0], r[0]);
}

/// An earlier group's full-width entry begins with a later group's
/// full-width range only when its range entry begins with the later one.
proof fn lemma_fw_prefix(gi: Group, gj: Group, count: u16)
    requires
        is_named(gi),
        consecutive(gi.tracks@),
        gi.tracks@[0].index + gi.tracks@.len() <= count,
        is_named(gj),
        consecutive(gj.tracks@),
        gj.tracks@[0].index + gj.tracks@.len() <= count,
        starts_with_seq(fw_piece(gi), fw_range(gj)),
    ensures
        starts_with_seq(compile_range(gi), compile_range(gj)),
{
    lemma_fw_range_parts(gi, count);
    lemma_fw_range_parts(gj, count);
    lemma_range_parts(gi, count);
    lemma_range_parts(gj, count);
    let fi = fw_range(gi);
    let fj = fw_range(gj);
    let ri = compile_range(gi);
    let rj = compile_range(gj);
    let pi = fw_piece(gi);
    assert(pi.take(fj.len() as int) == fj);
    if fj.len() > fi.len() {
        assert(pi[fi.len() as int] == '；');
        assert(pi.take(fj.len() as int)[fi.len() as int] == pi[fi.len() as int]);
        assert(fj[fi.len() as int] != '；');
    } else {
        assert forall|k: int| 0 <= k < rj.len() implies ri[k] == #[trigger] rj[k] by {
            assert(pi.take(fj.len() as int)[k] == pi[k]);
            assert(pi[k] == fi[k]);
            assert(range_char(ri[k]));
            assert(range_char(rj[k]));
            lemma_fw_char(ri[k], rj[k]);
        }
        assert(ri.take(rj.len() as int) =~= rj);
    }
}

/// Pieces that do not begin with `f` are passed over in the lookup.
proof fn lemma_lookup_skip(a: Seq<Seq<char>>, b: Seq<Seq<char>>, f: Seq<char>)
    requires
        forall|k: int| 0 <= k < a.len() ==> !starts_with_seq(#[trigger] a[k], f),
    ensures
        full_width_name_spec(a + b, f) == full_width_name_spec(b, f),
    decreases a.len(),
{
    if a.len() == 0 {
        assert(a + b =~= b);
    } else {
        let rest = a.drop_first();
        assert forall|k: int| 0 <= k < rest.len() implies !starts_with_seq(#[trigger] rest[k], f) by {
            assert(rest[k] == a[k + 1]);
        }
        lemma_lookup_skip(rest, b, f);
        assert((a + b)[0] == a[0]);
        assert((a + b).drop_first() =~= rest + b);
    }
}

proof fn lemma_fw_pieces_concat(a: Seq<Group>, b: Seq<Group>)
    ensures
        fw_pieces(a + b) == fw_pieces(a) + fw_pieces(b),
    decreases b.len(),
{
    if b.len() == 0 {
        assert(a + b =~= a);
        assert(fw_pieces(a) + Seq::<Seq<char>>::empty() =~= fw_pieces(a));
    } else {
        lemma_fw_pieces_concat(a, b.drop_last());
        assert((a + b).drop_last() =~= a + b.drop_last());
        assert((a + b).last() == b.last());
        if is_named(b.last()) {
            assert(fw_pieces(a) + fw_pieces(b.drop_last()).push(fw_piece(b.last())) =~= (fw_pieces(a) + fw_pieces(
                b.drop_last(),
            )).push(fw_piece(b.last())));
        }
    }
}

/// Each full-width entry belongs to a named group of the listing.
proof fn lemma_fw_pieces_from(gs: Seq<Group>)
    ensures
        forall|k: int|
            0 <= k < fw_pieces(gs).len() ==> exists|i: int|
                0 <= i < gs.len() && is_named(gs[i]) && #[trigger] fw_pieces(gs)[k] == fw_piece(gs[i]),
    decreases gs.len(),
{
    if gs.len() > 0 {
        let p = gs.drop_last();
        lemma_fw_pieces_from(p);
        let fp = fw_pieces(gs);
        let f0 = fw_pieces(p);
        assert forall|k: int| 0 <= k < fp.len() implies exists|i: int|
            0 <= i < gs.len() && is_named(gs[i]) && #[trigger] fp[k] == fw_piece(gs[i]) by {
            if k < f0.len() {
                assert(fp[k] == f0[k]);
                let i = choose|i: int| 0 <= i < p.len() && is_named(p[i]) && #[trigger] f0[k] == fw_piece(p[i]);
                assert(gs[i] == p[i]);
            } else {
                assert(gs[gs.len() - 1] == gs.last());
            }
        }
    }
}

/// The full-width name of a named group is found in its own entry of the
/// compiled full-width title.
proof fn lemma_lookup_named(d: Disc, count: u16, j: int)
    requires
        groups_encodable(d.groups@, count),
        full_width_encodable(d),
        0 <= j < d.groups@.len(),
        is_named(d.groups@[j]),
    ensures
        full_width_name_spec(
            (seq![seq!['０', '；'] + d.full_width_title@] + fw_pieces(d.groups@)).push(Seq::<char>::empty()),
            fw_range(d.groups@[j]),
        ) == Some(opt_chars(d.groups@[j].full_width_title)),
{
    let gs = d.groups@;
    let g = gs[j];
    let f = fw_range(g);
    let z = seq!['０', '；'] + d.full_width_title@;
    let front = gs.take(j);
    let back = gs.skip(j + 1);
    assert(gs =~= front + (seq![g] + back));
    lemma_fw_pieces_concat(front, seq![g] + back);
    lemma_fw_pieces_concat(seq![g], back);
    assert(seq![g].drop_last() =~= Seq::<Group>::empty());
    assert(seq![g].last() == g);
    assert(fw_pieces(Seq::<Group>::empty()) == Seq::<Seq<char>>::empty());
    assert(fw_pieces(seq![g]) =~= seq![fw_piece(g)]);
    let a = seq![z] + fw_pieces(front);
    let b = (seq![fw_piece(g)] + fw_pieces(back)).push(Seq::<char>::empty());
    assert((seq![z] + fw_pieces(gs)).push(Seq::<char>::empty()) =~= a + b);
    lemma_fw_range_parts(g, count);
    lemma_fw_pieces_from(front);
    assert forall|k: int| 0 <= k < a.len() implies !starts_with_seq(#[trigger] a[k], f) by {
        if k == 0 {
            assert(a[0] == z);
            if starts_with_seq(z, f) {
                assert(z.take(f.len() as int)[0] == z[0]);
            }
        } else {
            let e = fw_pieces(front)[k - 1];
            assert(a[k] == e);
            let i = choose|i: int| 0 <= i < front.len() && is_named(front[i]) && #[trigger] fw_pieces(front)[k - 1] == fw_piece(front[i]);
            assert(front[i] == gs[i]);
            if starts_with_seq(e, f) {
                lemma_fw_prefix(gs[i], g, count);
            }
        }
    }
    lemma_lookup_skip(a, b, f);
    assert(b[0] == fw_piece(g));
    assert(fw_piece(g).take(f.len() as int) =~= f);
    let name = opt_chars(g.full_width_title);
    if name.len() > 0 {
        assert(fw_piece(g).skip(f.len() as int + 1) =~= name);
    } else {
        assert(f.len() + 1 >= fw_piece(g).len());
    }
}

/// Reading the named groups with every full-width name looked up as
/// `full` says gives [`named_groups_read`].
proof fn lemma_read_full(gs: Seq<Group>, fw: Seq<Seq<char>>, full: bool)
    requires
        forall|j: int|
            0 <= j < gs.len() && is_named(#[trigger] gs[j]) ==> full_width_name_spec(fw, fw_range(gs[j])) == (if full {
                Some(opt_chars(gs[j].full_width_title))
            } else {
                None
            }),
    ensures
        read_groups(gs, fw) == named_groups_read(gs, full),
    decreases gs.len(),
{
    if gs.len() > 0 {
        let p = gs.drop_last();
        assert forall|j: int| 0 <= j < p.len() && is_named(#[trigger] p[j]) implies full_width_name_spec(
            fw,
            fw_range(p[j]),
        ) == (if full {
            Some(opt_chars(p[j].full_width_title))
        } else {
            None
        }) by {
            assert(p[j] == gs[j]);
        }
        lemma_read_full(p, fw, full);
        assert(gs[gs.len() - 1] == gs.last());
    }
}

/// Writing a listing's groups into the disc titles and reading them back
/// gives its group structure again: reading the half-width and full-width
/// titles that `compile_disc_titles` writes gives the bucket of the tracks
/// below `count` that no named group holds (when there are any), then every
/// named group in order with its name, its full-width name (when the
/// listing has full-width text) and its tracks. Besides the conditions of
/// [`lemma_compiled_groups_read_back`], a listing with full-width text
/// needs its full-width title and names to hold no `／／` and not to end in
/// `／`, no named group's range entry to begin with that of a later named
/// group, and the full-width title to fit the TOC.
pub proof fn lemma_compiled_titles_read_back(d: Disc, count: u16)
    requires
        slash_safe(d.title@),
        groups_encodable(d.groups@, count),
        half_title_fits(d),
        uses_full_width(d) ==> full_width_encodable(d) && full_title_fits(d),
    ensures
        parse_groups_spec(compile_spec(d).0, compile_spec(d).1, count) == Some(
            expected_read(d.groups@, count, uses_full_width(d)),
        ),
{
    let gs = d.groups@;
    let full = uses_full_width(d);
    let raw_full = compile_spec(d).1;
    let fw = split_seq(raw_full, sep_full());
    lemma_read_back_groups(d, raw_full, count);
    if group_pieces(gs).len() == 0 {
        lemma_no_read(gs, fw);
        assert forall|j: int| 0 <= j < gs.len() && is_named(#[trigger] gs[j]) implies false by {
            lemma_named_piece(gs, j);
        }
        lemma_read_full(gs, fw, full);
    } else if full {
        lemma_compile_full(d);
        let z = seq!['０', '；'] + d.full_width_title@;
        let q = seq![z] + fw_pieces(gs);
        assert(q[0] == z);
        assert(q.drop_first() =~= fw_pieces(gs));
        assert(raw_full =~= z + seq!['／', '／'] + joined(fw_pieces(gs), '／'));
        assert(joined(q, '／') == raw_full);
        assert(sep_safe(seq!['０', '；'], '／'));
        lemma_sep_safe_concat(seq!['０', '；'], d.full_width_title@, '／');
        lemma_fw_pieces_safe(gs, count, d);
        assert forall|k: int| 0 <= k < q.len() implies sep_safe(#[trigger] q[k], '／') by {
            if k > 0 {
                assert(q[k] == fw_pieces(gs)[k - 1]);
            }
        }
        lemma_split_joined(q, '／');
        assert(sep_full() == seq!['／', '／']);
        assert forall|j: int| 0 <= j < gs.len() && is_named(#[trigger] gs[j]) implies full_width_name_spec(
            fw,
            fw_range(gs[j]),
        ) == Some(opt_chars(gs[j].full_width_title)) by {
            lemma_lookup_named(d, count, j);
        }
        lemma_read_full(gs, fw, full);
    } else {
        assert(raw_full == Seq::<char>::empty());
        assert(split_seq(Seq::<char>::empty(), seq!['／', '／']) == seq![Seq::<char>::empty()]);
        assert forall|j: int| 0 <= j < gs.len() && is_named(#[trigger] gs[j]) implies full_width_name_spec(
            fw,
            fw_range(gs[j]),
        ) == None::<Seq<char>> by {
            lemma_fw_range_parts(gs[j], count);
            let f = fw_range(gs[j]);
            assert(sep_full() == seq!['／', '／']);
            assert(fw == seq![Seq::<char>::empty()]);
            assert(!starts_with_seq(Seq::<char>::empty(), f));
            assert(seq![Seq::<char>::empty()].drop_first() =~= Seq::<Seq<char>>::empty());
            assert(full_width_name_spec(Seq::<Seq<char>>::empty(), f) is None);
        }
        lemma_read_full(gs, fw, full);
    }
    let rest = unassigned(named_mask(gs, count), count as int);
    if rest.len() == 0 {
        assert(bucket(gs, count) + named_groups_read(gs, full) =~= named_groups_read(gs, full));
    }
}

/// A named group gives an entry.
proof fn lemma_named_piece(gs: Seq<Group>, j: int)
    requires
        0 <= j < gs.len(),
        is_named(gs[j]),
    ensures
        group_pieces(gs).len() > 0,
    decreases gs.len(),
{
    if j < gs.len() - 1 {
        assert(gs.drop_last()[j] == gs[j]);
        lemma_named_piece(gs.drop_last(), j);
        lemma_pieces_grow(gs);
    }
}

proof fn lemma_pieces_grow(gs: Seq<Group>)
    requires
        gs.len() > 0,
    ensures
        group_pieces(gs.drop_last()).len() <= group_pieces(gs).len(),
{
}

/// The full-width entries of a listing that can be written in full width
/// are safe to split at `／／`.
proof fn lemma_fw_pieces_safe(gs: Seq<Group>, count: u16, d: Disc)
    requires
        groups_encodable(gs, count),
        d.groups@ == gs,
        full_width_encodable(d),
    ensures
        forall|k: int| 0 <= k < fw_pieces(gs).len() ==> sep_safe(#[trigger] fw_pieces(gs)[k], '／'),
{
    lemma_fw_pieces_from(gs);
    assert forall|k: int| 0 <= k < fw_pieces(gs).len() implies sep_safe(#[trigger] fw_pieces(gs)[k], '／') by {
        let i = choose|i: int| 0 <= i < gs.len() && is_named(gs[i]) && #[trigger] fw_pieces(gs)[k] == fw_piece(gs[i]);
        let g = gs[i];
        lemma_fw_range_parts(g, count);
        let f = fw_range(g);
        assert(sep_safe(f, '／'));
        assert(sep_safe(seq!['；'], '／'));
        lemma_sep_safe_concat(f, seq!['；'], '／');
        lemma_sep_safe_concat(f + seq!['；'], opt_chars(g.full_width_title), '／');
    }
}

/// Counting the group entries never leaves more room for titles: with
/// `include_groups` the characters left in each table are at most those
/// left without. Either way each value is a whole number of cells of seven
/// characters, at most 255 cells.
pub proof fn lemma_remaining_with_groups(title: Seq<char>, fw_title: Seq<char>, gs: Seq<Group>)
    ensures
        remaining_spec(title, fw_title, gs, true).0 <= remaining_spec(title, fw_title, gs, false).0,
        remaining_spec(title, fw_title, gs, true).1 <= remaining_spec(title, fw_title, gs, false).1,
        forall|include_groups: bool|
            #![trigger remaining_spec(title, fw_title, gs, include_groups)]
            remaining_spec(title, fw_title, gs, include_groups).0 % 7 == 0
                && remaining_spec(title, fw_title, gs, include_groups).0 <= 255 * 7
                && remaining_spec(title, fw_title, gs, include_groups).1 % 7 == 0
                && remaining_spec(title, fw_title, gs, include_groups).1 <= 255 * 7,
{
    let hw0 = title + zero_entry();
    let fw0 = fw_title + zero_entry();
    let hw1 = hw0 + listing_suffix(gs, false);
    let fw1 = fw0 + listing_suffix(gs, true);
    assert(hw0 + Seq::<char>::empty() =~= hw0);
    assert(fw0 + Seq::<char>::empty() =~= fw0);
    lemma_half_width_concat(hw0, listing_suffix(gs, false));
    lemma_utf16_concat(fw0, listing_suffix(gs, true));
    lemma_ceil7_mono(half_width_length_spec(hw0), half_width_length_spec(hw1));
    lemma_ceil7_mono(utf16_len_spec(fw0) * 2, utf16_len_spec(fw1) * 2);
}
/// The range text `a-b`: digits and a dash, starting with a non-zero
/// digit, read back as `a` and `b`.
proof fn lemma_dash_range(a: nat, b: nat)
    requires
        1 <= a < 0x10000,
        b < 0x10000,
    ensures
        ({
            let r = dec_spec(a) + seq!['-'] + dec_spec(b);
            &&& r.len() > 0
            &&& r[0] != '0'
            &&& forall|i: int| 0 <= i < r.len() ==> range_char(#[trigger] r[i])
            &&& parse_u16_spec(range_ends(r).0) == Some(a as u16)
            &&& parse_u16_spec(range_ends(r).1) == Some(b as u16)
        }),
{
    let da = dec_spec(a);
    let db = dec_spec(b);
    lemma_dec_digits(a);
    lemma_dec_digits(b);
    lemma_parse_dec(a);
    lemma_parse_dec(b);
    let dash = seq!['-'];
    let r = da + dash + db;
    assert(r =~= da + (dash + db));
    assert forall|i: int| 0 <= i < r.len() implies range_char(#[trigger] r[i]) by {
        if i < da.len() {
            assert(r[i] == da[i]);
            assert(digit_spec(da[i]) is Some);
        } else if i > da.len() {
            assert(r[i] == db[i - da.len() - 1]);
            assert(digit_spec(db[i - da.len() - 1]) is Some);
        }
    }
    assert forall|i: int| 0 <= i < da.len() implies !matches_at(da + (dash + db), i, dash) by {
        lemma_digit_chars(da, i);
        if matches_at(r, i, dash) {
            assert(r.subrange(i, i + 1)[0] == r[i]);
        }
    }
    lemma_find_concat(da, dash + db, dash);
    assert((dash + db).take(1) =~= dash);
    assert(find_seq(dash + db, dash) == Some(0int));
    assert(range_ends(r).0 =~= da);
    assert(range_ends(r).1 =~= db);
    assert(r[0] == da[0]);
    assert(digit_spec(da[0]) is Some);
}

/// A group entry whose last track lies past the track count is cut at the
/// last track: reading the title `lo-hi;name//`, with `1 <= lo <= count <
/// hi`, gives a group named `name` holding the 0-based tracks `lo - 1` up
/// to `count - 1`, after the bucket of the tracks before it when there are
/// any. A name with no `//` that does not end in `/` keeps the entry whole.
pub proof fn lemma_group_range_cut_at_count(lo: u16, hi: u16, name: Seq<char>, raw_full: Seq<char>, count: u16)
    requires
        1 <= lo <= count < hi,
        slash_safe(name),
    ensures
        ({
            let raw = dec_spec(lo as nat) + seq!['-'] + dec_spec(hi as nat) + seq![';'] + name + seq!['/', '/'];
            parse_groups_spec(raw, raw_full, count) matches Some(gl) && gl.len() == (if lo > 1 { 2int } else { 1int })
                && gl.last().0 == Some(name) && gl.last().2 == Seq::new(
                (count - lo + 1) as nat,
                |k: int| (lo - 1 + k) as u16,
            ) && (lo > 1 ==> gl[0].0 is None && gl[0].2 == Seq::new((lo - 1) as nat, |k: int| k as u16))
        }),
{
    let r = dec_spec(lo as nat) + seq!['-'] + dec_spec(hi as nat);
    lemma_dash_range(lo as nat, hi as nat);
    let semi = seq![';'];
    let p = r + semi + name;
    let raw = dec_spec(lo as nat) + seq!['-'] + dec_spec(hi as nat) + seq![';'] + name + seq!['/', '/'];
    assert(raw =~= p + seq!['/', '/']);
    // The one piece of the title.
    assert(slash_safe(r)) by {
        assert forall|i: int| 0 <= i < r.len() && #[trigger] r[i] == '/' implies i + 1 < r.len() && r[i + 1] != '/' by {
            assert(range_char(r[i]));
        }
    }
    assert(slash_safe(semi));
    lemma_sep_safe_concat(r, semi, '/');
    lemma_sep_safe_concat(r + semi, name, '/');
    let q = seq![p];
    assert(q.drop_first() =~= Seq::<Seq<char>>::empty());
    assert(joined(Seq::<Seq<char>>::empty(), '/') == Seq::<char>::empty());
    assert(joined(q, '/') =~= raw);
    assert forall|k: int| 0 <= k < q.len() implies sep_safe(#[trigger] q[k], '/') by {}
    lemma_split_joined(q, '/');
    let pieces = q.push(Seq::<char>::empty());
    assert(split_seq(raw, sep_half()) == pieces);
    assert(matches_at(raw, p.len() as int, sep_half())) by {
        assert(raw.subrange(p.len() as int, p.len() as int + 2) =~= sep_half());
    }
    lemma_find_first(raw, sep_half(), p.len() as int);
    // The piece reads as the group entry.
    assert(p =~= r + (semi + name));
    assert forall|i: int| 0 <= i < r.len() implies !matches_at(r + (semi + name), i, semi) by {
        if matches_at(p, i, semi) {
            assert(p.subrange(i, i + 1)[0] == p[i]);
            assert(p[i] == r[i]);
            assert(range_char(r[i]));
        }
    }
    lemma_find_concat(r, semi + name, semi);
    assert((semi + name).take(1) =~= semi);
    assert(find_seq(semi + name, semi) == Some(0int));
    if starts_with_seq(p, seq!['0', ';']) {
        assert(p.take(2)[0] == p[0]);
        assert(p[0] == r[0]);
    }
    assert(is_group_piece(p, true));
    assert(piece_range(p) =~= r);
    assert(piece_name(p) =~= name);
    let fw = split_seq(raw_full, sep_full());
    let none = Seq::new(count as nat, |t: int| false);
    let g = (Some(name), full_width_name_spec(fw, full_width_range_spec(r)), track_span(lo, count));
    let m = mark_span(none, lo, count);
    assert(!(exists|t: int| lo - 1 <= t < count && #[trigger] none[t]));
    assert(piece_effect(p, true, fw, count, none) == Some(Some((g, m))));
    let e = Seq::<Seq<char>>::empty();
    assert(pieces.drop_last() =~= q);
    assert(q.drop_last() =~= e);
    assert(group_fold(e, true, fw, count) == Some((Seq::<(Option<Seq<char>>, Option<Seq<char>>, Seq<u16>)>::empty(), none)));
    assert(group_fold(q, true, fw, count) == group_step(group_fold(e, true, fw, count), p, true, fw, count));
    assert(group_fold(q, true, fw, count) == Some((seq![g], m)));
    assert(!is_group_piece(Seq::<char>::empty(), true));
    assert(group_fold(pieces, true, fw, count) == group_step(group_fold(q, true, fw, count), Seq::<char>::empty(), true, fw, count));
    assert(group_fold(pieces, true, fw, count) == Some((seq![g], m)));
    assert(track_span(lo, count) =~= Seq::new((count - lo + 1) as nat, |k: int| (lo - 1 + k) as u16));
    lemma_unassigned_prefix(m, lo as int - 1, count as int);
    let rest = unassigned(m, count as int);
    if lo > 1 {
        assert(rest =~= Seq::new((lo - 1) as nat, |k: int| k as u16));
    } else {
        assert(rest.len() == 0);
        assert(seq![g].last() == g);
    }
}

/// The tracks left unmarked when exactly the tracks from `a` on are marked
/// are those before `a`.
proof fn lemma_unassigned_prefix(m: Seq<bool>, a: int, n: int)
    requires
        0 <= a <= n <= m.len(),
        n <= 0x10000,
        forall|t: int| 0 <= t < m.len() ==> (#[trigger] m[t]) == (a <= t),
    ensures
        unassigned(m, n) == Seq::new(a as nat, |k: int| k as u16),
    decreases n,
{
    if n > a {
        lemma_unassigned_prefix(m, a, n - 1);
        assert(m[n - 1]);
    } else if n > 0 {
        lemma_unassigned_prefix_below(m, a, n);
    } else {
        assert(Seq::new(a as nat, |k: int| k as u16) =~= Seq::<u16>::empty());
    }
}

proof fn lemma_unassigned_prefix_below(m: Seq<bool>, a: int, n: int)
    requires
        0 <= n <= a,
        a <= m.len(),
        n <= 0x10000,
        forall|t: int| 0 <= t < m.len() ==> (#[trigger] m[t]) == (a <= t),
    ensures
        unassigned(m, n) == Seq::new(n as nat, |k: int| k as u16),
    decreases n,
{
    if n > 0 {
        lemma_unassigned_prefix_below(m, a, n - 1);
        assert(!m[n - 1]);
        assert(Seq::new((n - 1) as nat, |k: int| k as u16).push((n - 1) as u16) =~= Seq::new(n as nat, |k: int| k as u16));
    } else {
        assert(Seq::new(0nat, |k: int| k as u16) =~= Seq::<u16>::empty());
    }
}

} // verus!
