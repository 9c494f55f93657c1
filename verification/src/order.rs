//! Stable ordering by a key, as `sort_by_key` does it.
//!
//! The order is computed on positions: `stable_order(keys)` lists the
//! positions `0..n` so that their keys ascend, equal keys keeping the
//! order in which they come.

use vstd::prelude::*;

verus! {

/// `sorted` with position `p` inserted after every position whose key is
/// not greater than the key of `p`, counting from the end.
pub open spec fn insert_pos(sorted: Seq<int>, p: int, keys: Seq<int>) -> Seq<int>
    decreases sorted.len(),
{
    if sorted.len() == 0 || keys[sorted.last()] <= keys[p] {
        sorted.push(p)
    } else {
        insert_pos(sorted.drop_last(), p, keys).push(sorted.last())
    }
}

/// The positions `0..n` in stable ascending order of their keys (insertion sort).
pub open spec fn sort_positions(keys: Seq<int>, n: int) -> Seq<int>
    decreases n,
{
    if n <= 0 {
        Seq::empty()
    } else {
        insert_pos(sort_positions(keys, n - 1), n - 1, keys)
    }
}

/// The keys of a `u16` vector as integers.
pub open spec fn int_keys(keys: Seq<u16>) -> Seq<int> {
    keys.map_values(|k: u16| k as int)
}

proof fn lemma_insert_len(sorted: Seq<int>, p: int, keys: Seq<int>)
    ensures
        insert_pos(sorted, p, keys).len() == sorted.len() + 1,
    decreases sorted.len(),
{
    if sorted.len() > 0 {
        lemma_insert_len(sorted.drop_last(), p, keys);
    }
}

/// Sorting `n` positions gives `n` positions.
pub proof fn lemma_sort_len(keys: Seq<int>, n: int)
    requires
        n >= 0,
    ensures
        sort_positions(keys, n).len() == n,
    decreases n,
{
    if n > 0 {
        lemma_sort_len(keys, n - 1);
        lemma_insert_len(sort_positions(keys, n - 1), n - 1, keys);
    }
}

proof fn lemma_insert_split(a: Seq<int>, b: Seq<int>, p: int, keys: Seq<int>)
    requires
        a.len() == 0 || keys[a.last()] <= keys[p],
        forall|k: int| 0 <= k < b.len() ==> keys[#[trigger] b[k]] > keys[p],
    ensures
        insert_pos(a + b, p, keys) == a.push(p) + b,
    decreases b.len(),
{
    if b.len() == 0 {
        assert(a + b =~= a);
        assert(a.push(p) + b =~= a.push(p));
    } else {
        assert((a + b).drop_last() =~= a + b.drop_last());
        assert((a + b).last() == b.last());
        assert(keys[b[b.len() - 1]] > keys[p]);
        lemma_insert_split(a, b.drop_last(), p, keys);
        assert(a.push(p) + b =~= (a.push(p) + b.drop_last()).push(b.last()));
    }
}

/// Inserting `p` puts it at some place `m`: everything before has a key
/// not above that of `p`'s neighbour on the left, everything after a
/// greater key.
pub proof fn lemma_insert_shape(s: Seq<int>, p: int, keys: Seq<int>) -> (m: int)
    ensures
        0 <= m <= s.len(),
        insert_pos(s, p, keys) == s.take(m).push(p) + s.skip(m),
        forall|k: int| m <= k < s.len() ==> keys[#[trigger] s[k]] > keys[p],
        m > 0 ==> keys[s[m - 1]] <= keys[p],
    decreases s.len(),
{
    if s.len() == 0 || keys[s.last()] <= keys[p] {
        assert(s.take(s.len() as int) =~= s);
        assert(s.skip(s.len() as int) =~= Seq::<int>::empty());
        assert(s.push(p) =~= s.take(s.len() as int).push(p) + s.skip(s.len() as int));
        s.len() as int
    } else {
        let t = s.drop_last();
        let m = lemma_insert_shape(t, p, keys);
        assert(s.take(m) =~= t.take(m));
        assert(t.take(m).push(p) + t.skip(m) + seq![s.last()] =~= s.take(m).push(p) + s.skip(m));
        assert(insert_pos(s, p, keys) == insert_pos(t, p, keys).push(s.last()));
        assert(insert_pos(t, p, keys).push(s.last()) =~= t.take(m).push(p) + t.skip(m) + seq![s.last()]);
        assert forall|k: int| m <= k < s.len() implies keys[#[trigger] s[k]] > keys[p] by {
            if k < t.len() {
                assert(s[k] == t[k]);
            }
        }
        if m > 0 {
            assert(s[m - 1] == t[m - 1]);
        }
        m
    }
}

/// Whether the positions in `s` ascend by key.
pub open spec fn ascending_by(s: Seq<int>, keys: Seq<int>) -> bool {
    forall|i: int, j: int| 0 <= i < j < s.len() ==> keys[#[trigger] s[i]] <= keys[#[trigger] s[j]]
}

/// Sorting `n` positions lists each of `0..n` once, in ascending key order.
pub proof fn lemma_sort_props(keys: Seq<int>, n: int)
    requires
        n >= 0,
    ensures
        sort_positions(keys, n).len() == n,
        forall|k: int| 0 <= k < n ==> 0 <= #[trigger] sort_positions(keys, n)[k] < n,
        sort_positions(keys, n).no_duplicates(),
        ascending_by(sort_positions(keys, n), keys),
        forall|q: int| 0 <= q < n ==> #[trigger] sort_positions(keys, n).contains(q),
    decreases n,
{
    if n > 0 {
        lemma_sort_props(keys, n - 1);
        let s = sort_positions(keys, n - 1);
        let p = n - 1;
        let m = lemma_insert_shape(s, p, keys);
        let r = s.take(m).push(p) + s.skip(m);
        assert(sort_positions(keys, n) == r);
        assert forall|q: int| 0 <= q < n implies #[trigger] r.contains(q) by {
            if q == p {
                assert(r[m] == p);
            } else {
                assert(s.contains(q));
                let k = choose|k: int| 0 <= k < s.len() && s[k] == q;
                if k < m {
                    assert(r[k] == s[k]);
                } else {
                    assert(r[k + 1] == s[k]);
                }
            }
        }
        assert forall|k: int| 0 <= k < n implies 0 <= #[trigger] r[k] < n by {
            if k < m {
                assert(r[k] == s[k]);
            } else if k > m {
                assert(r[k] == s[k - 1]);
            }
        }
        assert forall|i: int, j: int| 0 <= i < r.len() && 0 <= j < r.len() && i != j implies r[i] != r[j] by {
            if i != m && j != m {
                let si = if i < m { i } else { i - 1 };
                let sj = if j < m { j } else { j - 1 };
                assert(r[i] == s[si]);
                assert(r[j] == s[sj]);
            } else if i == m {
                let sj = if j < m { j } else { j - 1 };
                assert(r[j] == s[sj]);
            } else {
                let si = if i < m { i } else { i - 1 };
                assert(r[i] == s[si]);
            }
        }
        assert forall|i: int, j: int| 0 <= i < j < r.len() implies keys[#[trigger] r[i]] <= keys[#[trigger] r[j]] by {
            if j < m {
                assert(r[i] == s[i] && r[j] == s[j]);
            } else if i > m {
                assert(r[i] == s[i - 1] && r[j] == s[j - 1]);
            } else if j == m {
                assert(r[i] == s[i]);
                assert(keys[s[i]] <= keys[s[m - 1]]);
            } else if i == m {
                assert(r[j] == s[j - 1]);
            } else {
                assert(r[i] == s[i]);
                assert(r[j] == s[j - 1]);
            }
        }
    }
}

/// With keys already ascending, sorting leaves every position in place.
pub proof fn lemma_sort_identity(keys: Seq<int>, n: int)
    requires
        0 <= n <= keys.len(),
        forall|i: int, j: int| 0 <= i < j < n ==> keys[i] <= keys[j],
    ensures
        sort_positions(keys, n) == Seq::new(n as nat, |i: int| i),
    decreases n,
{
    if n > 0 {
        lemma_sort_identity(keys, n - 1);
        let s = Seq::new((n - 1) as nat, |i: int| i);
        if n > 1 {
            assert(s.last() == n - 2);
        }
        assert(s.push(n - 1) =~= Seq::new(n as nat, |i: int| i));
    }
}

/// Sorting depends only on the keys of the positions sorted.
pub proof fn lemma_sort_same_keys(k1: Seq<int>, k2: Seq<int>, n: int)
    requires
        forall|i: int| 0 <= i < n ==> k1[i] == k2[i],
    ensures
        sort_positions(k1, n) == sort_positions(k2, n),
    decreases n,
{
    if n > 0 {
        lemma_sort_same_keys(k1, k2, n - 1);
        lemma_sort_props(k1, n - 1);
        lemma_insert_same_keys(sort_positions(k1, n - 1), n - 1, k1, k2);
    }
}

proof fn lemma_insert_same_keys(s: Seq<int>, p: int, k1: Seq<int>, k2: Seq<int>)
    requires
        k1[p] == k2[p],
        forall|k: int| 0 <= k < s.len() ==> k1[#[trigger] s[k]] == k2[s[k]],
    ensures
        insert_pos(s, p, k1) == insert_pos(s, p, k2),
    decreases s.len(),
{
    if s.len() > 0 {
        assert(k1[s[s.len() - 1]] == k2[s[s.len() - 1]]);
        let t = s.drop_last();
        assert forall|k: int| 0 <= k < t.len() implies k1[#[trigger] t[k]] == k2[t[k]] by {
            assert(t[k] == s[k]);
        }
        lemma_insert_same_keys(t, p, k1, k2);
    }
}

/// Positions of `keys` in stable ascending key order.
pub fn stable_order(keys: &Vec<u16>) -> (r: Vec<usize>)
    ensures
        r@.len() == keys@.len(),
        forall|k: int| 0 <= k < r@.len() ==> (#[trigger] r@[k]) as int == sort_positions(
            int_keys(keys@),
            keys@.len() as int,
        )[k],
        forall|k: int| 0 <= k < r@.len() ==> (#[trigger] r@[k]) < keys@.len(),
{
    let ghost ks = int_keys(keys@);
    let mut r: Vec<usize> = Vec::new();
    let mut p: usize = 0;
    while p < keys.len()
        invariant
            p <= keys@.len(),
            ks == int_keys(keys@),
            r@.len() == p,
            forall|k: int| 0 <= k < r@.len() ==> (#[trigger] r@[k]) as int == sort_positions(ks, p as int)[k],
            forall|k: int| 0 <= k < r@.len() ==> (#[trigger] r@[k]) < p,
        decreases keys@.len() - p,
    {
        let ghost before = r@.map_values(|x: usize| x as int);
        proof {
            lemma_sort_len(ks, p as int);
        }
        assert(before =~= sort_positions(ks, p as int));
        let mut j: usize = r.len();
        while j > 0 && keys[r[j - 1]] > keys[p]
            invariant
                j <= r@.len(),
                r@.len() == p,
                p < keys@.len(),
                ks == int_keys(keys@),
                forall|k: int| 0 <= k < r@.len() ==> (#[trigger] r@[k]) < p,
                forall|k: int| j <= k < r@.len() ==> ks[#[trigger] r@[k] as int] > ks[p as int],
            decreases j,
        {
            j = j - 1;
        }
        proof {
            let a = before.take(j as int);
            let b = before.skip(j as int);
            assert(before =~= a + b);
            assert forall|k: int| 0 <= k < b.len() implies ks[#[trigger] b[k]] > ks[p as int] by {
                assert(b[k] == r@[j + k] as int);
            }
            if j > 0 {
                assert(a.last() == r@[j - 1] as int);
            }
            lemma_insert_split(a, b, p as int, ks);
        }
        r.insert(j, p);
        p = p + 1;
        proof {
            assert(r@.map_values(|x: usize| x as int) =~= before.take(j as int).push((p - 1) as int) + before.skip(j as int));
            assert forall|k: int| 0 <= k < r@.len() implies (#[trigger] r@[k]) as int == sort_positions(ks, p as int)[k] by {
                assert(r@.map_values(|x: usize| x as int)[k] == r@[k] as int);
            }
        }
    }
    r
}

} // verus!
