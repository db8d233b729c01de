//! Stable sorting by integer keys.
//!
//! Every ordering of the task views is a lexicographic order on a few
//! integers (group, priority rank, day, instant, task id). Sorting returns
//! the permutation of indices that puts the keys in order; items with equal
//! keys keep their original relative order, as with a stable sort.

use vstd::prelude::*;

verus! {

/// A sort key, compared lexicographically field by field.
#[derive(Clone, Copy, Debug)]
pub struct SortKey {
    pub a: i64,
    pub b: i64,
    pub c: i64,
    pub d: i64,
    pub e: u128,
}

pub open spec fn key_lt(x: SortKey, y: SortKey) -> bool {
    ||| x.a < y.a
    ||| x.a == y.a && x.b < y.b
    ||| x.a == y.a && x.b == y.b && x.c < y.c
    ||| x.a == y.a && x.b == y.b && x.c == y.c && x.d < y.d
    ||| x.a == y.a && x.b == y.b && x.c == y.c && x.d == y.d && x.e < y.e
}

pub open spec fn key_eq(x: SortKey, y: SortKey) -> bool {
    x.a == y.a && x.b == y.b && x.c == y.c && x.d == y.d && x.e == y.e
}

/// Position `i` comes before position `j` in the stable order: its key is
/// smaller, or the keys are equal and `i` came first.
pub open spec fn stable_before(keys: Seq<SortKey>, i: int, j: int) -> bool {
    key_lt(keys[i], keys[j]) || (key_eq(keys[i], keys[j]) && i < j)
}

/// `perm` lists every index of `keys` exactly once, in stable key order.
pub open spec fn is_sorted_permutation(keys: Seq<SortKey>, perm: Seq<usize>) -> bool {
    &&& perm.len() == keys.len()
    &&& forall|i: int| 0 <= i < perm.len() ==> #[trigger] perm[i] < keys.len()
    &&& forall|i: int, j: int|
        0 <= i < j < perm.len() ==> stable_before(keys, #[trigger] perm[i] as int, #[trigger] perm[j] as int)
}

/// The items of `s` in the order `perm` lists their indices.
pub open spec fn permuted<T>(s: Seq<T>, perm: Seq<usize>) -> Seq<T> {
    perm.map_values(|i: usize| s[i as int])
}

/// Splits labelled items into maximal runs of equal labels, keeping their
/// order: each run is the label and the items that carry it.
pub open spec fn runs<G, X>(s: Seq<(G, X)>) -> Seq<(G, Seq<X>)>
    decreases s.len(),
{
    if s.len() == 0 {
        Seq::empty()
    } else {
        let r = runs(s.drop_last());
        let e = s.last();
        if r.len() > 0 && r.last().0 == e.0 {
            r.update(r.len() - 1, (e.0, r.last().1.push(e.1)))
        } else {
            r.push((e.0, seq![e.1]))
        }
    }
}

pub fn key_less(x: &SortKey, y: &SortKey) -> (b: bool)
    ensures
        b == key_lt(*x, *y),
{
    if x.a != y.a {
        x.a < y.a
    } else if x.b != y.b {
        x.b < y.b
    } else if x.c != y.c {
        x.c < y.c
    } else if x.d != y.d {
        x.d < y.d
    } else {
        x.e < y.e
    }
}

/// The permutation of `0..keys.len()` that orders the keys stably.
pub fn sort_indices(keys: &Vec<SortKey>) -> (perm: Vec<usize>)
    ensures
        is_sorted_permutation(keys@, perm@),
{
    let n = keys.len();
    let mut perm: Vec<usize> = Vec::new();
    for k in 0..n
        invariant
            n == keys.len(),
            perm.len() == k,
            forall|i: int| 0 <= i < perm.len() ==> #[trigger] perm[i] < k,
            forall|i: int, j: int|
                0 <= i < j < perm.len() ==> stable_before(keys@, #[trigger] perm[i] as int, #[trigger] perm[j] as int),
    {
        let mut p: usize = 0;
        while p < perm.len() && !key_less(&keys[k], &keys[perm[p]])
            invariant
                n == keys.len(),
                k < n,
                perm.len() == k,
                p <= perm.len(),
                forall|i: int| 0 <= i < perm.len() ==> #[trigger] perm[i] < k,
                forall|i: int| 0 <= i < p ==> !key_lt(keys@[k as int], keys@[#[trigger] perm[i] as int]),
            decreases perm.len() - p,
        {
            p += 1;
        }
        let ghost old_perm = perm@;
        perm.insert(p, k);
        assert forall|i: int, j: int| 0 <= i < j < perm.len() implies stable_before(
            keys@,
            #[trigger] perm[i] as int,
            #[trigger] perm[j] as int,
        ) by {
            if j < p {
                assert(perm[i] == old_perm[i] && perm[j] == old_perm[j]);
            } else if j == p {
                assert(perm[i] == old_perm[i]);
            } else if i == p {
                assert(perm[j] == old_perm[j - 1]);
                assert(key_lt(keys@[k as int], keys@[old_perm[p as int] as int]));
                if j - 1 > p {
                    assert(stable_before(keys@, old_perm[p as int] as int, old_perm[j - 1] as int));
                }
            } else if i < p {
                assert(perm[i] == old_perm[i] && perm[j] == old_perm[j - 1]);
            } else {
                assert(perm[i] == old_perm[i - 1] && perm[j] == old_perm[j - 1]);
            }
        }
    }
    perm
}

/// A duplicate-free list of `n` indices below `n` holds every index below `n`.
pub proof fn lemma_permutation_covers(n: nat, perm: Seq<usize>, v: int)
    requires
        perm.len() == n,
        forall|i: int| 0 <= i < perm.len() ==> #[trigger] perm[i] < n,
        forall|i: int, j: int| 0 <= i < j < perm.len() ==> perm[i] != perm[j],
        0 <= v < n,
    ensures
        exists|i: int| 0 <= i < perm.len() && perm[i] == v,
{
    let s = perm.map_values(|x: usize| x as int);
    assert(s.no_duplicates()) by {
        assert forall|i: int, j: int| 0 <= i < s.len() && 0 <= j < s.len() && i != j implies s[i] != s[j] by {
            if i < j {
                assert(perm[i] != perm[j]);
            } else {
                assert(perm[j] != perm[i]);
            }
        }
    }
    s.unique_seq_to_set();
    vstd::set_lib::lemma_int_range(0, n as int);
    let r = vstd::set_lib::set_int_range(0, n as int);
    assert(s.to_set().subset_of(r)) by {
        assert forall|x: int| s.to_set().contains(x) implies r.contains(x) by {
            let i = choose|i: int| 0 <= i < s.len() && s[i] == x;
            assert(perm[i] < n);
        }
    }
    vstd::set_lib::lemma_subset_equality(s.to_set(), r);
    assert(r.contains(v));
    assert(s.to_set().contains(v));
    let i = choose|i: int| 0 <= i < s.len() && s[i] == v;
    assert(perm[i] == v);
}

/// Two stable orderings of the same keys are the same permutation: the
/// order is fully determined by the keys.
pub proof fn lemma_sorted_permutation_unique(keys: Seq<SortKey>, p1: Seq<usize>, p2: Seq<usize>)
    requires
        is_sorted_permutation(keys, p1),
        is_sorted_permutation(keys, p2),
    ensures
        p1 == p2,
{
    let n = keys.len();
    assert forall|i: int, j: int| 0 <= i < j < p1.len() implies p1[i] != p1[j] by {
        assert(stable_before(keys, p1[i] as int, p1[j] as int));
    }
    assert forall|i: int, j: int| 0 <= i < j < p2.len() implies p2[i] != p2[j] by {
        assert(stable_before(keys, p2[i] as int, p2[j] as int));
    }
    if exists|k: int| 0 <= k < n && p1[k] != p2[k] {
        let k0 = choose|k: int| 0 <= k < n && p1[k] != p2[k];
        // the first position where the two orders differ
        let k = lemma_first_difference(p1, p2, k0);
        let x = p1[k];
        let y = p2[k];
        lemma_permutation_covers(n, p1, y as int);
        lemma_permutation_covers(n, p2, x as int);
        let j1 = choose|i: int| 0 <= i < p1.len() && p1[i] == y;
        let j2 = choose|i: int| 0 <= i < p2.len() && p2[i] == x;
        if j1 < k {
            assert(p2[j1] == y);
        }
        if j2 < k {
            assert(p1[j2] == x);
        }
        assert(j1 > k);
        assert(j2 > k);
        assert(stable_before(keys, x as int, y as int));
        assert(stable_before(keys, y as int, x as int));
        assert(false);
    }
    assert(p1 =~= p2);
}

proof fn lemma_first_difference(p1: Seq<usize>, p2: Seq<usize>, k: int) -> (r: int)
    requires
        0 <= k < p1.len(),
        k < p2.len(),
        p1[k] != p2[k],
    ensures
        0 <= r <= k,
        p1[r] != p2[r],
        forall|i: int| 0 <= i < r ==> p1[i] == p2[i],
    decreases k,
{
    if exists|i: int| 0 <= i < k && p1[i] != p2[i] {
        let i = choose|i: int| 0 <= i < k && p1[i] != p2[i];
        lemma_first_difference(p1, p2, i)
    } else {
        k
    }
}


/// What holds of every item holds of every item of every run.
pub proof fn lemma_runs_items<G, X>(s: Seq<(G, X)>, ok: spec_fn(X) -> bool)
    requires
        forall|i: int| 0 <= i < s.len() ==> ok(#[trigger] s[i].1),
    ensures
        forall|i: int, j: int| 0 <= i < runs(s).len() && 0 <= j < runs(s)[i].1.len() ==> ok(#[trigger] runs(s)[i].1[j]),
    decreases s.len(),
{
    if s.len() > 0 {
        let prev = s.drop_last();
        assert forall|i: int| 0 <= i < prev.len() implies ok(#[trigger] prev[i].1) by {
            assert(prev[i] == s[i]);
        }
        lemma_runs_items(prev, ok);
        assert(ok(s[s.len() - 1].1));
        let r = runs(prev);
        let e = s.last();
        if r.len() > 0 && r.last().0 == e.0 {
            let t = r.update(r.len() - 1, (e.0, r.last().1.push(e.1)));
            assert forall|i: int, j: int| 0 <= i < t.len() && 0 <= j < t[i].1.len() implies ok(#[trigger] t[i].1[j]) by {
                if i == r.len() - 1 {
                    if j < r.last().1.len() {
                        assert(t[i].1[j] == r[r.len() - 1].1[j]);
                    }
                } else {
                    assert(t[i] == r[i]);
                }
            }
        } else {
            let t = r.push((e.0, seq![e.1]));
            assert forall|i: int, j: int| 0 <= i < t.len() && 0 <= j < t[i].1.len() implies ok(#[trigger] t[i].1[j]) by {
                if i < r.len() {
                    assert(t[i] == r[i]);
                }
            }
        }
    }
}

} // verus!
