//! Deterministic ordering after the parallel stream-chunk fan-out. Each
//! fetched chunk is tagged with its original index; whatever order the
//! fetches complete in, the results are sorted by that tag before use.
//! This is the one ordering contract that must hold regardless of network
//! timing.

use vstd::prelude::*;

verus! {

/// The sequence is ordered by its numeric tags.
pub open spec fn sorted_by_key<T>(s: Seq<(u64, T)>) -> bool {
    forall|i: int, j: int| 0 <= i < j < s.len() ==> (#[trigger] s[i]).0 <= (#[trigger] s[j]).0
}

/// Sorts tagged items by their tag (insertion sort, stable). The result is
/// a permutation of the input: same length, same multiset of items.
pub fn sort_by_key<T>(items: Vec<(u64, T)>) -> (r: Vec<(u64, T)>)
    ensures
        sorted_by_key(r@),
        r@.to_multiset() == items@.to_multiset(),
        r@.len() == items@.len(),
{
    let mut v = items;
    let ghost orig = v@;
    if v.len() < 2 {
        proof {
            assert(v@.take(v@.len() as int) =~= v@);
        }
        return v;
    }
    let mut i: usize = 1;
    while i < v.len()
        invariant
            1 <= i <= v@.len(),
            v@.len() == orig.len(),
            v@.to_multiset() == orig.to_multiset(),
            sorted_by_key(v@.take(i as int)),
        decreases v@.len() - i,
    {
        let ghost before = v@;
        let x = v.remove(i);
        let mut j: usize = i;
        while j > 0 && v[j - 1].0 > x.0
            invariant
                j <= i,
                i < before.len(),
                v@ == before.remove(i as int),
                before[i as int] == x,
                sorted_by_key(before.take(i as int)),
                forall|k: int| j <= k < i ==> (#[trigger] v@[k]).0 > x.0,
            decreases j,
        {
            j = j - 1;
        }
        v.insert(j, x);
        proof {
            broadcast use vstd::multiset::group_multiset_axioms;

            let after = v@;
            let mid = before.remove(i as int);
            // permutation: removing then re-inserting the element keeps the
            // multiset
            vstd::seq_lib::to_multiset_remove(before, i as int);
            vstd::seq_lib::to_multiset_insert(mid, j as int, x);
            assert(after == mid.insert(j as int, x));
            assert(before.contains(x)) by {
                assert(before[i as int] == x);
            }
            vstd::seq_lib::to_multiset_contains(before, x);
            assert(before.to_multiset().count(x) > 0);
            assert(after.to_multiset() =~= before.to_multiset());
            // sortedness of the grown prefix
            assert(forall|k: int| 0 <= k < j ==> mid[k] == before[k]);
            assert forall|a: int, b: int| 0 <= a < b < i + 1 implies (#[trigger] after[a]).0 <= (
            #[trigger] after[b]).0 by {
                if j > 0 {
                    assert(before[j - 1].0 <= x.0);
                }
                if a < j && b < j {
                    assert(after[a] == before[a] && after[b] == before[b]);
                } else if a < j && b == j {
                    assert(after[a] == before[a]);
                    assert(before[a].0 <= before[j - 1].0);
                } else if a == j && b > j {
                    assert(after[b] == mid[b - 1]);
                } else if a < j && b > j {
                    assert(after[a] == before[a]);
                    assert(after[b] == mid[b - 1]);
                    assert(mid[b - 1].0 > x.0);
                    if j > 0 {
                        assert(before[a].0 <= before[j - 1].0);
                    }
                } else {
                    assert(a > j && b > j);
                    assert(after[a] == mid[a - 1] && after[b] == mid[b - 1]);
                    if a - 1 < i && b - 1 < i {
                        if a - 1 < j {
                            assert(mid[a - 1] == before[a - 1]);
                        }
                    }
                }
            }
            assert(sorted_by_key(after.take(i + 1 as int)));
        }
        i = i + 1;
    }
    proof {
        assert(v@.take(v@.len() as int) =~= v@);
    }
    v
}

proof fn lemma_sorted_distinct_ge<T>(s: Seq<(u64, T)>, i: int)
    requires
        sorted_by_key(s),
        forall|a: int, b: int|
            0 <= a < b < s.len() ==> (#[trigger] s[a]).0 != (#[trigger] s[b]).0,
        0 <= i < s.len(),
    ensures
        s[i].0 >= i,
    decreases i,
{
    if i > 0 {
        lemma_sorted_distinct_ge(s, i - 1);
        assert(s[i - 1].0 <= s[i].0 && s[i - 1].0 != s[i].0);
    }
}

/// When the tags of a sorted run are exactly `0 .. n` — the indexes of `n`
/// fan-out tasks, each appearing once — the item at position `i` is the one
/// tagged `i`: completion order never leaks into the final order.
pub proof fn lemma_fanout_order<T>(s: Seq<(u64, T)>)
    requires
        sorted_by_key(s),
        forall|i: int| 0 <= i < s.len() ==> (#[trigger] s[i]).0 < s.len(),
        forall|a: int, b: int|
            0 <= a < b < s.len() ==> (#[trigger] s[a]).0 != (#[trigger] s[b]).0,
    ensures
        forall|i: int| 0 <= i < s.len() ==> (#[trigger] s[i]).0 == i,
{
    assert forall|i: int| 0 <= i < s.len() implies (#[trigger] s[i]).0 == i by {
        lemma_sorted_distinct_ge(s, i);
        lemma_sorted_distinct_le(s, i);
    }
}

proof fn lemma_sorted_distinct_le<T>(s: Seq<(u64, T)>, i: int)
    requires
        sorted_by_key(s),
        forall|j: int| 0 <= j < s.len() ==> (#[trigger] s[j]).0 < s.len(),
        forall|a: int, b: int|
            0 <= a < b < s.len() ==> (#[trigger] s[a]).0 != (#[trigger] s[b]).0,
        0 <= i < s.len(),
    ensures
        s[i].0 <= i,
    decreases s.len() - i,
{
    if i < s.len() - 1 {
        lemma_sorted_distinct_le(s, i + 1);
        assert(s[i].0 <= s[i + 1].0 && s[i].0 != s[i + 1].0);
    }
}

/// Drops the tags of a tagged list, keeping the order.
pub fn strip_keys<T>(items: Vec<(u64, T)>) -> (r: Vec<T>)
    ensures
        r@ =~= items@.map_values(|p: (u64, T)| p.1),
{
    let ghost orig = items@;
    let mut src = items;
    let mut out: Vec<T> = Vec::new();
    while src.len() > 0
        invariant
            src@ =~= orig.skip(out@.len() as int),
            out@.len() <= orig.len(),
            out@ =~= orig.take(out@.len() as int).map_values(|p: (u64, T)| p.1),
        decreases src@.len(),
    {
        let ghost k = out@.len() as int;
        let p = src.remove(0);
        out.push(p.1);
        proof {
            assert(p == orig[k]);
            assert(src@ =~= orig.skip(k + 1));
            assert(orig.take(k + 1) =~= orig.take(k).push(orig[k]));
            assert(out@ =~= orig.take(k + 1).map_values(|q: (u64, T)| q.1));
        }
    }
    proof {
        assert(orig.take(orig.len() as int) =~= orig);
    }
    out
}

} // verus!
