//! Deduplication of converged cover points.
//!
//! Cover points that converged to the same representative pair describe the
//! same patch of the boundary; the optional final pass keeps only the first
//! cover point seen for each distinct pair. This module decides, from the
//! sequence of pairs in generation order, which positions survive; the
//! caller drops the coordinate vectors of the rest.

use vstd::prelude::*;
use crate::pair::Neighbours;
use crate::sets::PairSet;
use crate::sets::pair_set_view;

verus! {

/// True when position `i` holds the first occurrence of its pair.
pub open spec fn first_occurrence(pairs: Seq<Neighbours>, i: int) -> bool {
    forall|j: int| 0 <= j < i ==> pairs[j] != pairs[i]
}

/// The positions among `[0, n)` that hold the first occurrence of their
/// pair, in increasing order.
pub open spec fn kept_indices(pairs: Seq<Neighbours>, n: int) -> Seq<int>
    decreases n,
{
    if n <= 0 {
        Seq::empty()
    } else if first_occurrence(pairs, n - 1) {
        kept_indices(pairs, n - 1).push(n - 1)
    } else {
        kept_indices(pairs, n - 1)
    }
}

/// The deduplicated sequence: the pairs of `pairs[0..n]` with every repeat
/// of an earlier pair dropped, first occurrences kept in order.
pub open spec fn distilled(pairs: Seq<Neighbours>, n: int) -> Seq<Neighbours>
    decreases n,
{
    if n <= 0 {
        Seq::empty()
    } else if first_occurrence(pairs, n - 1) {
        distilled(pairs, n - 1).push(pairs[n - 1])
    } else {
        distilled(pairs, n - 1)
    }
}

/// The kept positions are strictly increasing and lie inside the prefix:
/// the deduplicated cover preserves generation order.
pub proof fn lemma_kept_indices_sorted(pairs: Seq<Neighbours>, n: int)
    requires
        n >= 0,
    ensures
        forall|k: int|
            0 <= k < kept_indices(pairs, n).len() ==> 0 <= #[trigger] kept_indices(pairs, n)[k]
                < n,
        forall|k1: int, k2: int|
            0 <= k1 < k2 < kept_indices(pairs, n).len() ==> kept_indices(pairs, n)[k1]
                < kept_indices(pairs, n)[k2],
    decreases n,
{
    if n > 0 {
        lemma_kept_indices_sorted(pairs, n - 1);
        let prev = kept_indices(pairs, n - 1);
        let cur = kept_indices(pairs, n);
        if first_occurrence(pairs, n - 1) {
            assert(cur == prev.push(n - 1));
            assert forall|k: int| 0 <= k < cur.len() implies 0 <= #[trigger] cur[k] < n by {
                if k < prev.len() {
                    assert(cur[k] == prev[k]);
                } else {
                    assert(cur[k] == n - 1);
                }
            }
            assert forall|k1: int, k2: int| 0 <= k1 < k2 < cur.len() implies cur[k1]
                < cur[k2] by {
                assert(cur[k1] == prev[k1]);
                if k2 < prev.len() {
                    assert(cur[k2] == prev[k2]);
                } else {
                    assert(cur[k2] == n - 1);
                    assert(prev[k1] < n - 1);
                }
            }
        }
    }
}

/// The deduplicated pairs are exactly the pairs at the kept positions.
pub proof fn lemma_distilled_at_kept_indices(pairs: Seq<Neighbours>, n: int)
    requires
        n >= 0,
    ensures
        distilled(pairs, n) == kept_indices(pairs, n).map_values(|i: int| pairs[i]),
    decreases n,
{
    if n > 0 {
        lemma_distilled_at_kept_indices(pairs, n - 1);
        if first_occurrence(pairs, n - 1) {
            assert(kept_indices(pairs, n).map_values(|i: int| pairs[i]) =~= kept_indices(
                pairs,
                n - 1,
            ).map_values(|i: int| pairs[i]).push(pairs[n - 1]));
        }
    }
}

/// A pair occurs in the deduplicated prefix exactly when it occurs in the
/// prefix itself.
pub proof fn lemma_distilled_membership(pairs: Seq<Neighbours>, n: int, p: Neighbours)
    requires
        n <= pairs.len(),
    ensures
        distilled(pairs, n).contains(p) <==> exists|j: int| 0 <= j < n && pairs[j] == p,
    decreases n,
{
    broadcast use vstd::seq_lib::lemma_seq_contains_after_push;

    if n > 0 {
        lemma_distilled_membership(pairs, n - 1, p);
        if first_occurrence(pairs, n - 1) {
            assert(distilled(pairs, n) == distilled(pairs, n - 1).push(pairs[n - 1]));
        } else {
            if pairs[n - 1] == p {
                let j = choose|j: int| 0 <= j < n - 1 && #[trigger] pairs[j] == pairs[n - 1];
                assert(pairs[j] == p);
            }
        }
    }
}

/// The deduplicated prefix holds no pair twice.
pub proof fn lemma_distilled_no_duplicates(pairs: Seq<Neighbours>, n: int)
    requires
        n <= pairs.len(),
    ensures
        distilled(pairs, n).no_duplicates(),
    decreases n,
{
    if n > 0 {
        lemma_distilled_no_duplicates(pairs, n - 1);
        if first_occurrence(pairs, n - 1) {
            lemma_distilled_membership(pairs, n - 1, pairs[n - 1]);
            assert(!distilled(pairs, n - 1).contains(pairs[n - 1]));
            let d = distilled(pairs, n - 1).push(pairs[n - 1]);
            assert forall|i: int, j: int| 0 <= i < j < d.len() implies d[i] != d[j] by {
                if j == d.len() - 1 {
                    assert(distilled(pairs, n - 1)[i] == d[i]);
                    assert(distilled(pairs, n - 1).contains(d[i]));
                }
            }
        }
    }
}

/// A sequence without duplicates is already deduplicated: every position is
/// a first occurrence, so all of them are kept.
pub proof fn lemma_distilled_of_duplicate_free(t: Seq<Neighbours>, n: int)
    requires
        0 <= n <= t.len(),
        t.no_duplicates(),
    ensures
        distilled(t, n) == t.take(n),
    decreases n,
{
    if n <= 0 {
        assert(distilled(t, n) =~= t.take(n));
    } else {
        lemma_distilled_of_duplicate_free(t, n - 1);
        assert forall|j: int| 0 <= j < n - 1 implies #[trigger] t[j] != t[n - 1] by {
            assert(t[j] != t[n - 1]);
        }
        assert(first_occurrence(t, n - 1));
        assert(distilled(t, n) == t.take(n - 1).push(t[n - 1]));
        assert forall|k: int| 0 <= k < n implies t.take(n - 1).push(t[n - 1])[k] == #[trigger] t.take(
            n,
        )[k] by {
            if k < n - 1 {
                assert(t.take(n - 1)[k] == t[k]);
            } else {
                assert(t.take(n - 1).push(t[n - 1])[k] == t[n - 1]);
            }
            assert(t.take(n)[k] == t[k]);
        }
        assert(distilled(t, n) =~= t.take(n));
    }
}

/// Deduplication is idempotent: deduplicating an already deduplicated
/// sequence changes nothing.
pub proof fn lemma_distill_idempotent(pairs: Seq<Neighbours>)
    ensures
        ({
            let once = distilled(pairs, pairs.len() as int);
            distilled(once, once.len() as int) == once
        }),
{
    let once = distilled(pairs, pairs.len() as int);
    lemma_distilled_no_duplicates(pairs, pairs.len() as int);
    lemma_distilled_of_duplicate_free(once, once.len() as int);
    assert(once.take(once.len() as int) =~= once);
}

/// The deduplicated sequence is never longer than its input.
pub proof fn lemma_distilled_len(pairs: Seq<Neighbours>, n: int)
    requires
        n >= 0,
    ensures
        distilled(pairs, n).len() <= n,
        kept_indices(pairs, n).len() == distilled(pairs, n).len(),
    decreases n,
{
    if n > 0 {
        lemma_distilled_len(pairs, n - 1);
    }
}

/// Selects the positions to keep: the first cover point seen for each
/// distinct representative pair, in generation order. The caller retains
/// exactly the listed positions (coordinates and all) and drops the rest.
pub fn distill_indices(pairs: &Vec<Neighbours>) -> (keep: Vec<usize>)
    ensures
        keep@.map_values(|k: usize| k as int) == kept_indices(pairs@, pairs@.len() as int),
        keep@.len() == distilled(pairs@, pairs@.len() as int).len(),
{
    let mut seen = PairSet::new();
    let mut keep: Vec<usize> = Vec::new();
    let mut i: usize = 0;
    while i < pairs.len()
        invariant
            i <= pairs@.len(),
            keep@.map_values(|k: usize| k as int) == kept_indices(pairs@, i as int),
            forall|t: (usize, usize)|
                pair_set_view(seen).contains(t) <==> exists|j: int|
                    0 <= j < i && t.0 == #[trigger] pairs@[j].first && t.1 == pairs@[j].second,
        decreases pairs@.len() - i,
    {
        let p = pairs[i];
        let fresh = !seen.contains(&p);
        proof {
            if fresh {
                assert forall|j: int| 0 <= j < i implies pairs@[j] != pairs@[i as int] by {
                    if pairs@[j] == pairs@[i as int] {
                        assert(pair_set_view(seen).contains((p.first, p.second)));
                    }
                }
                assert(first_occurrence(pairs@, i as int));
            } else {
                let j = choose|j: int|
                    0 <= j < i && p.first == #[trigger] pairs@[j].first && p.second
                        == pairs@[j].second;
                assert(pairs@[j] == pairs@[i as int]);
                assert(!first_occurrence(pairs@, i as int));
            }
        }
        if fresh {
            seen.insert(&p);
            keep.push(i);
            proof {
                assert(keep@.map_values(|k: usize| k as int) =~= kept_indices(
                    pairs@,
                    i as int + 1,
                ));
                assert forall|t: (usize, usize)|
                    pair_set_view(seen).contains(t) implies exists|j: int|
                        0 <= j < i + 1 && t.0 == #[trigger] pairs@[j].first && t.1
                            == pairs@[j].second by {
                    if t == (p.first, p.second) {
                        assert(t.0 == pairs@[i as int].first && t.1 == pairs@[i as int].second);
                    }
                }
                assert forall|t: (usize, usize)|
                    (exists|j: int|
                        0 <= j < i + 1 && t.0 == #[trigger] pairs@[j].first && t.1
                            == pairs@[j].second) implies pair_set_view(seen).contains(t) by {
                    let j = choose|j: int|
                        0 <= j < i + 1 && t.0 == #[trigger] pairs@[j].first && t.1
                            == pairs@[j].second;
                    if j == i {
                        assert(t == (p.first, p.second));
                    }
                }
            }
        }
        i = i + 1;
    }
    proof {
        lemma_distilled_len(pairs@, pairs@.len() as int);
    }
    keep
}

} // verus!
