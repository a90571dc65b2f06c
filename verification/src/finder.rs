//! Nearest cross-class representative search.
//!
//! For one query point the finder keeps, per class, the closest dataset
//! point seen so far, then selects the two classes whose best
//! representatives are globally closest, and returns the canonical pair of
//! their best indices.
//!
//! Distances enter as `u64` keys: an order-preserving integer encoding of
//! the real squared distances, one key per dataset point, with `u64::MAX`
//! playing the role of "+infinity" for classes never seen. Comparing keys
//! compares distances, so the search is exact over the keys.

use vstd::prelude::*;
use vstd::pervasive::VecAdditionalExecFns;
use crate::errors::DbsError;
use crate::pair::Neighbours;
use crate::pair::canonical_pair;

verus! {

/// The best (smallest) distance key among the first `n` dataset points
/// whose label is `c`; `u64::MAX` when no such point exists.
pub open spec fn best_dist_upto(dists: Seq<u64>, labels: Seq<usize>, c: usize, n: int) -> u64
    decreases n,
{
    if n <= 0 {
        u64::MAX
    } else if labels[n - 1] == c && dists[n - 1] < best_dist_upto(dists, labels, c, n - 1) {
        dists[n - 1]
    } else {
        best_dist_upto(dists, labels, c, n - 1)
    }
}

/// The index attaining `best_dist_upto`; the earliest one on ties, and `0`
/// when class `c` has no member among the first `n` points.
pub open spec fn best_index_upto(dists: Seq<u64>, labels: Seq<usize>, c: usize, n: int) -> usize
    decreases n,
{
    if n <= 0 {
        0
    } else if labels[n - 1] == c && dists[n - 1] < best_dist_upto(dists, labels, c, n - 1) {
        (n - 1) as usize
    } else {
        best_index_upto(dists, labels, c, n - 1)
    }
}

/// The per-class best distance keys, one slot per class.
pub open spec fn best_dists(dists: Seq<u64>, labels: Seq<usize>, n_classes: usize) -> Seq<u64> {
    Seq::new(
        n_classes as nat,
        |c: int| best_dist_upto(dists, labels, c as usize, dists.len() as int),
    )
}

/// The smallest index attaining the minimum of `s[0..n]`; `0` when `n <= 1`.
pub open spec fn argmin_upto(s: Seq<u64>, n: int) -> int
    decreases n,
{
    if n <= 1 {
        0
    } else if s[n - 1] < s[argmin_upto(s, n - 1)] {
        n - 1
    } else {
        argmin_upto(s, n - 1)
    }
}

/// The smallest index attaining the minimum of `s[0..n]` with index `skip`
/// left out; `skip` itself while no other index has been seen.
pub open spec fn argmin_skip_upto(s: Seq<u64>, skip: int, n: int) -> int
    decreases n,
{
    if n <= 0 {
        skip
    } else {
        let p = argmin_skip_upto(s, skip, n - 1);
        if n - 1 == skip {
            p
        } else if p == skip {
            n - 1
        } else if s[n - 1] < s[p] {
            n - 1
        } else {
            p
        }
    }
}

/// What the nearest cross-class search returns: the canonical pair of the
/// best representatives of the two closest classes, or the error that rules
/// the query out.
pub open spec fn spec_closest(dists: Seq<u64>, labels: Seq<usize>, n_classes: usize) -> Result<
    Neighbours,
    DbsError,
> {
    if n_classes < 2 {
        Err(DbsError::TooFewClasses)
    } else {
        let b = best_dists(dists, labels, n_classes);
        let c1 = argmin_upto(b, n_classes as int);
        let c2 = argmin_skip_upto(b, c1, n_classes as int);
        if b[c1] == u64::MAX || b[c2] == u64::MAX {
            Err(DbsError::EmptyClass)
        } else {
            Ok(
                canonical_pair(
                    best_index_upto(dists, labels, c1 as usize, dists.len() as int),
                    best_index_upto(dists, labels, c2 as usize, dists.len() as int),
                ),
            )
        }
    }
}

/// A class's best distance never exceeds the key of any of its members.
pub proof fn lemma_best_dist_le_member(
    dists: Seq<u64>,
    labels: Seq<usize>,
    c: usize,
    n: int,
    j: int,
)
    requires
        0 <= j < n,
        labels[j] == c,
    ensures
        best_dist_upto(dists, labels, c, n) <= dists[j],
    decreases n,
{
    if j < n - 1 {
        lemma_best_dist_le_member(dists, labels, c, n - 1, j);
    }
}

/// The minimum of a non-empty prefix is attained inside it.
pub proof fn lemma_argmin_in_range(s: Seq<u64>, n: int)
    requires
        n >= 1,
    ensures
        0 <= argmin_upto(s, n) < n,
    decreases n,
{
    if n > 1 {
        lemma_argmin_in_range(s, n - 1);
    }
}

/// When `skip` lies outside a non-empty prefix, the skipping minimum is
/// attained inside the prefix and never equals `skip`.
proof fn lemma_argmin_skip_no_hit(s: Seq<u64>, skip: int, n: int)
    requires
        n >= 1,
        !(0 <= skip < n),
    ensures
        0 <= argmin_skip_upto(s, skip, n) < n,
        argmin_skip_upto(s, skip, n) != skip,
    decreases n,
{
    if n > 1 {
        lemma_argmin_skip_no_hit(s, skip, n - 1);
    } else {
        assert(argmin_skip_upto(s, skip, 0) == skip);
    }
}

/// With at least two classes, the second-closest class is a real class
/// distinct from the closest one.
pub proof fn lemma_argmin_skip_in_range(s: Seq<u64>, skip: int, n: int)
    requires
        n >= 2,
        0 <= skip < n,
    ensures
        0 <= argmin_skip_upto(s, skip, n) < n,
        argmin_skip_upto(s, skip, n) != skip,
    decreases n,
{
    if skip == n - 1 {
        lemma_argmin_skip_no_hit(s, skip, n - 1);
    } else if n == 2 {
        assert(skip == 0);
        assert(argmin_skip_upto(s, 0, 0) == 0);
        assert(argmin_skip_upto(s, 0, 1) == 0);
        assert(argmin_skip_upto(s, 0, 2) == 1);
    } else {
        lemma_argmin_skip_in_range(s, skip, n - 1);
    }
}

/// The selected index attains the minimum of the prefix.
pub proof fn lemma_argmin_minimal(s: Seq<u64>, n: int)
    requires
        n >= 1,
    ensures
        forall|j: int| 0 <= j < n ==> s[argmin_upto(s, n)] <= #[trigger] s[j],
    decreases n,
{
    if n > 1 {
        lemma_argmin_minimal(s, n - 1);
    }
}

/// When `skip` lies outside the prefix, the skipping minimum attains the
/// minimum of the whole prefix.
proof fn lemma_argmin_skip_no_hit_minimal(s: Seq<u64>, skip: int, n: int)
    requires
        n >= 1,
        !(0 <= skip < n),
    ensures
        forall|j: int| 0 <= j < n ==> s[argmin_skip_upto(s, skip, n)] <= #[trigger] s[j],
    decreases n,
{
    lemma_argmin_skip_no_hit(s, skip, n);
    if n > 1 {
        lemma_argmin_skip_no_hit(s, skip, n - 1);
        lemma_argmin_skip_no_hit_minimal(s, skip, n - 1);
    } else {
        assert(argmin_skip_upto(s, skip, 0) == skip);
    }
}

/// Among the indices other than `skip`, the selected one attains the
/// minimum.
pub proof fn lemma_argmin_skip_minimal(s: Seq<u64>, skip: int, n: int)
    requires
        n >= 2,
        0 <= skip < n,
    ensures
        forall|j: int|
            0 <= j < n && j != skip ==> s[argmin_skip_upto(s, skip, n)] <= #[trigger] s[j],
    decreases n,
{
    lemma_argmin_skip_in_range(s, skip, n);
    if skip == n - 1 {
        lemma_argmin_skip_no_hit_minimal(s, skip, n - 1);
    } else if n == 2 {
        assert(skip == 0);
        assert(argmin_skip_upto(s, 0, 0) == 0);
        assert(argmin_skip_upto(s, 0, 1) == 0);
        assert(argmin_skip_upto(s, 0, 2) == 1);
    } else {
        lemma_argmin_skip_in_range(s, skip, n - 1);
        lemma_argmin_skip_minimal(s, skip, n - 1);
    }
}

/// The two selected classes are the two closest ones: the first's best
/// distance is minimal over all classes, the second's over all remaining
/// classes.
pub proof fn lemma_selected_classes_closest(dists: Seq<u64>, labels: Seq<usize>, n_classes: usize)
    requires
        n_classes >= 2,
    ensures
        ({
            let b = best_dists(dists, labels, n_classes);
            let c1 = argmin_upto(b, n_classes as int);
            let c2 = argmin_skip_upto(b, c1, n_classes as int);
            &&& 0 <= c1 < n_classes
            &&& 0 <= c2 < n_classes
            &&& c1 != c2
            &&& forall|j: int| 0 <= j < n_classes ==> b[c1] <= #[trigger] b[j]
            &&& forall|j: int| 0 <= j < n_classes && j != c1 ==> b[c2] <= #[trigger] b[j]
        }),
{
    let b = best_dists(dists, labels, n_classes);
    let n = n_classes as int;
    lemma_argmin_in_range(b, n);
    lemma_argmin_minimal(b, n);
    let c1 = argmin_upto(b, n);
    lemma_argmin_skip_in_range(b, c1, n);
    lemma_argmin_skip_minimal(b, c1, n);
}

/// When a class has been seen at all (its best distance is below the
/// `u64::MAX` sentinel), its best slot points at a member of the class
/// whose key is the recorded best.
pub proof fn lemma_best_index_attains(dists: Seq<u64>, labels: Seq<usize>, c: usize, n: int)
    requires
        n <= usize::MAX,
        best_dist_upto(dists, labels, c, n) < u64::MAX,
    ensures
        0 <= best_index_upto(dists, labels, c, n) < n,
        labels[best_index_upto(dists, labels, c, n) as int] == c,
        dists[best_index_upto(dists, labels, c, n) as int] == best_dist_upto(dists, labels, c, n),
    decreases n,
{
    if n > 0 {
        if !(labels[n - 1] == c && dists[n - 1] < best_dist_upto(dists, labels, c, n - 1)) {
            lemma_best_index_attains(dists, labels, c, n - 1);
        }
    }
}

/// A successful search returns two distinct dataset indices: the two
/// representatives come from different classes, so they can never be the
/// same point, and the canonical pair is strictly ordered.
pub proof fn lemma_representatives_distinct(dists: Seq<u64>, labels: Seq<usize>, n_classes: usize)
    requires
        dists.len() <= usize::MAX,
        spec_closest(dists, labels, n_classes) is Ok,
    ensures
        spec_closest(dists, labels, n_classes)->Ok_0.first < spec_closest(
            dists,
            labels,
            n_classes,
        )->Ok_0.second,
{
    let b = best_dists(dists, labels, n_classes);
    let n = n_classes as int;
    lemma_argmin_in_range(b, n);
    let c1 = argmin_upto(b, n);
    lemma_argmin_skip_in_range(b, c1, n);
    let c2 = argmin_skip_upto(b, c1, n);
    let len = dists.len() as int;
    lemma_best_index_attains(dists, labels, c1 as usize, len);
    lemma_best_index_attains(dists, labels, c2 as usize, len);
}

/// True when some dataset point carries the label `c`.
pub open spec fn class_inhabited(labels: Seq<usize>, c: usize) -> bool {
    exists|j: int| 0 <= j < labels.len() && labels[j] == c
}

/// When every class in `[0, n_classes)` has a member and every distance
/// key is finite (below `u64::MAX`), the search owes a pair: no error can
/// come back.
pub proof fn lemma_finder_succeeds(dists: Seq<u64>, labels: Seq<usize>, n_classes: usize)
    requires
        dists.len() == labels.len(),
        n_classes >= 2,
        forall|c: usize| c < n_classes ==> #[trigger] class_inhabited(labels, c),
        forall|j: int| 0 <= j < dists.len() ==> dists[j] < u64::MAX,
    ensures
        spec_closest(dists, labels, n_classes) is Ok,
{
    let b = best_dists(dists, labels, n_classes);
    let n = n_classes as int;
    lemma_argmin_in_range(b, n);
    let c1 = argmin_upto(b, n);
    lemma_argmin_skip_in_range(b, c1, n);
    let c2 = argmin_skip_upto(b, c1, n);
    assert forall|c: int| 0 <= c < n implies b[c] < u64::MAX by {
        let cu = c as usize;
        assert(class_inhabited(labels, cu));
        let j = choose|j: int| 0 <= j < labels.len() && labels[j] == cu;
        lemma_best_dist_le_member(dists, labels, cu, dists.len() as int, j);
        assert(b[c] <= dists[j]);
    }
}

/// Finds, for a query point whose distance key to dataset point `i` is
/// `dists[i]`, the canonical pair of the best representatives of the two
/// closest classes. Labels outside `[0, n_classes)` are ignored, as is a
/// class with no members unless it ends up selected, in which case the
/// query fails with `EmptyClass`; fewer than two classes fail with
/// `TooFewClasses`.
pub fn closest_neighbours(dists: &Vec<u64>, labels: &Vec<usize>, n_classes: usize) -> (r: Result<
    Neighbours,
    DbsError,
>)
    requires
        dists@.len() == labels@.len(),
    ensures
        r == spec_closest(dists@, labels@, n_classes),
{
    if n_classes < 2 {
        return Err(DbsError::TooFewClasses);
    }
    let mut best: Vec<u64> = Vec::new();
    let mut idx: Vec<usize> = Vec::new();
    let mut c: usize = 0;
    while c < n_classes
        invariant
            c <= n_classes,
            best@.len() == c,
            idx@.len() == c,
            forall|j: int| 0 <= j < c ==> best@[j] == u64::MAX,
            forall|j: int| 0 <= j < c ==> idx@[j] == 0usize,
        decreases n_classes - c,
    {
        best.push(u64::MAX);
        idx.push(0);
        c = c + 1;
    }
    let mut i: usize = 0;
    while i < dists.len()
        invariant
            dists@.len() == labels@.len(),
            i <= dists@.len(),
            best@.len() == n_classes,
            idx@.len() == n_classes,
            forall|j: int|
                0 <= j < n_classes ==> best@[j] == best_dist_upto(
                    dists@,
                    labels@,
                    j as usize,
                    i as int,
                ),
            forall|j: int|
                0 <= j < n_classes ==> idx@[j] == best_index_upto(
                    dists@,
                    labels@,
                    j as usize,
                    i as int,
                ),
        decreases dists@.len() - i,
    {
        let l = labels[i];
        if l < n_classes {
            if dists[i] < best[l] {
                best.set(l, dists[i]);
                idx.set(l, i);
            }
        }
        i = i + 1;
    }
    proof {
        assert(best@ =~= best_dists(dists@, labels@, n_classes));
    }
    let mut c1: usize = 0;
    let mut c: usize = 1;
    while c < n_classes
        invariant
            1 <= c <= n_classes,
            best@.len() == n_classes,
            (c1 as int) < c as int,
            c1 as int == argmin_upto(best@, c as int),
        decreases n_classes - c,
    {
        if best[c] < best[c1] {
            c1 = c;
        }
        c = c + 1;
    }
    let mut c2: usize = c1;
    let mut c: usize = 0;
    while c < n_classes
        invariant
            c <= n_classes,
            best@.len() == n_classes,
            (c1 as int) < n_classes as int,
            c2 as int == argmin_skip_upto(best@, c1 as int, c as int),
            c2 == c1 || (c2 as int) < c as int,
        decreases n_classes - c,
    {
        if c != c1 {
            if c2 == c1 || best[c] < best[c2] {
                c2 = c;
            }
        }
        c = c + 1;
    }
    if best[c1] == u64::MAX || best[c2] == u64::MAX {
        return Err(DbsError::EmptyClass);
    }
    Ok(Neighbours::new(idx[c1], idx[c2]))
}

} // verus!
