//! Class labels: counting distinct classes and validating density.
//!
//! The number of classes is the number of distinct label values. Labels are
//! expected to form the dense range `[0, n_classes)`; the validator below
//! makes that expectation checkable instead of silently corrupting the
//! nearest-representative search.

use vstd::prelude::*;
use crate::sets::LabelSet;
use crate::sets::label_set_view;

verus! {

/// Counts the distinct values among `v`: the number of classes present.
pub fn count_unique_elements(v: &Vec<usize>) -> (n: usize)
    ensures
        n == v@.to_set().len(),
{
    broadcast use vstd::seq_lib::seq_to_set_is_finite;

    let mut seen = LabelSet::new();
    let mut i: usize = 0;
    while i < v.len()
        invariant
            i <= v.len(),
            label_set_view(seen) == v@.subrange(0, i as int).to_set(),
        decreases v.len() - i,
    {
        proof {
            broadcast use vstd::prelude::Seq::lemma_to_set_insert_commutes;

            assert(v@.subrange(0, i as int + 1) =~= v@.subrange(0, i as int) + seq![v@[i as int]]);
        }
        seen.insert(v[i]);
        i = i + 1;
    }
    proof {
        assert(v@.subrange(0, v@.len() as int) =~= v@);
    }
    seen.len()
}

/// A finite set of machine integers all below `n` has at most `n` elements.
proof fn lemma_bounded_set_size(s: Set<usize>, n: int)
    requires
        s.finite(),
        n >= 0,
        forall|x: usize| s.contains(x) ==> x < n,
    ensures
        s.len() <= n,
    decreases n,
{
    broadcast use vstd::set::axiom_set_choose_len;

    if n == 0 {
        if s.len() != 0 {
            assert(s.contains(s.choose()));
        }
    } else {
        let m = (n - 1) as usize;
        if s.contains(m) {
            assert forall|x: usize| s.remove(m).contains(x) implies x < n - 1 by {
                assert(s.contains(x));
            }
            lemma_bounded_set_size(s.remove(m), n - 1);
        } else {
            assert forall|x: usize| s.contains(x) implies x < n - 1 by {}
            lemma_bounded_set_size(s, n - 1);
        }
    }
}

/// A finite set of machine integers all below `n` that misses some value
/// `c` below `n` has at most `n - 1` elements.
proof fn lemma_bounded_set_size_missing(s: Set<usize>, n: int, c: usize)
    requires
        s.finite(),
        n >= 1,
        c < n,
        !s.contains(c),
        forall|x: usize| s.contains(x) ==> x < n,
    ensures
        s.len() <= n - 1,
    decreases n,
{
    let m = (n - 1) as usize;
    if c == m {
        assert forall|x: usize| s.contains(x) implies x < n - 1 by {}
        lemma_bounded_set_size(s, n - 1);
    } else if s.contains(m) {
        assert forall|x: usize| s.remove(m).contains(x) implies x < n - 1 by {
            assert(s.contains(x));
        }
        lemma_bounded_set_size_missing(s.remove(m), n - 1, c);
    } else {
        assert forall|x: usize| s.contains(x) implies x < n - 1 by {}
        lemma_bounded_set_size_missing(s, n - 1, c);
    }
}

/// Labels that are dense — exactly `n_classes` distinct values, all of
/// them below `n_classes` — inhabit every class: each value of the range
/// `[0, n_classes)` occurs somewhere. The run's validation therefore rules
/// the `EmptyClass` failure out.
pub proof fn lemma_dense_labels_inhabit_classes(labels: Seq<usize>, n_classes: usize)
    requires
        labels.to_set().len() == n_classes,
        forall|i: int| 0 <= i < labels.len() ==> labels[i] < n_classes,
    ensures
        forall|c: usize| c < n_classes ==> #[trigger] crate::finder::class_inhabited(labels, c),
{
    broadcast use vstd::seq_lib::seq_to_set_is_finite;

    assert forall|c: usize| c < n_classes implies #[trigger] crate::finder::class_inhabited(
        labels,
        c,
    ) by {
        if !crate::finder::class_inhabited(labels, c) {
            assert(!labels.contains(c));
            assert(!labels.to_set().contains(c));
            assert forall|x: usize| labels.to_set().contains(x) implies x < n_classes by {
                assert(labels.contains(x));
                let i = choose|i: int| 0 <= i < labels.len() && labels[i] == x;
            }
            lemma_bounded_set_size_missing(labels.to_set(), n_classes as int, c);
            assert(false);
        }
    }
}

/// True exactly when every label lies in the dense range `[0, n_classes)`.
pub fn labels_in_range(labels: &Vec<usize>, n_classes: usize) -> (r: bool)
    ensures
        r == (forall|i: int| 0 <= i < labels@.len() ==> labels@[i] < n_classes),
{
    let mut i: usize = 0;
    while i < labels.len()
        invariant
            i <= labels.len(),
            forall|j: int| 0 <= j < i ==> labels@[j] < n_classes,
        decreases labels.len() - i,
    {
        if labels[i] >= n_classes {
            return false;
        }
        i = i + 1;
    }
    true
}

} // verus!
