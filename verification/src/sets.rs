//! Hash-set collections used by the deduplication pass and the class count.
//!
//! Two small set types back the discrete passes: a set of canonical index
//! pairs (for deduplication) and a set of class labels (for counting the
//! distinct classes). Both are held behind opaque structs; their contents
//! are modelled by uninterpreted view functions, and each method's contract
//! states over those views what the backing set does.

use vstd::prelude::*;
use crate::pair::Neighbours;

verus! {

/// A set of canonical index pairs, backed by a `hashbrown::HashSet` over
/// plain `(usize, usize)` tuples.
#[verifier::external_body]
pub struct PairSet {
    inner: hashbrown::HashSet<(usize, usize)>,
}

/// The pairs the set currently holds, as plain index tuples.
pub uninterp spec fn pair_set_view(s: PairSet) -> Set<(usize, usize)>;

impl PairSet {
    /// Relies on `hashbrown::HashSet::new`: the new set is empty.
    #[verifier::external_body]
    pub fn new() -> (s: PairSet)
        ensures
            pair_set_view(s) == Set::<(usize, usize)>::empty(),
    {
        PairSet { inner: hashbrown::HashSet::new() }
    }

    /// Relies on `hashbrown::HashSet::contains`: membership of the tuple
    /// `(p.first, p.second)` in the set.
    #[verifier::external_body]
    pub fn contains(&self, p: &Neighbours) -> (r: bool)
        ensures
            r == pair_set_view(*self).contains((p.first, p.second)),
    {
        self.inner.contains(&(p.first, p.second))
    }

    /// Relies on `hashbrown::HashSet::insert`: afterwards the set holds the
    /// tuple `(p.first, p.second)` besides everything it already held.
    #[verifier::external_body]
    pub fn insert(&mut self, p: &Neighbours)
        ensures
            pair_set_view(*final(self)) == pair_set_view(*old(self)).insert(
                (p.first, p.second),
            ),
    {
        self.inner.insert((p.first, p.second));
    }
}

/// A set of class labels, backed by `nohash_hasher::IntSet`, a
/// `std::collections::HashSet` with an identity hasher for integer keys.
#[verifier::external_body]
pub struct LabelSet {
    inner: nohash_hasher::IntSet<usize>,
}

/// The labels the set currently holds.
pub uninterp spec fn label_set_view(s: LabelSet) -> Set<usize>;

impl LabelSet {
    /// Relies on `HashSet::default` (via `nohash_hasher::IntSet`): the new
    /// set is empty.
    #[verifier::external_body]
    pub fn new() -> (s: LabelSet)
        ensures
            label_set_view(s) == Set::<usize>::empty(),
    {
        LabelSet { inner: nohash_hasher::IntSet::default() }
    }

    /// Relies on `HashSet::insert`: afterwards the set holds `x` besides
    /// everything it already held.
    #[verifier::external_body]
    pub fn insert(&mut self, x: usize)
        ensures
            label_set_view(*final(self)) == label_set_view(*old(self)).insert(x),
    {
        self.inner.insert(x);
    }

    /// Relies on `HashSet::len`: the number of distinct elements held.
    #[verifier::external_body]
    pub fn len(&self) -> (n: usize)
        ensures
            n == label_set_view(*self).len(),
    {
        self.inner.len()
    }
}

} // verus!
