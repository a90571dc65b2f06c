//! Canonical representative pairs.
//!
//! A cover point is attracted to the two dataset points that currently
//! represent the two classes closest to it. The pair is unordered: only the
//! set of the two indices matters, so it is stored canonicalized, smaller
//! index first. The canonical form is the equality key used both for the
//! settling test of the convergence loop and for deduplication.

use vstd::prelude::*;

verus! {

/// An unordered pair of dataset indices, stored with the smaller index first.
#[derive(Clone, Copy, PartialEq, Eq, Hash, Debug, Structural)]
pub struct Neighbours {
    pub first: usize,
    pub second: usize,
}

/// The canonical form of the unordered pair `{a, b}`.
pub open spec fn canonical_pair(a: usize, b: usize) -> Neighbours {
    if a < b {
        (Neighbours { first: a, second: b })
    } else {
        (Neighbours { first: b, second: a })
    }
}

impl Neighbours {
    /// True when the stored order is the canonical one.
    pub open spec fn is_canonical(self) -> bool {
        self.first <= self.second
    }

    /// Builds the canonical pair for the two indices, in either order.
    pub fn new(a: usize, b: usize) -> (r: Neighbours)
        ensures
            r == canonical_pair(a, b),
            r.is_canonical(),
    {
        if a < b {
            Neighbours { first: a, second: b }
        } else {
            Neighbours { first: b, second: a }
        }
    }
}

/// Canonicalization is order-independent: the pair built from `(a, b)`
/// equals the pair built from `(b, a)` for any indices `a`, `b`.
pub proof fn lemma_canonical_symmetric(a: usize, b: usize)
    ensures
        canonical_pair(a, b) == canonical_pair(b, a),
{
}

} // verus!
