//! The settling protocol of the convergence loop.
//!
//! Each cover point carries the representative pair computed for it in the
//! previous round and a settled flag. A round recomputes the pair for every
//! point not yet settled: an unchanged pair settles the point for good, a
//! changed pair is stored and the point's coordinates are projected onto
//! the new pair's perpendicular bisector. The numeric work (distances and
//! projection) happens outside this crate; the decisions live here.

use vstd::prelude::*;
use crate::pair::Neighbours;
use crate::pair::canonical_pair;
use crate::errors::DbsError;
use crate::finder::spec_closest;

verus! {

/// The discrete state of one cover point: its current representative pair
/// and whether it has settled.
#[derive(Clone, Copy, PartialEq, Eq, Hash, Debug, Structural)]
pub struct CoverPoint {
    pub neighbors: Neighbours,
    pub settled: bool,
}

/// The state every cover point starts in: the sentinel pair `(0, 0)`, not
/// settled.
pub open spec fn initial_cover_point() -> CoverPoint {
    CoverPoint { neighbors: canonical_pair(0, 0), settled: false }
}

/// What one round does to one cover point, given the freshly computed pair
/// `fresh`: an unchanged pair settles the point and asks for no coordinate
/// change; a changed pair is stored and asks for a projection (the `bool`
/// of the result).
pub open spec fn step(p: CoverPoint, fresh: Neighbours) -> (CoverPoint, bool) {
    if p.neighbors == fresh {
        (CoverPoint { neighbors: p.neighbors, settled: true }, false)
    } else {
        (CoverPoint { neighbors: fresh, settled: p.settled }, true)
    }
}

impl CoverPoint {
    /// Builds the initial state of one cover point.
    pub fn initial() -> (p: CoverPoint)
        ensures
            p == initial_cover_point(),
    {
        CoverPoint { neighbors: Neighbours::new(0, 0), settled: false }
    }

    /// Applies one round's decision to this point: settle on an unchanged
    /// pair, otherwise store the fresh pair. Returns whether the caller
    /// must project the point's coordinates (and refresh its cached norm).
    pub fn observe(&mut self, fresh: Neighbours) -> (project: bool)
        requires
            !old(self).settled,
        ensures
            (*final(self), project) == step(*old(self), fresh),
            project == (old(self).neighbors != fresh),
    {
        if self.neighbors == fresh {
            self.settled = true;
            false
        } else {
            self.neighbors = fresh;
            true
        }
    }
}

/// Builds the initial cover state: `n` points, each with the sentinel pair
/// and not settled.
pub fn new_cover(n: usize) -> (cover: Vec<CoverPoint>)
    ensures
        cover@.len() == n,
        forall|i: int| 0 <= i < n ==> cover@[i] == initial_cover_point(),
{
    let mut cover: Vec<CoverPoint> = Vec::new();
    let mut i: usize = 0;
    while i < n
        invariant
            i <= n,
            cover@.len() == i,
            forall|j: int| 0 <= j < i ==> cover@[j] == initial_cover_point(),
        decreases n - i,
    {
        cover.push(CoverPoint::initial());
        i = i + 1;
    }
    cover
}

/// True exactly when every cover point has settled; the convergence loop
/// stops early on it.
pub fn all_settled(cover: &Vec<CoverPoint>) -> (r: bool)
    ensures
        r == (forall|i: int| 0 <= i < cover@.len() ==> cover@[i].settled),
{
    let mut i: usize = 0;
    while i < cover.len()
        invariant
            i <= cover@.len(),
            forall|j: int| 0 <= j < i ==> cover@[j].settled,
        decreases cover@.len() - i,
    {
        if !cover[i].settled {
            return false;
        }
        i = i + 1;
    }
    true
}

/// One convergence-loop visit to a cover point that has not settled yet:
/// runs the nearest cross-class search over the point's current distance
/// keys and applies the settling decision. Returns the pair to project the
/// point onto when a projection (and a norm refresh) is due, `None` when
/// the point settled, and the search's error unchanged otherwise.
pub fn update_cover_point(
    p: &mut CoverPoint,
    dists: &Vec<u64>,
    labels: &Vec<usize>,
    n_classes: usize,
) -> (r: Result<Option<Neighbours>, DbsError>)
    requires
        !old(p).settled,
        dists@.len() == labels@.len(),
    ensures
        match spec_closest(dists@, labels@, n_classes) {
            Ok(fresh) => *final(p) == step(*old(p), fresh).0 && r == Ok::<
                Option<Neighbours>,
                DbsError,
            >(
                if step(*old(p), fresh).1 {
                    Some(fresh)
                } else {
                    None::<Neighbours>
                },
            ),
            Err(e) => r == Err::<Option<Neighbours>, DbsError>(e) && *final(p) == *old(p),
        },
{
    match crate::finder::closest_neighbours(dists, labels, n_classes) {
        Ok(fresh) => {
            let project = p.observe(fresh);
            if project {
                Ok(Some(fresh))
            } else {
                Ok(None)
            }
        },
        Err(e) => Err(e),
    }
}

/// Once a cover point has settled, it is a fixed point of the round step:
/// its coordinates were last changed before the pair stopped changing, so
/// the search over the same distance keys returns the stored pair again,
/// and the step neither alters the point nor asks for a projection.
pub proof fn lemma_settled_fixed_point(
    p: CoverPoint,
    dists: Seq<u64>,
    labels: Seq<usize>,
    n_classes: usize,
)
    requires
        p.settled,
        spec_closest(dists, labels, n_classes) == Ok::<Neighbours, DbsError>(p.neighbors),
    ensures
        step(p, spec_closest(dists, labels, n_classes)->Ok_0) == (p, false),
{
}

} // verus!
