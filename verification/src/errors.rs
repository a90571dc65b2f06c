//! Failure conditions of the boundary sampling procedure.
//!
//! All of these are input-validation or geometric-degeneracy failures: none
//! is retried, each is surfaced immediately to the caller.

use vstd::prelude::*;

verus! {

/// Why a run of the sampler cannot proceed.
#[derive(Clone, Copy, PartialEq, Eq, Hash, Debug, Structural)]
pub enum DbsError {
    /// The dataset holds no points at all.
    EmptyDataset,
    /// The per-dimension bounds disagree with the dataset dimensionality.
    DimensionMismatch,
    /// The two representative points coincide, so their perpendicular
    /// bisector is undefined and the projection would divide by zero.
    DegeneratePair,
    /// Fewer than two classes are present, so no cross-class pair exists.
    TooFewClasses,
    /// A selected class has no members in the dataset.
    EmptyClass,
    /// A label lies outside the dense range `[0, n_classes)`.
    LabelOutOfRange,
}

} // verus!
