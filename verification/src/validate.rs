//! Input validation decisions.
//!
//! The run fails outright on invalid input: an empty dataset, or bounds
//! vectors whose lengths disagree with the dataset dimensionality. These
//! functions decide exactly when; the caller supplies the plain sizes.

use vstd::prelude::*;
use crate::errors::DbsError;
use crate::labels::labels_in_range;

verus! {

/// Labels must form the dense range `[0, n_classes)`: the per-class search
/// indexes its slots by label, so anything outside the range would be
/// silently ignored rather than represented.
pub fn check_labels_dense(labels: &Vec<usize>, n_classes: usize) -> (r: Result<(), DbsError>)
    ensures
        r is Ok <==> (forall|i: int| 0 <= i < labels@.len() ==> labels@[i] < n_classes),
        r is Err ==> r == Err::<(), DbsError>(DbsError::LabelOutOfRange),
{
    if labels_in_range(labels, n_classes) {
        Ok(())
    } else {
        Err(DbsError::LabelOutOfRange)
    }
}

/// The dataset must hold at least one point; its first point fixes the
/// dimensionality of the whole run.
pub fn check_nonempty(n_rows: usize) -> (r: Result<(), DbsError>)
    ensures
        r is Ok <==> n_rows > 0,
        r is Err ==> r == Err::<(), DbsError>(DbsError::EmptyDataset),
{
    if n_rows == 0 {
        Err(DbsError::EmptyDataset)
    } else {
        Ok(())
    }
}

/// The per-dimension minimum and maximum bounds must both have exactly one
/// entry per dimension before a cover can be drawn inside them.
pub fn check_bounds_lengths(dimensions: usize, n_min: usize, n_max: usize) -> (r: Result<
    (),
    DbsError,
>)
    ensures
        r is Ok <==> (n_min == n_max && n_max == dimensions),
        r is Err ==> r == Err::<(), DbsError>(DbsError::DimensionMismatch),
{
    if n_min != n_max || n_max != dimensions {
        Err(DbsError::DimensionMismatch)
    } else {
        Ok(())
    }
}

} // verus!
