//! Boundary sampling support library.
//!
//! Given a labeled point cloud, the goal is to produce a set of points lying
//! approximately on the decision boundary between classes. Cover points are
//! iteratively driven toward the perpendicular bisector of their two closest
//! cross-class representatives until their representative pair stops changing.
//!
//! This crate holds the discrete, verified core of that procedure: canonical
//! representative pairs, the nearest cross-class search over order-preserving
//! integer distance keys, the per-point settling protocol, and the
//! deduplication pass. The surrounding real-valued arithmetic (distances,
//! hyperplane projection, random cover generation) lives outside the verified
//! boundary and feeds this core plain integer data.

mod cover;
mod distill;
mod errors;
mod finder;
mod labels;
mod pair;
mod sets;
mod validate;

pub use cover::CoverPoint;
pub use cover::all_settled;
pub use cover::initial_cover_point;
pub use cover::lemma_settled_fixed_point;
pub use cover::new_cover;
pub use cover::step;
pub use cover::update_cover_point;
pub use distill::distill_indices;
pub use distill::distilled;
pub use distill::first_occurrence;
pub use distill::kept_indices;
pub use distill::lemma_kept_indices_sorted;
pub use distill::lemma_distill_idempotent;
pub use distill::lemma_distilled_at_kept_indices;
pub use distill::lemma_distilled_len;
pub use distill::lemma_distilled_membership;
pub use distill::lemma_distilled_no_duplicates;
pub use errors::DbsError;
pub use finder::argmin_skip_upto;
pub use finder::argmin_upto;
pub use finder::best_dist_upto;
pub use finder::best_dists;
pub use finder::best_index_upto;
pub use finder::class_inhabited;
pub use finder::closest_neighbours;
pub use finder::lemma_argmin_in_range;
pub use finder::lemma_argmin_minimal;
pub use finder::lemma_argmin_skip_in_range;
pub use finder::lemma_argmin_skip_minimal;
pub use finder::lemma_selected_classes_closest;
pub use finder::lemma_best_dist_le_member;
pub use finder::lemma_best_index_attains;
pub use finder::lemma_finder_succeeds;
pub use finder::lemma_representatives_distinct;
pub use finder::spec_closest;
pub use labels::count_unique_elements;
pub use labels::labels_in_range;
pub use labels::lemma_dense_labels_inhabit_classes;
pub use pair::Neighbours;
pub use pair::canonical_pair;
pub use pair::lemma_canonical_symmetric;
pub use sets::LabelSet;
pub use sets::PairSet;
pub use sets::label_set_view;
pub use sets::pair_set_view;
pub use validate::check_bounds_lengths;
pub use validate::check_labels_dense;
pub use validate::check_nonempty;
