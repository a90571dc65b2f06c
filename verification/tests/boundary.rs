use dbsampler::CoverPoint;
use dbsampler::DbsError;
use dbsampler::Neighbours;
use dbsampler::all_settled;
use dbsampler::check_bounds_lengths;
use dbsampler::check_labels_dense;
use dbsampler::check_nonempty;
use dbsampler::closest_neighbours;
use dbsampler::count_unique_elements;
use dbsampler::distill_indices;
use dbsampler::labels_in_range;
use dbsampler::new_cover;
use dbsampler::update_cover_point;

#[test]
fn canonical_pair_is_order_independent() {
    let a = Neighbours::new(3, 7);
    let b = Neighbours::new(7, 3);
    assert_eq!(a, b);
    assert_eq!(a.first, 3);
    assert_eq!(a.second, 7);
}

#[test]
fn canonical_pair_of_equal_indices() {
    let p = Neighbours::new(5, 5);
    assert_eq!(p.first, 5);
    assert_eq!(p.second, 5);
}

#[test]
fn count_unique_counts_distinct_labels() {
    let labels: Vec<usize> = vec![0, 1, 1, 2, 0, 2, 2];
    assert_eq!(count_unique_elements(&labels), 3);
}

#[test]
fn count_unique_of_empty_is_zero() {
    let labels: Vec<usize> = vec![];
    assert_eq!(count_unique_elements(&labels), 0);
}

#[test]
fn count_unique_of_single_class_is_one() {
    let labels: Vec<usize> = vec![1, 1, 1];
    assert_eq!(count_unique_elements(&labels), 1);
}

#[test]
fn labels_in_range_accepts_dense_labels() {
    let labels: Vec<usize> = vec![0, 1, 2, 1, 0];
    assert!(labels_in_range(&labels, 3));
}

#[test]
fn labels_in_range_rejects_out_of_range_label() {
    let labels: Vec<usize> = vec![0, 3];
    assert!(!labels_in_range(&labels, 3));
}

#[test]
fn sparse_labels_are_rejected_as_out_of_range() {
    // Two distinct labels, but not the dense range [0, 2).
    let labels: Vec<usize> = vec![0, 5];
    let n_classes = count_unique_elements(&labels);
    assert_eq!(n_classes, 2);
    assert_eq!(check_labels_dense(&labels, n_classes), Err(DbsError::LabelOutOfRange));
    let dense: Vec<usize> = vec![0, 1];
    assert_eq!(check_labels_dense(&dense, 2), Ok(()));
}

#[test]
fn finder_rejects_single_class() {
    let dists: Vec<u64> = vec![10, 20, 30];
    let labels: Vec<usize> = vec![0, 0, 0];
    assert_eq!(closest_neighbours(&dists, &labels, 1), Err(DbsError::TooFewClasses));
}

#[test]
fn finder_rejects_empty_selected_class() {
    let dists: Vec<u64> = vec![5, 6];
    let labels: Vec<usize> = vec![0, 0];
    assert_eq!(closest_neighbours(&dists, &labels, 2), Err(DbsError::EmptyClass));
}

#[test]
fn finder_picks_best_representative_per_class() {
    // class 0: indices 0 (key 40) and 2 (key 10); class 1: index 1 (key 25);
    // class 2: index 3 (key 90). Two closest classes: 0 (via index 2) and 1.
    let dists: Vec<u64> = vec![40, 25, 10, 90];
    let labels: Vec<usize> = vec![0, 1, 0, 2];
    assert_eq!(closest_neighbours(&dists, &labels, 3), Ok(Neighbours::new(1, 2)));
}

#[test]
fn finder_is_deterministic_on_unchanged_keys() {
    let dists: Vec<u64> = vec![10, 20];
    let labels: Vec<usize> = vec![0, 1];
    let once = closest_neighbours(&dists, &labels, 2);
    let twice = closest_neighbours(&dists, &labels, 2);
    assert_eq!(once, Ok(Neighbours::new(0, 1)));
    assert_eq!(once, twice);
}

#[test]
fn settled_point_is_a_fixed_point() {
    let dists: Vec<u64> = vec![10, 20];
    let labels: Vec<usize> = vec![0, 1];
    let mut p = CoverPoint { neighbors: Neighbours::new(0, 1), settled: false };
    // The pair for the current coordinates equals the stored pair: the
    // point settles and its coordinates are left alone ...
    assert_eq!(update_cover_point(&mut p, &dists, &labels, 2), Ok(None));
    assert!(p.settled);
    assert_eq!(p.neighbors, Neighbours::new(0, 1));
    // ... so the search over the same keys returns the stored pair again.
    assert_eq!(closest_neighbours(&dists, &labels, 2), Ok(p.neighbors));
}

#[test]
fn update_stores_fresh_pair_and_requests_projection() {
    let dists: Vec<u64> = vec![10, 20, 15];
    let labels: Vec<usize> = vec![0, 1, 1];
    let mut p = CoverPoint { neighbors: Neighbours::new(0, 0), settled: false };
    let r = update_cover_point(&mut p, &dists, &labels, 2);
    assert_eq!(r, Ok(Some(Neighbours::new(0, 2))));
    assert_eq!(p.neighbors, Neighbours::new(0, 2));
    assert!(!p.settled);
}

#[test]
fn fresh_cover_has_requested_size_and_sentinel_pairs() {
    let cover = new_cover(4);
    assert_eq!(cover.len(), 4);
    for p in &cover {
        assert_eq!(p.neighbors, Neighbours::new(0, 0));
        assert!(!p.settled);
    }
    assert!(!all_settled(&cover));
}

#[test]
fn zero_points_requested_yields_empty_cover() {
    let cover = new_cover(0);
    assert_eq!(cover.len(), 0);
    assert!(all_settled(&cover));
    let pairs: Vec<Neighbours> = vec![];
    assert_eq!(distill_indices(&pairs), Vec::<usize>::new());
}

#[test]
fn distill_keeps_first_occurrence_of_each_pair() {
    let pairs = vec![
        Neighbours::new(0, 1),
        Neighbours::new(2, 3),
        Neighbours::new(1, 0),
        Neighbours::new(2, 3),
        Neighbours::new(4, 5),
    ];
    // (1, 0) canonicalizes to (0, 1), a repeat of the first pair.
    assert_eq!(distill_indices(&pairs), vec![0, 1, 4]);
}

#[test]
fn distill_twice_equals_distill_once() {
    let pairs = vec![
        Neighbours::new(0, 1),
        Neighbours::new(0, 1),
        Neighbours::new(2, 3),
        Neighbours::new(0, 1),
        Neighbours::new(2, 3),
    ];
    let keep = distill_indices(&pairs);
    let once: Vec<Neighbours> = keep.iter().map(|&i| pairs[i]).collect();
    let keep_again = distill_indices(&once);
    let twice: Vec<Neighbours> = keep_again.iter().map(|&i| once[i]).collect();
    assert_eq!(keep_again, (0..once.len()).collect::<Vec<usize>>());
    assert_eq!(twice, once);
}

#[test]
fn distill_never_grows_the_cover() {
    let pairs = vec![Neighbours::new(0, 1), Neighbours::new(0, 2), Neighbours::new(0, 1)];
    let keep = distill_indices(&pairs);
    assert!(keep.len() <= pairs.len());
    assert_eq!(keep.len(), 2);
}

#[test]
fn empty_dataset_is_rejected() {
    assert_eq!(check_nonempty(0), Err(DbsError::EmptyDataset));
    assert_eq!(check_nonempty(3), Ok(()));
}

#[test]
fn mismatched_bounds_are_rejected() {
    assert_eq!(check_bounds_lengths(3, 3, 2), Err(DbsError::DimensionMismatch));
    assert_eq!(check_bounds_lengths(3, 2, 3), Err(DbsError::DimensionMismatch));
    assert_eq!(check_bounds_lengths(2, 2, 2), Ok(()));
}
