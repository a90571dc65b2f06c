// Scenarios that drive the discrete core with real coordinates: squared
// distances are computed in floating point and handed to the library as
// order-preserving integer keys, exactly as a host pipeline does.

use dbsampler::Neighbours;
use dbsampler::closest_neighbours;

/// Order-preserving encoding of a finite `f64` into a `u64`: comparing two
/// keys compares the encoded numbers.
fn dist_key(d: f64) -> u64 {
    let bits = d.to_bits();
    if bits & 0x8000_0000_0000_0000 != 0 {
        !bits
    } else {
        bits | 0x8000_0000_0000_0000
    }
}

fn dot(x: &[f64], y: &[f64]) -> f64 {
    x.iter().zip(y.iter()).map(|(a, b)| a * b).sum()
}

/// Squared distance via the identity `|x|^2 + |y|^2 - 2 x.y`.
fn squared_distance(x: &[f64], y: &[f64]) -> f64 {
    dot(x, x) + dot(y, y) - 2.0 * dot(x, y)
}

fn keys_to_dataset(query: &[f64], data: &[Vec<f64>]) -> Vec<u64> {
    data.iter().map(|p| dist_key(squared_distance(query, p))).collect()
}

#[test]
fn distance_key_encoding_preserves_order() {
    let values = [-3.5, -1.0, 0.0, 0.25, 1.0, 2.0, 1.0e300];
    for i in 0..values.len() {
        for j in 0..values.len() {
            assert_eq!(values[i] < values[j], dist_key(values[i]) < dist_key(values[j]));
        }
    }
}

#[test]
fn distance_identity_matches_direct_form() {
    let pairs: Vec<(Vec<f64>, Vec<f64>)> = vec![
        (vec![0.0, 0.0], vec![2.0, 0.0]),
        (vec![1.5, -2.25, 3.0], vec![-0.5, 0.75, 1.0]),
        (vec![10.0, 1.0e-3], vec![-10.0, 5.0e2]),
        (vec![0.125], vec![0.625]),
    ];
    for (x, y) in &pairs {
        let via_identity = squared_distance(x, y);
        let direct: f64 = x.iter().zip(y.iter()).map(|(a, b)| (a - b) * (a - b)).sum();
        let scale = direct.abs().max(1.0);
        assert!((via_identity - direct).abs() <= 1.0e-9 * scale);
    }
}

#[test]
fn two_point_dataset_converges_onto_the_bisector() {
    // Dataset: (0, 0) labeled 0 and (2, 0) labeled 1. Any cover point's two
    // closest cross-class representatives are those two points, and one
    // projection onto their perpendicular bisector lands on the line x = 1.
    let data = vec![vec![0.0, 0.0], vec![2.0, 0.0]];
    let labels: Vec<usize> = vec![0, 1];
    let mut cover_coords = vec![0.3, 0.8];

    let keys = keys_to_dataset(&cover_coords, &data);
    let pair = closest_neighbours(&keys, &labels, 2).unwrap();
    assert_eq!(pair, Neighbours::new(0, 1));

    // Project onto the perpendicular bisector of the pair.
    let u = &data[pair.first];
    let v = &data[pair.second];
    let center: Vec<f64> = u.iter().zip(v.iter()).map(|(a, b)| (a + b) / 2.0).collect();
    let b: Vec<f64> = u.iter().zip(v.iter()).map(|(a, b)| a - b).collect();
    for (c, m) in cover_coords.iter_mut().zip(center.iter()) {
        *c -= m;
    }
    let scale = dot(&b, &cover_coords) / dot(&b, &b);
    for ((c, bd), m) in cover_coords.iter_mut().zip(b.iter()).zip(center.iter()) {
        *c = *c - scale * bd + m;
    }
    assert!((cover_coords[0] - 1.0).abs() <= 1.0e-12);
    assert!((cover_coords[1] - 0.8).abs() <= 1.0e-12);

    // The pair computed at the projected coordinates is unchanged: the
    // cover point has settled.
    let keys_after = keys_to_dataset(&cover_coords, &data);
    assert_eq!(closest_neighbours(&keys_after, &labels, 2).unwrap(), pair);
}
