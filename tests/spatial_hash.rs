use flip_fluid::spatial_hash::SpatialHash;

/// Cell of a non-negative point, truncating its coordinates over the spacing.
fn coords(x: f32, y: f32, spacing: f32) -> (i32, i32) {
    ((x / spacing) as i32, (y / spacing) as i32)
}

/// Cell of a point, by flooring.
fn floor_cell(x: f32, y: f32, spacing: f32) -> (i32, i32) {
    ((x / spacing).floor() as i32, (y / spacing).floor() as i32)
}

/// Candidates of the window of cells covering `max_distance` around a point.
fn query_window(hash: &SpatialHash, x: f32, y: f32, max_distance: f32, spacing: f32) -> Vec<usize> {
    let (i_low, j_low) = coords(x - max_distance, y - max_distance, spacing);
    let (i_high, j_high) = coords(x + max_distance, y + max_distance, spacing);
    hash.query(i_low, j_low, i_high, j_high)
}

#[test]
fn indices() {
    let mut hash = SpatialHash::new(5);

    let one = coords(15., 25., 10.);
    let two = coords(25., 5., 10.);
    let three = coords(35., 25., 10.);
    let four = coords(24., 6., 10.);
    let five = coords(16., 24., 10.);

    hash.populate(&vec![one, two, three, four, five]);

    assert_eq!(hash.hash_coordinates(four.0, four.1), 2);
    assert_eq!(hash.hash_coordinates(two.0, two.1), 2);
    assert_eq!(hash.hash_coordinates(one.0, one.1), 3);
    assert_eq!(hash.hash_coordinates(five.0, five.1), 3);
    assert_eq!(hash.hash_coordinates(three.0, three.1), 9);
}

#[test]
fn query_point() {
    let mut hash = SpatialHash::new(20);

    let points = [(15., 25.), (25., 5.), (35., 25.), (24., 6.), (16., 24.)];
    let ids = [1, 2, 3, 4, 5];
    let cells: Vec<(i32, i32)> = points.iter().map(|(x, y)| coords(*x, *y, 10.)).collect();
    hash.populate(&cells);

    let found = |x: f32, y: f32| -> Vec<i32> {
        query_window(&hash, x, y, 10., 10.).iter().map(|k| ids[*k]).collect()
    };

    // (15, 15)
    assert!(found(15., 5.).contains(&4));

    // (25, 5)
    assert!(found(25., 5.).contains(&2));
    assert!(found(25., 5.).contains(&4));

    // (15, 15)
    assert!(found(15., 15.).contains(&4));
    assert!(found(15., 15.).contains(&5));

    // (25, 15)
    assert!(found(25., 15.).contains(&4));
    assert!(found(25., 15.).contains(&5));

    // (15, 25)
    assert!(found(15., 25.).contains(&1));
    assert!(found(15., 25.).contains(&5));

    // (25, 25)
    assert!(found(25., 25.).contains(&5));

    // (35, 25)
    assert!(found(35., 25.).contains(&3));
}

#[test]
fn hash_of_a_cell_stays_in_the_table() {
    let hash = SpatialHash::new(7);
    for (i, j) in [(0, 0), (-1, -1), (i32::MAX, i32::MIN), (123, -456)] {
        assert!(hash.hash_coordinates(i, j) < 14);
    }
    // (col * 92837111) xor (row * 689287499) mod 14 for cell (1, 2)
    let expected = ((92837111u64) ^ (2 * 689287499u64)) % 14;
    assert_eq!(hash.hash_coordinates(1, 2) as u64, expected);
}

#[test]
fn empty_hash_finds_nothing() {
    let mut hash = SpatialHash::new(4);
    assert!(hash.query(-5, -5, 5, 5).is_empty());
    hash.populate(&vec![]);
    assert!(hash.query(-5, -5, 5, 5).is_empty());
}

#[test]
fn empty_window_finds_nothing() {
    let mut hash = SpatialHash::new(2);
    hash.populate(&vec![(0, 0), (1, 1)]);
    assert!(hash.query(1, 1, 0, 0).is_empty());
}

#[test]
fn query_lists_each_point_once() {
    let mut hash = SpatialHash::new(1);
    let cells = vec![(0, 0), (0, 0), (1, 0), (5, 7), (-3, 2)];
    hash.populate(&cells);
    // with two buckets many cells collide; every point is still listed once
    let mut found = hash.query(-10, -10, 10, 10);
    found.sort();
    assert_eq!(found, vec![0, 1, 2, 3, 4]);
}

#[test]
fn populate_replaces_earlier_points() {
    let mut hash = SpatialHash::new(10);
    hash.populate(&vec![(0, 0), (1, 1)]);
    hash.populate(&vec![(4, 4)]);
    assert_eq!(hash.query(4, 4, 4, 4), vec![0]);
    assert!(hash.query(0, 0, 1, 1).iter().all(|k| *k == 0));
}

/// A small deterministic generator of points in `[0, 100) x [0, 100)`.
fn points(seed: u64, n: usize) -> Vec<(f32, f32)> {
    let mut state = seed;
    let mut next = move || {
        state = state.wrapping_mul(6364136223846793005).wrapping_add(1442695040888963407);
        ((state >> 33) % 10_000) as f32 / 100.0
    };
    (0..n).map(|_| (next(), next())).collect()
}

#[test]
fn brute_force_finds_no_missing_neighbour() {
    for (seed, radius) in [(1u64, 2.0f32), (7, 5.0), (42, 0.5), (99, 12.0)] {
        let spacing = 2.0 * radius;
        let pts = points(seed, 300);
        let cells: Vec<(i32, i32)> = pts.iter().map(|(x, y)| floor_cell(*x, *y, spacing)).collect();
        let mut hash = SpatialHash::new(pts.len());
        hash.populate(&cells);
        for (qx, qy) in points(seed + 1, 50) {
            let (i_low, j_low) = floor_cell(qx - radius, qy - radius, spacing);
            let (i_high, j_high) = floor_cell(qx + radius, qy + radius, spacing);
            let found = hash.query(i_low, j_low, i_high, j_high);
            let mut sorted = found.clone();
            sorted.sort();
            sorted.dedup();
            assert_eq!(sorted.len(), found.len());
            for (k, (x, y)) in pts.iter().enumerate() {
                let d2 = (x - qx) * (x - qx) + (y - qy) * (y - qy);
                if d2 <= radius * radius {
                    assert!(found.contains(&k), "point {} is missing", k);
                }
            }
        }
    }
}
