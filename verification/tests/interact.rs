use lumen::interact::nearest_dormant_in_range;

/// Horizontal distance from the origin to `(x, z)`, as the ordering key the
/// prompt compares: the bit pattern of the non-negative `f32` distance.
fn key(x: f32, z: f32) -> u32 {
    (x * x + z * z).sqrt().to_bits()
}

const REACH: f32 = 4.0;

#[test]
fn none_when_all_out_of_range() {
    let shrines = [(0usize, key(100.0, 0.0), false)];
    assert_eq!(nearest_dormant_in_range(&shrines, REACH.to_bits()), None);
}

#[test]
fn ignores_already_lit_shrines() {
    let shrines = [(0usize, key(1.0, 0.0), true)];
    assert_eq!(nearest_dormant_in_range(&shrines, REACH.to_bits()), None);
}

#[test]
fn picks_closest_dormant_in_range() {
    let shrines = [
        (0usize, key(3.0, 0.0), false),
        (1usize, key(1.0, 0.0), false),
        (2usize, key(0.5, 0.0), true),
    ];
    assert_eq!(nearest_dormant_in_range(&shrines, REACH.to_bits()), Some(1usize));
}

#[test]
fn radius_is_exclusive_at_the_edge() {
    let shrines = [(0usize, key(4.0, 0.0), false)];
    assert_eq!(nearest_dormant_in_range(&shrines, REACH.to_bits()), None);
}

#[test]
fn empty_world_is_none() {
    let shrines: [(usize, u32, bool); 0] = [];
    assert_eq!(nearest_dormant_in_range(&shrines, REACH.to_bits()), None);
}

#[test]
fn equally_near_shrines_pick_the_first() {
    let shrines = [
        (7u32, key(0.0, 2.0), true),
        (8u32, key(2.0, 0.0), false),
        (9u32, key(0.0, -2.0), false),
    ];
    assert_eq!(nearest_dormant_in_range(&shrines, REACH.to_bits()), Some(8u32));
}

#[test]
fn distance_keys_order_like_distances() {
    let near = key(0.5, 0.25);
    let far = key(3.0, 2.0);
    assert!(near < far);
    assert!(key(3.99, 0.0) < REACH.to_bits());
    assert!(key(4.01, 0.0) > REACH.to_bits());
}
