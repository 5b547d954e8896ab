use lumen::poi::PoiKind;
use lumen::terrain::{lattice_hash_bits, LATTICE_HASH_MAX};
use lumen::world::{terrain_indices, GRID};
use std::collections::HashSet;

#[test]
fn lattice_hash_matches_known_values() {
    assert_eq!(lattice_hash_bits(0, 0), 0);
    assert_eq!(lattice_hash_bits(1, 0), 1_339_862);
    assert_eq!(lattice_hash_bits(0, 1), 11_379_749);
    assert_eq!(lattice_hash_bits(3, -7), 8_610_383);
    assert_eq!(lattice_hash_bits(-1, -1), 9_747_441);
    assert_eq!(lattice_hash_bits(i32::MAX, i32::MIN), 6_166_909);
}

#[test]
fn lattice_hash_is_deterministic_and_24_bit() {
    for ix in -20..20 {
        for iz in -20..20 {
            let h = lattice_hash_bits(ix, iz);
            assert_eq!(h, lattice_hash_bits(ix, iz));
            assert!(h <= LATTICE_HASH_MAX);
            // Scaled onto [-1, 1] as the noise does.
            let unit = h as f32 / LATTICE_HASH_MAX as f32 * 2.0 - 1.0;
            assert!((-1.0..=1.0).contains(&unit));
        }
    }
}

#[test]
fn one_quad_mesh_has_two_triangles() {
    assert_eq!(terrain_indices(1), vec![0, 2, 1, 1, 2, 3]);
}

#[test]
fn two_by_two_mesh_indices() {
    assert_eq!(
        terrain_indices(2),
        vec![0, 3, 1, 1, 3, 4, 1, 4, 2, 2, 4, 5, 3, 6, 4, 4, 6, 7, 4, 7, 5, 5, 7, 8]
    );
}

#[test]
fn full_terrain_mesh_indices_stay_on_the_grid() {
    let indices = terrain_indices(GRID);
    assert_eq!(indices.len(), GRID * GRID * 6);
    let verts = ((GRID + 1) * (GRID + 1)) as u32;
    assert!(indices.iter().all(|&i| i < verts));
    assert_eq!(*indices.last().unwrap(), verts - 1);
}

#[test]
fn covers_at_least_three_distinct_kinds() {
    // The full set of landmarks is six sites.
    let kinds: HashSet<_> = (0..6).map(PoiKind::from_index).collect();
    assert!(kinds.len() >= 3, "expected >=3 POI kinds, got {}", kinds.len());
}

#[test]
fn poi_kinds_rotate() {
    assert_eq!(PoiKind::from_index(0), PoiKind::StoneRing);
    assert_eq!(PoiKind::from_index(1), PoiKind::GreatTree);
    assert_eq!(PoiKind::from_index(2), PoiKind::CliffOverlook);
    assert_eq!(PoiKind::from_index(3), PoiKind::StoneRing);
    assert_eq!(PoiKind::from_index(usize::MAX), PoiKind::StoneRing);
}
