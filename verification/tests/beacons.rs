use lumen::beacons::{
    apply_loaded_progress, fresh_request_count, light_shrine, lit_shrine_ids, rekindle_shrines,
    relit_count, spawn_shrines, LoadedProgress, Progress, Shrine,
};

#[test]
fn spawned_shrines_are_dormant_and_numbered() {
    let (shrines, progress) = spawn_shrines(12);
    assert_eq!(shrines.len(), 12);
    for (i, s) in shrines.iter().enumerate() {
        assert_eq!(*s, Shrine { lit: false, index: i as u32 });
    }
    assert_eq!(progress, Progress { lit: 0, total: 12 });
}

#[test]
fn lighting_is_idempotent() {
    let mut shrine = Shrine { lit: false, index: 4 };
    let mut progress = Progress { lit: 0, total: 12 };
    assert!(light_shrine(&mut shrine, &mut progress));
    assert_eq!(shrine, Shrine { lit: true, index: 4 });
    assert_eq!(progress, Progress { lit: 1, total: 12 });
    assert!(!light_shrine(&mut shrine, &mut progress));
    assert_eq!(shrine, Shrine { lit: true, index: 4 });
    assert_eq!(progress, Progress { lit: 1, total: 12 });
}

#[test]
fn rekindle_lights_each_requested_dormant_shrine_once() {
    let (mut shrines, mut progress) = spawn_shrines(5);
    // Position 9 does not exist; position 2 is requested twice.
    assert_eq!(fresh_request_count(&shrines, &[2, 9, 0, 2]), 2);
    let lit_now = rekindle_shrines(&mut shrines, &mut progress, &[2, 9, 0, 2]);
    assert_eq!(lit_now, vec![2, 0]);
    assert_eq!(progress, Progress { lit: 2, total: 5 });
    let lit: Vec<bool> = shrines.iter().map(|s| s.lit).collect();
    assert_eq!(lit, vec![true, false, true, false, false]);
    // Asking again for a lit shrine emits nothing.
    assert_eq!(rekindle_shrines(&mut shrines, &mut progress, &[0]), Vec::<usize>::new());
    assert_eq!(progress.lit, 2);
}

#[test]
fn save_records_the_lit_ids() {
    let shrines = [
        Shrine { lit: true, index: 0 },
        Shrine { lit: false, index: 1 },
        Shrine { lit: true, index: 3 },
        Shrine { lit: true, index: 7 },
    ];
    assert_eq!(lit_shrine_ids(&shrines), vec![0, 3, 7]);
}

#[test]
fn loading_relights_exactly_the_saved_shrines() {
    let (mut world, mut progress) = spawn_shrines(8);
    rekindle_shrines(&mut world, &mut progress, &[5, 1, 6]);
    let saved = lit_shrine_ids(&world);
    assert_eq!(saved, vec![1, 5, 6]);

    let (mut fresh, mut fresh_progress) = spawn_shrines(8);
    let loaded = LoadedProgress::from_saved(saved);
    let relit = apply_loaded_progress(&loaded.lit_shrines, &mut fresh, &mut fresh_progress);
    assert_eq!(relit, vec![1, 5, 6]);
    assert_eq!(fresh, world);
    assert_eq!(fresh_progress, progress);
}

#[test]
fn loading_ignores_unknown_and_duplicate_ids() {
    let (mut fresh, mut progress) = spawn_shrines(3);
    let loaded = LoadedProgress::from_saved(vec![2, 2, 40]);
    assert_eq!(loaded.lit_shrines.len(), 2);
    assert_eq!(relit_count(&loaded.lit_shrines, &fresh), 1);
    let relit = apply_loaded_progress(&loaded.lit_shrines, &mut fresh, &mut progress);
    assert_eq!(relit, vec![2]);
    assert_eq!(progress, Progress { lit: 1, total: 3 });
}

#[test]
fn missing_save_lights_nothing() {
    let (mut fresh, mut progress) = spawn_shrines(4);
    let loaded = LoadedProgress::from_saved(Vec::new());
    assert!(apply_loaded_progress(&loaded.lit_shrines, &mut fresh, &mut progress).is_empty());
    assert_eq!(progress, Progress { lit: 0, total: 4 });
}

#[test]
fn counts_skip_lit_shrines() {
    let shrines = [Shrine { lit: true, index: 0 }, Shrine { lit: false, index: 1 }];
    assert_eq!(fresh_request_count(&shrines, &[0, 1, 1, 0]), 1);
    let loaded = LoadedProgress::from_saved(vec![0, 1]);
    assert_eq!(relit_count(&loaded.lit_shrines, &shrines), 1);
    assert_eq!(fresh_request_count(&shrines, &[]), 0);
}
