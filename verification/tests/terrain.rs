use gigantomachia::terrain::{island_cells_supported, lattice_hash};

#[test]
fn invalid_island_settings_are_rejected() {
    assert!(!island_cells_supported(u32::MAX));
    assert!(!island_cells_supported(7));
    assert!(island_cells_supported(8));
    assert!(island_cells_supported(160));
    assert!(island_cells_supported(512));
    assert!(!island_cells_supported(513));
}

#[test]
fn lattice_hash_is_seeded_and_repeatable() {
    assert_eq!(lattice_hash(0, 0, 0), 0);
    assert_eq!(lattice_hash(1, 2, 7), 3440941646);
    assert_eq!(lattice_hash(-3, 5, 7), 539276932);
    assert_eq!(lattice_hash(0, 0, 7), 300173664);
    assert_eq!(lattice_hash(1, 2, 7), lattice_hash(1, 2, 7));
    assert_ne!(lattice_hash(1, 2, 7), lattice_hash(1, 2, 11));
}
