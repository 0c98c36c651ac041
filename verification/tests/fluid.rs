use gigantomachia::fluid::{
    block_lattice, block_particle_count,
    gpu::{check_batch, workgroups, BatchError},
    grid::NeighborGrid,
    surface::{
        check_sample_domain, check_vertex_budget, cube_corner, cube_tetrahedron, sample_index,
        tetrahedron_crossings, SurfaceError,
    },
};

#[test]
fn blocks_hold_one_to_8192_particles() {
    assert_eq!(block_particle_count([6, 5, 6]), Some(180));
    assert_eq!(block_particle_count([1, 1, 1]), Some(1));
    assert_eq!(block_particle_count([8192, 1, 1]), Some(8192));
    assert_eq!(block_particle_count([0, 5, 6]), None);
    assert_eq!(block_particle_count([100, 100, 1]), None);
    assert_eq!(block_particle_count([8193, 1, 1]), None);
    assert_eq!(block_particle_count([u32::MAX, u32::MAX, u32::MAX]), None);
    assert_eq!(block_particle_count([u32::MAX, u32::MAX, 0]), None);
}

#[test]
fn block_lattice_varies_x_fastest() {
    let points = block_lattice([2, 3, 2]);
    assert_eq!(points.len(), 12);
    assert_eq!(points[0], [0, 0, 0]);
    assert_eq!(points[1], [1, 0, 0]);
    assert_eq!(points[2], [0, 1, 0]);
    assert_eq!(points[5], [1, 2, 0]);
    assert_eq!(points[6], [0, 0, 1]);
    assert_eq!(points[11], [1, 2, 1]);
}

#[test]
fn neighbor_queries_visit_adjacent_cells_once_in_order() {
    let cells = [(0, 0, 0), (5, 5, 5), (1, 0, 0), (-1, -1, -1), (0, 0, 0), (2, 0, 0), (0, 1, 1)];
    let grid = NeighborGrid::build(&cells);
    // Visiting order: z, then y, then x from -1 to 1; ascending within a cell.
    assert_eq!(grid.neighbors((0, 0, 0)), vec![3, 0, 4, 2, 6]);
    assert_eq!(grid.neighbors((5, 5, 5)), vec![1]);
    assert_eq!(grid.neighbors((3, 0, 0)), vec![5]);
    assert_eq!(grid.neighbors((100, 0, 0)), Vec::<usize>::new());
    let far = NeighborGrid::build(&[(i32::MAX - 1, i32::MIN + 1, 0)]);
    assert_eq!(far.neighbors((i32::MAX - 1, i32::MIN + 1, 0)), vec![0]);
}

#[test]
fn surface_domains_above_600000_samples_are_rejected() {
    assert_eq!(check_sample_domain([100, 100, 60]), Ok(600_000));
    assert_eq!(check_sample_domain([100, 100, 61]), Err(SurfaceError::TooManySamples));
    assert_eq!(check_sample_domain([u32::MAX, u32::MAX, u32::MAX]), Err(SurfaceError::TooManySamples));
    assert_eq!(check_sample_domain([0, u32::MAX, u32::MAX]), Ok(0));
    assert_eq!(check_vertex_budget(2_000_000), Ok(()));
    assert_eq!(check_vertex_budget(2_000_001), Err(SurfaceError::TooManyVertices));
}

#[test]
fn samples_are_laid_out_x_fastest() {
    let shape = [4, 3, 2];
    assert_eq!(sample_index(shape, 0, 0, 0), 0);
    assert_eq!(sample_index(shape, 3, 0, 0), 3);
    assert_eq!(sample_index(shape, 0, 1, 0), 4);
    assert_eq!(sample_index(shape, 0, 0, 1), 12);
    assert_eq!(sample_index(shape, 3, 2, 1), 23);
}

#[test]
fn tetrahedra_emit_corners_on_crossing_edges() {
    assert!(tetrahedron_crossings([false; 4]).is_empty());
    assert!(tetrahedron_crossings([true; 4]).is_empty());
    assert_eq!(tetrahedron_crossings([true, false, false, false]), vec![(0, 1), (2, 0), (0, 3)]);
    assert_eq!(
        tetrahedron_crossings([true, true, false, false]),
        vec![(1, 2), (2, 0), (0, 3), (1, 2), (0, 3), (1, 3)]
    );
    for case in 0..16u32 {
        let inside = [case & 1 != 0, case & 2 != 0, case & 4 != 0, case & 8 != 0];
        let ends = tetrahedron_crossings(inside);
        let count = inside.iter().filter(|&&v| v).count();
        assert_eq!(ends.len() / 3, match count { 0 | 4 => 0, 2 => 2, _ => 1 });
        for (a, b) in ends {
            assert_ne!(inside[a], inside[b]);
        }
    }
    assert_eq!(cube_corner(6), [1, 1, 1]);
    assert_eq!(cube_tetrahedron(3), [0, 3, 7, 6]);
}

#[test]
fn gpu_batches_allow_at_most_8_steps_and_64_colliders() {
    assert_eq!(check_batch(0, 0), Ok(false));
    assert_eq!(check_batch(8, 64), Ok(true));
    assert_eq!(check_batch(9, 0), Err(BatchError::TooLarge));
    assert_eq!(check_batch(1, 65), Err(BatchError::TooLarge));
    assert_eq!(workgroups(0), 0);
    assert_eq!(workgroups(1), 1);
    assert_eq!(workgroups(64), 1);
    assert_eq!(workgroups(65), 2);
    assert_eq!(workgroups(8192), 128);
}
