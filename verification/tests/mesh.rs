use gigantomachia::mesh::{grid_indices, indexed_triangles_in_bounds};

#[test]
fn malformed_geometry_is_rejected_before_upload() {
    // One vertex: index 1 is out of bounds, and two indices are not a whole triangle.
    assert!(!indexed_triangles_in_bounds(1, &[0, 1, 0]));
    assert!(!indexed_triangles_in_bounds(1, &[0, 0]));
    assert!(indexed_triangles_in_bounds(1, &[0; 3]));
}

#[test]
fn empty_meshes_are_rejected() {
    assert!(!indexed_triangles_in_bounds(0, &[]));
    assert!(!indexed_triangles_in_bounds(3, &[]));
    assert!(!indexed_triangles_in_bounds(0, &[0, 0, 0]));
    assert!(indexed_triangles_in_bounds(4, &[0, 1, 2, 2, 1, 3]));
}

#[test]
fn single_cell_grid_has_two_ccw_triangles() {
    assert_eq!(grid_indices(1), vec![0, 2, 1, 1, 2, 3]);
    assert_eq!(grid_indices(0), Vec::<u32>::new());
    let two = grid_indices(2);
    assert_eq!(two.len(), 24);
    // Cell (x = 1, z = 1): a = 1 * 3 + 1 = 4, b = 7.
    assert_eq!(&two[18..24], &[4, 7, 5, 5, 7, 8]);
}

#[test]
fn grid_is_bounded_and_faces_up() {
    let cells = 8u32;
    let extent = 16.0f32;
    let mut vertices = Vec::new();
    for z in 0..=cells {
        for x in 0..=cells {
            vertices.push([
                (x as f32 / cells as f32 - 0.5) * extent,
                (z as f32 / cells as f32 - 0.5) * extent,
            ]);
        }
    }
    let indices = grid_indices(cells);
    assert_eq!(vertices.len(), 81);
    assert_eq!(indices.len(), 384);
    for point in &vertices {
        assert!(point.iter().all(|value| value.abs() <= 8.0));
    }
    for triangle in indices.chunks_exact(3) {
        let [a, b, c] = [triangle[0], triangle[1], triangle[2]].map(|i| vertices[i as usize]);
        // Y component of (b - a) x (c - a) for points (x, 0, z).
        let cross_y = (b[1] - a[1]) * (c[0] - a[0]) - (b[0] - a[0]) * (c[1] - a[1]);
        assert!(cross_y > 0.0);
    }
}
