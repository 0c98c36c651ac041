//! Topology of indexed triangle meshes: the regular XZ grid and index validation.

use vstd::arithmetic::div_mod::lemma_fundamental_div_mod_converse;
use vstd::prelude::*;

verus! {

/// Vertex number of grid point `(x, z)` in a grid of `cells` cells per side, row-major along X.
pub open spec fn grid_vertex(cells: int, x: int, z: int) -> int {
    z * (cells + 1) + x
}

/// Corner `c` (0..6) of the two triangles of cell `(x, z)`: `[a, b, a+1]` then `[a+1, b, b+1]`,
/// where `a` is the cell's lower-left vertex and `b` the vertex one row above it.
pub open spec fn grid_corner(cells: int, z: int, x: int, c: int) -> int {
    let a = grid_vertex(cells, x, z);
    let b = a + cells + 1;
    if c == 0 {
        a
    } else if c == 1 {
        b
    } else if c == 2 {
        a + 1
    } else if c == 3 {
        a + 1
    } else if c == 4 {
        b
    } else {
        b + 1
    }
}

/// Position of a vertex on the integer lattice of the grid, as `(x, z)`.
pub open spec fn grid_position(cells: int, v: int) -> (int, int) {
    (v % (cells + 1), v / (cells + 1))
}

/// Y component of `(q - p) x (r - p)` for three points of the XZ plane (y = 0).
/// It is positive exactly when the triangle is counter-clockwise viewed from +Y.
pub open spec fn upward_cross(p: (int, int), q: (int, int), r: (int, int)) -> int {
    (q.1 - p.1) * (r.0 - p.0) - (q.0 - p.0) * (r.1 - p.1)
}

/// Number of grid points of a grid with `cells` cells per side.
pub open spec fn grid_vertex_count(cells: int) -> int {
    (cells + 1) * (cells + 1)
}

proof fn lemma_grid_corner_bounds(cells: int, z: int, x: int, c: int)
    requires
        0 <= z < cells,
        0 <= x < cells,
        0 <= c < 6,
    ensures
        0 <= grid_corner(cells, z, x, c) < grid_vertex_count(cells),
        grid_corner(cells, z, x, c) <= grid_vertex(cells, x, z) + cells + 2,
{
    assert(z * (cells + 1) + x + cells + 2 < (cells + 1) * (cells + 1)) by (nonlinear_arith)
        requires
            0 <= z < cells,
            0 <= x < cells,
    ;
    assert(0 <= z * (cells + 1)) by (nonlinear_arith)
        requires
            0 <= z,
            0 <= cells,
    ;
}

/// CCW triangles for a regular XZ grid, viewed from +Y: two triangles per cell,
/// six indices per cell, cells ordered row by row along X.
pub fn grid_indices(cells: u32) -> (indices: Vec<u32>)
    requires
        6 * cells * cells <= u32::MAX,
    ensures
        indices@.len() == 6 * cells * cells,
        forall|z: int, x: int, c: int|
            0 <= z < cells && 0 <= x < cells && 0 <= c < 6 ==> indices@[6 * (z * cells + x) + c]
                == #[trigger] grid_corner(cells as int, z, x, c),
        forall|i: int| 0 <= i < indices@.len() ==> indices@[i] < grid_vertex_count(cells as int),
{
    let ghost n = cells as int;
    proof {
        assert(n * n <= 6 * n * n && n * n * 6 == 6 * n * n) by (nonlinear_arith)
            requires
                0 <= n,
        ;
        assert((n + 1) * (n + 1) <= u32::MAX + 1) by (nonlinear_arith)
            requires
                0 <= n,
                6 * n * n <= u32::MAX,
        ;
    }
    let mut indices: Vec<u32> = Vec::with_capacity((cells * cells * 6) as usize);
    let mut z: u32 = 0;
    while z < cells
        invariant
            0 <= z <= cells,
            n == cells,
            6 * n * n <= u32::MAX,
            (n + 1) * (n + 1) <= u32::MAX + 1,
            indices@.len() == 6 * (z * n),
            forall|zz: int, xx: int, c: int|
                0 <= zz < z && 0 <= xx < n && 0 <= c < 6 ==> indices@[6 * (zz * n + xx) + c]
                    == #[trigger] grid_corner(n, zz, xx, c),
            forall|i: int| 0 <= i < indices@.len() ==> indices@[i] < grid_vertex_count(n),
        decreases cells - z,
    {
        let mut x: u32 = 0;
        while x < cells
            invariant
                0 <= z < cells,
                0 <= x <= cells,
                n == cells,
                6 * n * n <= u32::MAX,
                (n + 1) * (n + 1) <= u32::MAX + 1,
                indices@.len() == 6 * (z * n + x),
                forall|zz: int, xx: int, c: int|
                    0 <= xx < n && 0 <= c < 6 && (0 <= zz < z || (zz == z && 0 <= xx < x))
                        ==> indices@[6 * (zz * n + xx) + c] == #[trigger] grid_corner(n, zz, xx, c),
                forall|i: int| 0 <= i < indices@.len() ==> indices@[i] < grid_vertex_count(n),
            decreases cells - x,
        {
            proof {
                lemma_grid_corner_bounds(n, z as int, x as int, 5);
                assert(z * (n + 1) + x + n + 2 < (n + 1) * (n + 1)) by (nonlinear_arith)
                    requires
                        0 <= z < n,
                        0 <= x < n,
                ;
                assert(z * (n + 1) >= 0) by (nonlinear_arith)
                    requires
                        0 <= z,
                        0 <= n,
                ;
            }
            let a = z * (cells + 1) + x;
            let b = a + cells + 1;
            let ghost before = indices@;
            indices.push(a);
            indices.push(b);
            indices.push(a + 1);
            indices.push(a + 1);
            indices.push(b);
            indices.push(b + 1);
            proof {
                let k = z * n + x;
                assert(indices@.len() == 6 * (z * n + x + 1));
                assert forall|zz: int, xx: int, c: int|
                    0 <= xx < n && 0 <= c < 6 && (0 <= zz < z || (zz == z && 0 <= xx < x + 1))
                        implies indices@[6 * (zz * n + xx) + c] == #[trigger] grid_corner(
                        n,
                        zz,
                        xx,
                        c,
                    ) by {
                    if zz == z && xx == x {
                        assert(6 * (zz * n + xx) + c == 6 * k + c);
                    } else {
                        assert(zz * n + xx < k) by (nonlinear_arith)
                            requires
                                0 <= xx < n,
                                0 <= x,
                                (0 <= zz < z || (zz == z && 0 <= xx < x)),
                                k == z * n + x,
                        ;
                        assert(6 * (zz * n + xx) + c < before.len());
                        assert(indices@[6 * (zz * n + xx) + c] == before[6 * (zz * n + xx)
                            + c]);
                    }
                }
            }
            x = x + 1;
        }
        proof {
            assert(z * n + n == (z + 1) * n) by (nonlinear_arith);
        }
        z = z + 1;
    }
    proof {
        assert(6 * (n * n) == 6 * n * n) by (nonlinear_arith);
    }
    indices
}

/// Every triangle of the grid is counter-clockwise when viewed from +Y:
/// its upward cross product on the integer lattice is positive.
pub proof fn lemma_grid_faces_up(cells: int, z: int, x: int, t: int)
    requires
        0 <= z < cells,
        0 <= x < cells,
        0 <= t < 2,
    ensures
        upward_cross(
            grid_position(cells, grid_corner(cells, z, x, 3 * t)),
            grid_position(cells, grid_corner(cells, z, x, 3 * t + 1)),
            grid_position(cells, grid_corner(cells, z, x, 3 * t + 2)),
        ) > 0,
{
    let d = cells + 1;
    assert(z * d + x == z * d + x);
    lemma_fundamental_div_mod_converse(z * d + x, d, z, x);
    lemma_fundamental_div_mod_converse(z * d + x + 1, d, z, x + 1);
    assert((z + 1) * d == z * d + d) by (nonlinear_arith);
    lemma_fundamental_div_mod_converse(z * d + x + d, d, z + 1, x);
    lemma_fundamental_div_mod_converse(z * d + x + d + 1, d, z + 1, x + 1);
    let a = grid_vertex(cells, x, z);
    assert(grid_position(cells, a) == (x, z));
    assert(grid_position(cells, a + 1) == (x + 1, z));
    assert(grid_position(cells, a + cells + 1) == (x, z + 1));
    assert(grid_position(cells, a + cells + 2) == (x + 1, z + 1));
    if t == 0 {
        assert(upward_cross((x, z), (x, z + 1), (x + 1, z)) == 1) by (nonlinear_arith);
    } else {
        assert(upward_cross((x + 1, z), (x, z + 1), (x + 1, z + 1)) == 1) by (nonlinear_arith);
    }
}

/// Indexed triangle lists: nonempty, whole triangles, addressable with 32-bit indices,
/// and every index naming an existing vertex.
pub open spec fn indexed_triangles_in_bounds_spec(vertex_count: int, indices: Seq<u32>) -> bool {
    &&& vertex_count > 0
    &&& indices.len() > 0
    &&& indices.len() % 3 == 0
    &&& indices.len() <= u32::MAX
    &&& forall|i: int| 0 <= i < indices.len() ==> indices[i] < vertex_count
}

/// The topological half of mesh validation: whether `indices` describes whole triangles
/// over `vertex_count` vertices.
pub fn indexed_triangles_in_bounds(vertex_count: usize, indices: &[u32]) -> (valid: bool)
    ensures
        valid == indexed_triangles_in_bounds_spec(vertex_count as int, indices@),
        valid ==> forall|i: int| 0 <= i < indices@.len() ==> indices@[i] < vertex_count,
        valid ==> indices@.len() > 0 && indices@.len() % 3 == 0 && vertex_count > 0,
        (exists|i: int| 0 <= i < indices@.len() && indices@[i] >= vertex_count) ==> !valid,
{
    if vertex_count == 0 || indices.len() == 0 || indices.len() % 3 != 0 || indices.len()
        > u32::MAX as usize {
        return false;
    }
    let mut i: usize = 0;
    while i < indices.len()
        invariant
            0 <= i <= indices@.len(),
            forall|j: int| 0 <= j < i ==> indices@[j] < vertex_count,
        decreases indices@.len() - i,
    {
        if indices[i] as usize >= vertex_count {
            return false;
        }
        i = i + 1;
    }
    true
}

/// A valid triangle list names only existing vertices (every index, the last one included),
/// consists of whole triangles, and is nonempty; conversely one out-of-range index, anywhere,
/// makes a list invalid.
pub proof fn lemma_valid_indices_name_existing_vertices(vertex_count: int, indices: Seq<u32>)
    ensures
        indexed_triangles_in_bounds_spec(vertex_count, indices) ==> {
            &&& forall|i: int| 0 <= i < indices.len() ==> #[trigger] indices[i] < vertex_count
            &&& indices.len() % 3 == 0
            &&& indices.len() > 0
            &&& vertex_count > 0
        },
        (exists|i: int| 0 <= i < indices.len() && #[trigger] indices[i] >= vertex_count)
            ==> !indexed_triangles_in_bounds_spec(vertex_count, indices),
{
}

/// Validity is about the vertices named, not their count: a valid list stays valid over more
/// vertices, and two valid lists over the same vertices concatenate into a valid list.
pub proof fn lemma_valid_indices_compose(vertex_count: int, more: int, a: Seq<u32>, b: Seq<u32>)
    requires
        indexed_triangles_in_bounds_spec(vertex_count, a),
        vertex_count <= more,
    ensures
        indexed_triangles_in_bounds_spec(more, a),
        indexed_triangles_in_bounds_spec(vertex_count, b) && a.len() + b.len() <= u32::MAX
            ==> indexed_triangles_in_bounds_spec(vertex_count, a + b),
{
    if indexed_triangles_in_bounds_spec(vertex_count, b) && a.len() + b.len() <= u32::MAX {
        assert forall|i: int| 0 <= i < (a + b).len() implies (a + b)[i] < vertex_count by {
            if i < a.len() {
                assert((a + b)[i] == a[i]);
            } else {
                assert((a + b)[i] == b[i - a.len()]);
            }
        }
        assert((a + b).len() % 3 == 0) by {
            vstd::arithmetic::div_mod::lemma_mod_adds(a.len() as int, b.len() as int, 3);
        }
    }
}

} // verus!
