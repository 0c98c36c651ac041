//! Sampling domain and marching-tetrahedra topology of reconstructed fluid surfaces.
//! The density field lives on a regular lattice of samples; each lattice cube is split into
//! six tetrahedra around its main diagonal, and each tetrahedron contributes up to two
//! triangles whose corners lie on edges that cross the iso level.

use vstd::prelude::*;

verus! {

/// Largest number of density samples a reconstruction may use.
pub open spec fn max_surface_samples() -> int {
    600_000
}

/// Largest number of vertices a reconstructed surface may reach before it is rejected.
pub open spec fn max_surface_vertices() -> int {
    2_000_000
}

/// Why a surface cannot be reconstructed within the prototype's budget.
#[derive(Clone, Copy, Debug, PartialEq, Eq, Structural)]
pub enum SurfaceError {
    /// The sampling domain exceeds 600,000 samples.
    TooManySamples,
    /// The surface exceeds two million vertices.
    TooManyVertices,
}

/// Number of samples of a lattice of `shape[0] x shape[1] x shape[2]` points.
pub open spec fn sample_total(shape: [u32; 3]) -> int {
    shape[0] * shape[1] * shape[2]
}

/// Accept a sampling lattice within the sample budget, returning its sample count.
pub fn check_sample_domain(shape: [u32; 3]) -> (result: Result<u64, SurfaceError>)
    ensures
        match result {
            Ok(n) => sample_total(shape) <= max_surface_samples() && n == sample_total(shape),
            Err(e) => sample_total(shape) > max_surface_samples() && e
                == SurfaceError::TooManySamples,
        },
{
    let x = shape[0] as u64;
    let y = shape[1] as u64;
    let z = shape[2] as u64;
    proof {
        assert(x * y <= 0xffff_ffff * 0xffff_ffff) by (nonlinear_arith)
            requires
                x <= 0xffff_ffff,
                y <= 0xffff_ffff,
        ;
    }
    let xy = x * y;
    if z != 0 && xy > 600_000 {
        proof {
            assert(xy * z >= xy) by (nonlinear_arith)
                requires
                    z >= 1,
                    xy >= 0,
            ;
        }
        return Err(SurfaceError::TooManySamples);
    }
    proof {
        assert(xy * z <= 600_000 * 0xffff_ffff) by (nonlinear_arith)
            requires
                z == 0 || xy <= 600_000,
                z <= 0xffff_ffff,
                xy >= 0,
        ;
    }
    let total = xy * z;
    if total > 600_000 {
        Err(SurfaceError::TooManySamples)
    } else {
        Ok(total)
    }
}

/// Linear position of sample `(x, y, z)`: X varies fastest, then Y, then Z.
pub open spec fn sample_index_spec(shape: [u32; 3], x: int, y: int, z: int) -> int {
    (z * shape[1] + y) * shape[0] + x
}

/// Sample `(x, y, z)` lies inside the lattice.
pub open spec fn in_lattice(shape: [u32; 3], x: int, y: int, z: int) -> bool {
    0 <= x < shape[0] && 0 <= y < shape[1] && 0 <= z < shape[2]
}

proof fn lemma_sample_index_bounds(shape: [u32; 3], x: int, y: int, z: int)
    requires
        in_lattice(shape, x, y, z),
    ensures
        0 <= sample_index_spec(shape, x, y, z) < sample_total(shape),
{
    let sx = shape[0] as int;
    let sy = shape[1] as int;
    let sz = shape[2] as int;
    assert(0 <= (z * sy + y) * sx + x < sx * sy * sz) by (nonlinear_arith)
        requires
            0 <= x < sx,
            0 <= y < sy,
            0 <= z < sz,
    ;
}

/// Position of a lattice sample in the density arrays.
pub fn sample_index(shape: [u32; 3], x: u32, y: u32, z: u32) -> (index: usize)
    requires
        sample_total(shape) <= max_surface_samples(),
        in_lattice(shape, x as int, y as int, z as int),
    ensures
        index == sample_index_spec(shape, x as int, y as int, z as int),
        index < sample_total(shape),
{
    proof {
        lemma_sample_index_bounds(shape, x as int, y as int, z as int);
        let sx = shape[0] as int;
        let sy = shape[1] as int;
        assert(z * sy + y <= (z * sy + y) * sx && (z * sy + y) * sx <= sample_total(shape)
            && z * sy <= sample_total(shape)) by (nonlinear_arith)
            requires
                0 <= x < sx,
                0 <= y < sy,
                0 <= z < shape[2],
                sample_total(shape) == sx * sy * shape[2],
        ;
    }
    let sx = shape[0] as usize;
    let sy = shape[1] as usize;
    let row = z as usize * sy + y as usize;
    let base = row * sx;
    base + x as usize
}

/// Distinct lattice samples occupy distinct array positions, so every sample accumulates
/// into its own slot.
pub proof fn lemma_sample_index_injective(
    shape: [u32; 3],
    a: (int, int, int),
    b: (int, int, int),
)
    requires
        in_lattice(shape, a.0, a.1, a.2),
        in_lattice(shape, b.0, b.1, b.2),
        sample_index_spec(shape, a.0, a.1, a.2) == sample_index_spec(shape, b.0, b.1, b.2),
    ensures
        a == b,
{
    let sx = shape[0] as int;
    let sy = shape[1] as int;
    let ra = a.2 * sy + a.1;
    let rb = b.2 * sy + b.1;
    vstd::arithmetic::div_mod::lemma_fundamental_div_mod_converse(ra * sx + a.0, sx, ra, a.0);
    vstd::arithmetic::div_mod::lemma_fundamental_div_mod_converse(rb * sx + b.0, sx, rb, b.0);
    vstd::arithmetic::div_mod::lemma_fundamental_div_mod_converse(ra, sy, a.2, a.1);
    vstd::arithmetic::div_mod::lemma_fundamental_div_mod_converse(rb, sy, b.2, b.1);
}

/// Reject a surface that already holds more than two million vertices.
pub fn check_vertex_budget(vertices: usize) -> (result: Result<(), SurfaceError>)
    ensures
        result is Ok <==> vertices <= max_surface_vertices(),
        result is Err ==> result == Err::<(), SurfaceError>(SurfaceError::TooManyVertices),
{
    if vertices > 2_000_000 {
        Err(SurfaceError::TooManyVertices)
    } else {
        Ok(())
    }
}

/// Offset of corner `k` (0..8) of a lattice cube: the bottom face counter-clockwise,
/// then the top face.
pub open spec fn cube_corner_spec(k: int) -> [u32; 3] {
    if k == 0 {
        [0, 0, 0]
    } else if k == 1 {
        [1, 0, 0]
    } else if k == 2 {
        [1, 1, 0]
    } else if k == 3 {
        [0, 1, 0]
    } else if k == 4 {
        [0, 0, 1]
    } else if k == 5 {
        [1, 0, 1]
    } else if k == 6 {
        [1, 1, 1]
    } else {
        [0, 1, 1]
    }
}

pub fn cube_corner(k: usize) -> (offset: [u32; 3])
    requires
        k < 8,
    ensures
        offset == cube_corner_spec(k as int),
{
    match k {
        0 => [0, 0, 0],
        1 => [1, 0, 0],
        2 => [1, 1, 0],
        3 => [0, 1, 0],
        4 => [0, 0, 1],
        5 => [1, 0, 1],
        6 => [1, 1, 1],
        _ => [0, 1, 1],
    }
}

/// Cube corners of tetrahedron `t` (0..6). All six share the diagonal from corner 0 to 6.
pub open spec fn cube_tetrahedron_spec(t: int) -> [usize; 4] {
    if t == 0 {
        [0, 5, 1, 6]
    } else if t == 1 {
        [0, 1, 2, 6]
    } else if t == 2 {
        [0, 2, 3, 6]
    } else if t == 3 {
        [0, 3, 7, 6]
    } else if t == 4 {
        [0, 7, 4, 6]
    } else {
        [0, 4, 5, 6]
    }
}

pub fn cube_tetrahedron(t: usize) -> (corners: [usize; 4])
    requires
        t < 6,
    ensures
        corners == cube_tetrahedron_spec(t as int),
{
    match t {
        0 => [0, 5, 1, 6],
        1 => [0, 1, 2, 6],
        2 => [0, 2, 3, 6],
        3 => [0, 3, 7, 6],
        4 => [0, 7, 4, 6],
        _ => [0, 4, 5, 6],
    }
}

/// Every tetrahedron uses four distinct cube corners, including both ends of the main
/// diagonal, and consecutive tetrahedra share a face (three corners), closing around the
/// diagonal.
pub proof fn lemma_tetrahedra_fan_around_diagonal(t: int)
    requires
        0 <= t < 6,
    ensures
        ({
            let c = cube_tetrahedron_spec(t);
            let n = cube_tetrahedron_spec((t + 1) % 6);
            &&& c[0] == 0 && c[3] == 6
            &&& forall|i: int, j: int| 0 <= i < j < 4 ==> c[i] != c[j] && c[i] < 8 && c[j] < 8
            &&& c[2] == n[1]
        }),
{
}

/// Tetrahedron vertices joined by edge `e` (0..6).
pub open spec fn tet_edge_spec(e: int) -> (int, int) {
    if e == 0 {
        (0, 1)
    } else if e == 1 {
        (1, 2)
    } else if e == 2 {
        (2, 0)
    } else if e == 3 {
        (0, 3)
    } else if e == 4 {
        (1, 3)
    } else {
        (2, 3)
    }
}

/// Bit `i` of the case number is set when vertex `i` is inside the surface.
pub open spec fn tet_case_spec(inside: [bool; 4]) -> int {
    (if inside[0] { 1int } else { 0 }) + (if inside[1] { 2int } else { 0 }) + (if inside[2] {
        4int
    } else {
        0
    }) + (if inside[3] { 8int } else { 0 })
}

/// Edges carrying the triangle corners of each case, three per triangle.
pub open spec fn tet_table_spec(case: int) -> Seq<int> {
    if case == 1 || case == 14 {
        seq![0, 2, 3]
    } else if case == 2 || case == 13 {
        seq![0, 1, 4]
    } else if case == 3 || case == 12 {
        seq![1, 2, 3, 1, 3, 4]
    } else if case == 4 || case == 11 {
        seq![1, 2, 5]
    } else if case == 5 || case == 10 {
        seq![0, 1, 5, 0, 5, 3]
    } else if case == 6 || case == 9 {
        seq![0, 2, 5, 0, 5, 4]
    } else if case == 7 || case == 8 {
        seq![3, 4, 5]
    } else {
        seq![]
    }
}

fn tet_table(case: usize) -> (edges: Vec<usize>)
    requires
        case < 16,
    ensures
        edges@.len() == tet_table_spec(case as int).len(),
        forall|i: int| 0 <= i < edges@.len() ==> edges@[i] == tet_table_spec(case as int)[i],
{
    match case {
        1 | 14 => vec![0, 2, 3],
        2 | 13 => vec![0, 1, 4],
        3 | 12 => vec![1, 2, 3, 1, 3, 4],
        4 | 11 => vec![1, 2, 5],
        5 | 10 => vec![0, 1, 5, 0, 5, 3],
        6 | 9 => vec![0, 2, 5, 0, 5, 4],
        7 | 8 => vec![3, 4, 5],
        _ => vec![],
    }
}

fn tet_edge(e: usize) -> (ends: (usize, usize))
    requires
        e < 6,
    ensures
        ends.0 == tet_edge_spec(e as int).0,
        ends.1 == tet_edge_spec(e as int).1,
{
    match e {
        0 => (0, 1),
        1 => (1, 2),
        2 => (2, 0),
        3 => (0, 3),
        4 => (1, 3),
        _ => (2, 3),
    }
}

/// Number of vertices of a tetrahedron that are inside the surface.
pub open spec fn inside_count(inside: [bool; 4]) -> int {
    (if inside[0] { 1int } else { 0 }) + (if inside[1] { 1int } else { 0 }) + (if inside[2] {
        1int
    } else {
        0
    }) + (if inside[3] { 1int } else { 0 })
}

/// For a tetrahedron whose vertices are classified by `inside`, the tetrahedron-local
/// vertex pairs whose edges carry the surface's triangle corners, three per triangle.
pub fn tetrahedron_crossings(inside: [bool; 4]) -> (ends: Vec<(usize, usize)>)
    ensures
        ends@.len() == tet_table_spec(tet_case_spec(inside)).len(),
        forall|i: int|
            0 <= i < ends@.len() ==> #[trigger] ends@[i] == ({
                let e = tet_edge_spec(tet_table_spec(tet_case_spec(inside))[i]);
                (e.0 as usize, e.1 as usize)
            }),
{
    let case = (if inside[0] { 1usize } else { 0 }) + (if inside[1] { 2usize } else { 0 }) + (
    if inside[2] {
        4usize
    } else {
        0
    }) + (if inside[3] { 8usize } else { 0 });
    let edges = tet_table(case);
    let mut ends: Vec<(usize, usize)> = Vec::new();
    let mut i: usize = 0;
    while i < edges.len()
        invariant
            case as int == tet_case_spec(inside),
            edges@.len() == tet_table_spec(case as int).len(),
            forall|k: int| 0 <= k < edges@.len() ==> edges@[k] == tet_table_spec(case as int)[k],
            forall|k: int| 0 <= k < edges@.len() ==> 0 <= #[trigger] edges@[k] < 6,
            0 <= i <= edges@.len(),
            ends@.len() == i,
            forall|k: int|
                0 <= k < i ==> #[trigger] ends@[k] == ({
                    let e = tet_edge_spec(tet_table_spec(case as int)[k]);
                    (e.0 as usize, e.1 as usize)
                }),
        decreases edges@.len() - i,
    {
        ends.push(tet_edge(edges[i]));
        i = i + 1;
    }
    ends
}

/// Marching tetrahedra is consistent: every triangle corner lies on an edge that joins an
/// inside vertex to an outside vertex, and the number of triangles is zero for a tetrahedron
/// wholly inside or outside, one when one or three vertices are inside, and two when two are.
pub proof fn lemma_crossings_straddle_the_surface(inside: [bool; 4])
    ensures
        ({
            let table = tet_table_spec(tet_case_spec(inside));
            &&& table.len() % 3 == 0
            &&& table.len() / 3 == if inside_count(inside) == 0 || inside_count(inside) == 4 {
                0int
            } else if inside_count(inside) == 2 {
                2int
            } else {
                1int
            }
            &&& forall|i: int|
                0 <= i < table.len() ==> {
                    let e = tet_edge_spec(#[trigger] table[i]);
                    inside[e.0] != inside[e.1]
                }
        }),
{
    let table = tet_table_spec(tet_case_spec(inside));
    assert forall|i: int| 0 <= i < table.len() implies {
        let e = tet_edge_spec(#[trigger] table[i]);
        inside[e.0] != inside[e.1]
    } by {
        assert(0 <= i < 6);
    }
}

/// Edge `e` joins tetrahedron vertices `a` and `b`, in either direction.
pub open spec fn edge_joins(e: int, a: int, b: int) -> bool {
    let (p, q) = tet_edge_spec(e);
    (p == a && q == b) || (p == b && q == a)
}

/// Triangle `t` of a table has a corner on edge `e`.
pub open spec fn triangle_uses(table: Seq<int>, t: int, e: int) -> bool {
    table[3 * t] == e || table[3 * t + 1] == e || table[3 * t + 2] == e
}

/// Triangle `t1` has a corner on an edge that triangle `t2` does not use.
pub open spec fn triangles_differ(table: Seq<int>, t1: int, t2: int) -> bool {
    !triangle_uses(table, t2, table[3 * t1]) || !triangle_uses(table, t2, table[3 * t1 + 1])
        || !triangle_uses(table, t2, table[3 * t1 + 2])
}

/// The three corners of triangle `t` lie on three different edges.
pub open spec fn corners_on_distinct_edges(table: Seq<int>, t: int) -> bool {
    table[3 * t] != table[3 * t + 1] && table[3 * t] != table[3 * t + 2] && table[3 * t + 1]
        != table[3 * t + 2]
}

/// The triangles of each case tile the crossing polygon: every edge whose endpoints lie on
/// opposite sides of the surface carries a triangle corner, each triangle has three distinct
/// corner edges, and no two triangles of a case use the same edges.
pub proof fn lemma_triangles_tile_the_crossing_polygon(inside: [bool; 4])
    ensures
        ({
            let table = tet_table_spec(tet_case_spec(inside));
            &&& forall|a: int, b: int|
                0 <= a < b < 4 && inside[a] != inside[b] ==> exists|i: int|
                    0 <= i < table.len() && #[trigger] edge_joins(table[i], a, b)
            &&& forall|t: int|
                0 <= t < table.len() / 3 ==> #[trigger] corners_on_distinct_edges(table, t)
            &&& forall|t1: int, t2: int|
                0 <= t1 < table.len() / 3 && 0 <= t2 < table.len() / 3 && t1 != t2
                    ==> #[trigger] triangles_differ(table, t1, t2)
        }),
{
    let table = tet_table_spec(tet_case_spec(inside));
    assert forall|a: int, b: int| 0 <= a < b < 4 && inside[a] != inside[b] implies exists|i: int|
        0 <= i < table.len() && #[trigger] edge_joins(table[i], a, b) by {
        if edge_joins(table[0], a, b) {
        } else if edge_joins(table[1], a, b) {
        } else if edge_joins(table[2], a, b) {
        } else if table.len() > 3 && edge_joins(table[3], a, b) {
        } else if table.len() > 4 && edge_joins(table[4], a, b) {
        } else {
            assert(table.len() > 5 && edge_joins(table[5], a, b));
        }
    }
}

/// The eight corner offsets are the eight distinct vertices of the unit cube, and corners 0
/// and 6, which every tetrahedron shares, are opposite ends of its main diagonal.
pub proof fn lemma_cube_corners_are_the_unit_cube(j: int, k: int)
    requires
        0 <= j < 8,
        0 <= k < 8,
    ensures
        cube_corner_spec(j)[0] <= 1 && cube_corner_spec(j)[1] <= 1 && cube_corner_spec(j)[2] <= 1,
        j != k ==> cube_corner_spec(j) != cube_corner_spec(k),
        cube_corner_spec(0) == [0u32, 0, 0] && cube_corner_spec(6) == [1u32, 1, 1],
{
    if j != k {
        assert(cube_corner_spec(j)[0] != cube_corner_spec(k)[0] || cube_corner_spec(j)[1]
            != cube_corner_spec(k)[1] || cube_corner_spec(j)[2] != cube_corner_spec(k)[2]);
    }
}

} // verus!
