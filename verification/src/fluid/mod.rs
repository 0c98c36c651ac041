//! Particle-fluid bookkeeping: block sizes and lattice layout, the neighbor hash grid,
//! surface sampling domains and marching-tetrahedra topology, and GPU batch limits.

pub mod gpu;
pub mod grid;
pub mod surface;

use vstd::arithmetic::div_mod::lemma_fundamental_div_mod_converse;
use vstd::prelude::*;

verus! {

/// Largest number of particles a fluid block may hold.
pub open spec fn max_block_particles() -> int {
    8192
}

/// Number of particles in a block of `counts[0] x counts[1] x counts[2]`.
pub open spec fn block_product(counts: [u32; 3]) -> int {
    counts[0] * counts[1] * counts[2]
}

/// A block must hold between one and `max_block_particles()` particles.
pub open spec fn block_count_valid(counts: [u32; 3]) -> bool {
    1 <= block_product(counts) <= max_block_particles()
}

/// The particle count of a block, when it is in the accepted range.
pub fn block_particle_count(counts: [u32; 3]) -> (count: Option<usize>)
    ensures
        match count {
            Some(n) => block_count_valid(counts) && n == block_product(counts),
            None => !block_count_valid(counts),
        },
{
    let a = counts[0] as u64;
    let b = counts[1] as u64;
    let c = counts[2] as u64;
    proof {
        assert(a * b <= 0xffff_ffff * 0xffff_ffff) by (nonlinear_arith)
            requires
                a <= 0xffff_ffff,
                b <= 0xffff_ffff,
        ;
    }
    let ab = a * b;
    if ab == 0 || c == 0 || ab > 8192 || c > 8192 {
        proof {
            assert(block_product(counts) == ab * c) by (nonlinear_arith)
                requires
                    ab == a * b,
                    a == counts[0],
                    b == counts[1],
                    c == counts[2],
            ;
            if ab == 0 || c == 0 {
                assert(ab * c == 0) by (nonlinear_arith)
                    requires
                        ab == 0 || c == 0,
                ;
            } else if ab > 8192 {
                assert(ab * c >= ab) by (nonlinear_arith)
                    requires
                        c >= 1,
                        ab >= 0,
                ;
            } else {
                assert(ab * c >= c) by (nonlinear_arith)
                    requires
                        ab >= 1,
                        c >= 0,
                ;
            }
        }
        return None;
    }
    proof {
        assert(ab * c <= 8192 * 8192) by (nonlinear_arith)
            requires
                ab <= 8192,
                c <= 8192,
        ;
        assert(ab * c >= 1) by (nonlinear_arith)
            requires
                ab >= 1,
                c >= 1,
        ;
    }
    let n = ab * c;
    proof {
        assert(block_product(counts) == ab * c) by (nonlinear_arith)
            requires
                ab == a * b,
                a == counts[0],
                b == counts[1],
                c == counts[2],
        ;
    }
    if n > 8192 {
        None
    } else {
        Some(n as usize)
    }
}

/// Lattice coordinates of particle `i` of a block: X varies fastest, then Y, then Z.
pub open spec fn lattice_point(counts: [u32; 3], i: int) -> [u32; 3] {
    [
        (i % (counts[0] as int)) as u32,
        ((i / (counts[0] as int)) % (counts[1] as int)) as u32,
        (i / (counts[0] as int) / (counts[1] as int)) as u32,
    ]
}

/// Integer lattice coordinates of every particle of a block, in particle order.
/// Particle `i` starts at `min + lattice * spacing`.
pub fn block_lattice(counts: [u32; 3]) -> (points: Vec<[u32; 3]>)
    requires
        block_count_valid(counts),
    ensures
        points@.len() == block_product(counts),
        forall|i: int| 0 <= i < points@.len() ==> #[trigger] points@[i] == lattice_point(counts, i),
{
    let ghost cx = counts[0] as int;
    let ghost cy = counts[1] as int;
    let ghost cz = counts[2] as int;
    proof {
        assert(cx >= 1 && cy >= 1 && cz >= 1) by (nonlinear_arith)
            requires
                cx * cy * cz >= 1,
                cx >= 0,
                cy >= 0,
                cz >= 0,
        ;
    }
    let mut points: Vec<[u32; 3]> = Vec::new();
    let mut z: u32 = 0;
    while z < counts[2]
        invariant
            cx == counts[0],
            cy == counts[1],
            cz == counts[2],
            cx >= 1 && cy >= 1,
            0 <= z <= cz,
            points@.len() == z * (cx * cy),
            forall|i: int|
                0 <= i < points@.len() ==> #[trigger] points@[i] == lattice_point(counts, i),
        decreases counts[2] - z,
    {
        let mut y: u32 = 0;
        while y < counts[1]
            invariant
                cx == counts[0],
                cy == counts[1],
                cz == counts[2],
                cx >= 1 && cy >= 1,
                0 <= z < cz,
                0 <= y <= cy,
                points@.len() == z * (cx * cy) + y * cx,
                forall|i: int|
                    0 <= i < points@.len() ==> #[trigger] points@[i] == lattice_point(counts, i),
            decreases counts[1] - y,
        {
            let mut x: u32 = 0;
            while x < counts[0]
                invariant
                    cx == counts[0],
                    cy == counts[1],
                    cz == counts[2],
                    cx >= 1 && cy >= 1,
                    0 <= z < cz,
                    0 <= y < cy,
                    0 <= x <= cx,
                    points@.len() == z * (cx * cy) + y * cx + x,
                    forall|i: int|
                        0 <= i < points@.len() ==> #[trigger] points@[i] == lattice_point(
                            counts,
                            i,
                        ),
                decreases counts[0] - x,
            {
                proof {
                    let i = z * (cx * cy) + y * cx + x;
                    let q = z * cy + y;
                    assert(i == q * cx + x) by (nonlinear_arith)
                        requires
                            i == z * (cx * cy) + y * cx + x,
                            q == z * cy + y,
                    ;
                    lemma_fundamental_div_mod_converse(i, cx, q, x as int);
                    lemma_fundamental_div_mod_converse(q, cy, z as int, y as int);
                }
                points.push([x, y, z]);
                x = x + 1;
            }
            proof {
                assert(z * (cx * cy) + y * cx + cx == z * (cx * cy) + (y + 1) * cx)
                    by (nonlinear_arith);
            }
            y = y + 1;
        }
        proof {
            assert(z * (cx * cy) + cy * cx == (z + 1) * (cx * cy)) by (nonlinear_arith);
        }
        z = z + 1;
    }
    proof {
        assert(cz * (cx * cy) == block_product(counts)) by (nonlinear_arith)
            requires
                cx == counts[0],
                cy == counts[1],
                cz == counts[2],
        ;
    }
    points
}

/// Lattice coordinates are in range and determine the particle: particle `i` sits at
/// `(x, y, z)` with `i == x + counts[0] * (y + counts[1] * z)`, so distinct particles start at
/// distinct lattice points.
pub proof fn lemma_lattice_point_is_particle_position(counts: [u32; 3], i: int)
    requires
        block_count_valid(counts),
        0 <= i < block_product(counts),
    ensures
        ({
            let p = lattice_point(counts, i);
            &&& p[0] < counts[0] && p[1] < counts[1] && p[2] < counts[2]
            &&& i == p[0] + (counts[0] as int) * (p[1] + (counts[1] as int) * p[2])
        }),
{
    let cx = counts[0] as int;
    let cy = counts[1] as int;
    let cz = counts[2] as int;
    assert(cx >= 1 && cy >= 1 && cz >= 1) by (nonlinear_arith)
        requires
            cx * cy * cz >= 1,
            cx >= 0,
            cy >= 0,
            cz >= 0,
    ;
    let q = i / cx;
    let x = i % cx;
    let y = q % cy;
    let z = q / cy;
    vstd::arithmetic::div_mod::lemma_fundamental_div_mod(i, cx);
    vstd::arithmetic::div_mod::lemma_fundamental_div_mod(q, cy);
    assert(0 <= x < cx && 0 <= y < cy && q >= 0 && z >= 0) by {
        vstd::arithmetic::div_mod::lemma_mod_pos_bound(i, cx);
        vstd::arithmetic::div_mod::lemma_mod_pos_bound(q, cy);
        vstd::arithmetic::div_mod::lemma_div_pos_is_pos(i, cx);
        vstd::arithmetic::div_mod::lemma_div_pos_is_pos(q, cy);
    }
    assert(z < cz) by (nonlinear_arith)
        requires
            i == cx * q + x,
            q == cy * z + y,
            0 <= x,
            0 <= y,
            i < cx * cy * cz,
            cx >= 1,
            cy >= 1,
    ;
    assert(i == x + cx * (y + cy * z)) by (nonlinear_arith)
        requires
            i == cx * q + x,
            q == cy * z + y,
    ;
}

} // verus!
