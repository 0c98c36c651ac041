//! Integer parts of the procedural island: the seeded lattice hash behind its value noise,
//! and the range of grid resolutions it accepts.

use vstd::prelude::*;
use vstd::arithmetic::div_mod::{lemma_mod_multiples_vanish, lemma_mul_mod_noop_left, lemma_small_mod};
use vstd::wrapping::u32_specs::wrapping_mul;

verus! {

/// The seeded integer hash of lattice point `(x, z)`: multiplicative mixing of both
/// coordinates and the seed, followed by two xor-shift rounds.
pub open spec fn lattice_hash_spec(x: i32, z: i32, seed: u32) -> u32 {
    let n0 = wrapping_mul(x as u32, 374761393) ^ wrapping_mul(z as u32, 668265263) ^ wrapping_mul(
        seed,
        1442695041,
    );
    let n1 = wrapping_mul(n0 ^ (n0 >> 13u32), 1274126177);
    n1 ^ (n1 >> 16u32)
}

/// Hash of a noise lattice point; value noise divides it by `u32::MAX` to get a value in 0..=1.
pub fn lattice_hash(x: i32, z: i32, seed: u32) -> (hash: u32)
    ensures
        hash == lattice_hash_spec(x, z, seed),
{
    let mut n = (x as u32).wrapping_mul(374761393) ^ (z as u32).wrapping_mul(668265263)
        ^ seed.wrapping_mul(1442695041);
    n = (n ^ (n >> 13)).wrapping_mul(1274126177);
    n ^ (n >> 16)
}

/// Multiplying by `c` and then by `inverse` modulo 2^32 gives back the input when
/// `c * inverse` is one more than a multiple of 2^32.
proof fn lemma_wrapping_mul_undone(a: u32, c: u32, inverse: u32, k: int)
    requires
        (c as int) * (inverse as int) == 1 + k * 0x1_0000_0000,
    ensures
        wrapping_mul(wrapping_mul(a, c), inverse) == a,
{
    let m: int = 0x1_0000_0000;
    let w = (a as int) * (c as int) % m;
    lemma_mul_mod_noop_left((a as int) * (c as int), inverse as int, m);
    assert((a as int) * (c as int) * (inverse as int) == m * ((a as int) * k) + (a as int))
        by (nonlinear_arith)
        requires
            (c as int) * (inverse as int) == 1 + k * m,
    ;
    lemma_mod_multiples_vanish((a as int) * k, a as int, m);
    lemma_small_mod(a as nat, m as nat);
    assert(wrapping_mul(a, c) == w);
}

/// Equal products by `c` modulo 2^32 have equal factors, for any odd `c` with an inverse.
proof fn lemma_wrapping_mul_injective(a: u32, b: u32, c: u32, inverse: u32, k: int)
    requires
        (c as int) * (inverse as int) == 1 + k * 0x1_0000_0000,
        wrapping_mul(a, c) == wrapping_mul(b, c),
    ensures
        a == b,
{
    lemma_wrapping_mul_undone(a, c, inverse, k);
    lemma_wrapping_mul_undone(b, c, inverse, k);
}

/// The final mixing rounds lose no information.
proof fn lemma_finish_injective(a: u32, b: u32)
    requires
        ({
            let n = wrapping_mul(a ^ (a >> 13u32), 1274126177);
            n ^ (n >> 16u32)
        }) == ({
            let n = wrapping_mul(b ^ (b >> 13u32), 1274126177);
            n ^ (n >> 16u32)
        }),
    ensures
        a == b,
{
    let na = wrapping_mul(a ^ (a >> 13u32), 1274126177);
    let nb = wrapping_mul(b ^ (b >> 13u32), 1274126177);
    assert(na == nb) by (bit_vector)
        requires
            na ^ (na >> 16u32) == nb ^ (nb >> 16u32),
    ;
    lemma_wrapping_mul_injective(
        a ^ (a >> 13u32),
        b ^ (b >> 13u32),
        1274126177,
        1406485665,
        417241874,
    );
    assert(a == b) by (bit_vector)
        requires
            a ^ (a >> 13u32) == b ^ (b >> 13u32),
    ;
}

/// Distinct lattice points, and distinct seeds, hash differently: the hash is injective in
/// each argument when the other two are fixed. In particular negative coordinates enter
/// through their own two's-complement bits and never collide with another row or column.
pub proof fn lemma_lattice_hash_injective(x: i32, z: i32, seed: u32, x2: i32, z2: i32, seed2: u32)
    ensures
        lattice_hash_spec(x, z, seed) == lattice_hash_spec(x2, z, seed) ==> x == x2,
        lattice_hash_spec(x, z, seed) == lattice_hash_spec(x, z2, seed) ==> z == z2,
        lattice_hash_spec(x, z, seed) == lattice_hash_spec(x, z, seed2) ==> seed == seed2,
{
    let xm = wrapping_mul(x as u32, 374761393);
    let zm = wrapping_mul(z as u32, 668265263);
    let sm = wrapping_mul(seed, 1442695041);
    if lattice_hash_spec(x, z, seed) == lattice_hash_spec(x2, z, seed) {
        let xm2 = wrapping_mul(x2 as u32, 374761393);
        lemma_finish_injective(xm ^ zm ^ sm, xm2 ^ zm ^ sm);
        assert(xm == xm2) by (bit_vector)
            requires
                xm ^ zm ^ sm == xm2 ^ zm ^ sm,
        ;
        lemma_wrapping_mul_injective(x as u32, x2 as u32, 374761393, 2923004241, 255049472);
        assert(x == x2) by (bit_vector)
            requires
                x as u32 == x2 as u32,
        ;
    }
    if lattice_hash_spec(x, z, seed) == lattice_hash_spec(x, z2, seed) {
        let zm2 = wrapping_mul(z2 as u32, 668265263);
        lemma_finish_injective(xm ^ zm ^ sm, xm ^ zm2 ^ sm);
        assert(zm == zm2) by (bit_vector)
            requires
                xm ^ zm ^ sm == xm ^ zm2 ^ sm,
        ;
        lemma_wrapping_mul_injective(z as u32, z2 as u32, 668265263, 2701016015, 420258189);
        assert(z == z2) by (bit_vector)
            requires
                z as u32 == z2 as u32,
        ;
    }
    if lattice_hash_spec(x, z, seed) == lattice_hash_spec(x, z, seed2) {
        let sm2 = wrapping_mul(seed2, 1442695041);
        lemma_finish_injective(xm ^ zm ^ sm, xm ^ zm ^ sm2);
        assert(sm == sm2) by (bit_vector)
            requires
                xm ^ zm ^ sm == xm ^ zm ^ sm2,
        ;
        lemma_wrapping_mul_injective(seed, seed2, 1442695041, 2996467841, 1006524380);
    }
}

/// Island grids have between 8 and 512 cells per side.
pub open spec fn island_cells_supported_spec(cells: u32) -> bool {
    8 <= cells <= 512
}

pub fn island_cells_supported(cells: u32) -> (supported: bool)
    ensures
        supported == island_cells_supported_spec(cells),
{
    8 <= cells && cells <= 512
}

/// Every supported island resolution can be triangulated as a regular grid with 32-bit
/// indices.
pub proof fn lemma_supported_island_grid_fits(cells: u32)
    requires
        island_cells_supported_spec(cells),
    ensures
        6 * cells * cells <= u32::MAX,
{
    assert(6 * cells * cells <= 6 * 512 * 512) by (nonlinear_arith)
        requires
            cells <= 512,
    ;
}

} // verus!
