//! Spatial hash grid for neighbor search. Particles are bucketed by the integer cell that
//! contains them (cells are as wide as the kernel support), and a query visits the 27 cells
//! around a cell, so every particle within one cell in each axis is visited exactly once.

use vstd::arithmetic::div_mod::lemma_fundamental_div_mod_converse;
use vstd::prelude::*;
use std::collections::HashMap;

verus! {

broadcast use vstd::std_specs::hash::group_hash_axioms;

/// Integer coordinates of a grid cell.
pub type Cell = (i32, i32, i32);

/// Injective packing of a cell into one integer, the hash-map key of its bucket.
pub open spec fn cell_key(c: Cell) -> int {
    (c.0 as int) * 0x1_0000_0000_0000_0000 + ((c.1 as int) + 0x8000_0000) * 0x1_0000_0000 + ((
    c.2 as int) + 0x8000_0000)
}

/// Distinct cells have distinct keys.
pub proof fn lemma_cell_key_injective(a: Cell, b: Cell)
    requires
        cell_key(a) == cell_key(b),
    ensures
        a == b,
{
    let ra = ((a.1 as int) + 0x8000_0000) * 0x1_0000_0000 + ((a.2 as int) + 0x8000_0000);
    let rb = ((b.1 as int) + 0x8000_0000) * 0x1_0000_0000 + ((b.2 as int) + 0x8000_0000);
    assert(0 <= ra < 0x1_0000_0000_0000_0000) by (nonlinear_arith)
        requires
            ra == ((a.1 as int) + 0x8000_0000) * 0x1_0000_0000 + ((a.2 as int) + 0x8000_0000),
            -0x8000_0000 <= a.1 < 0x8000_0000,
            -0x8000_0000 <= a.2 < 0x8000_0000,
    ;
    assert(0 <= rb < 0x1_0000_0000_0000_0000) by (nonlinear_arith)
        requires
            rb == ((b.1 as int) + 0x8000_0000) * 0x1_0000_0000 + ((b.2 as int) + 0x8000_0000),
            -0x8000_0000 <= b.1 < 0x8000_0000,
            -0x8000_0000 <= b.2 < 0x8000_0000,
    ;
    lemma_fundamental_div_mod_converse(cell_key(a), 0x1_0000_0000_0000_0000, a.0 as int, ra);
    lemma_fundamental_div_mod_converse(cell_key(b), 0x1_0000_0000_0000_0000, b.0 as int, rb);
    lemma_fundamental_div_mod_converse(
        ra,
        0x1_0000_0000,
        (a.1 as int) + 0x8000_0000,
        (a.2 as int) + 0x8000_0000,
    );
    lemma_fundamental_div_mod_converse(
        rb,
        0x1_0000_0000,
        (b.1 as int) + 0x8000_0000,
        (b.2 as int) + 0x8000_0000,
    );
}

proof fn lemma_cell_key_range(c: Cell)
    ensures
        i128::MIN <= cell_key(c) <= i128::MAX,
{
    assert(-0x8000_0000_0000_0000_0000_0000 <= (c.0 as int) * 0x1_0000_0000_0000_0000
        <= 0x7fff_ffff_0000_0000_0000_0000) by (nonlinear_arith)
        requires
            -0x8000_0000 <= c.0 < 0x8000_0000,
    ;
    assert(0 <= ((c.1 as int) + 0x8000_0000) * 0x1_0000_0000 <= 0xffff_ffff_0000_0000)
        by (nonlinear_arith)
        requires
            -0x8000_0000 <= c.1 < 0x8000_0000,
    ;
}

fn key_of(c: Cell) -> (key: i128)
    ensures
        key == cell_key(c),
{
    proof {
        lemma_cell_key_range(c);
        assert((c.0 as int) * 0x1_0000_0000_0000_0000 <= 0x7fff_ffff_0000_0000_0000_0000)
            by (nonlinear_arith)
            requires
                c.0 < 0x8000_0000,
        ;
        assert((c.0 as int) * 0x1_0000_0000_0000_0000 >= -0x8000_0000_0000_0000_0000_0000)
            by (nonlinear_arith)
            requires
                c.0 >= -0x8000_0000,
        ;
    }
    (c.0 as i128) * 0x1_0000_0000_0000_0000i128 + ((c.1 as i128) + 0x8000_0000i128)
        * 0x1_0000_0000i128 + ((c.2 as i128) + 0x8000_0000i128)
}

/// Indices `j < n` of the particles in cell `c`, in increasing order.
pub open spec fn bucket(cells: Seq<Cell>, c: Cell, n: nat) -> Seq<usize>
    decreases n,
{
    if n == 0 {
        seq![]
    } else {
        let before = bucket(cells, c, (n - 1) as nat);
        if cells[n - 1] == c {
            before.push((n - 1) as usize)
        } else {
            before
        }
    }
}

/// The `k`-th cell visited around `c` (0..27): Z outermost, then Y, then X, each from -1 to 1.
pub open spec fn neighbor_cell(c: Cell, k: int) -> Cell {
    (
        (c.0 + (k % 3) - 1) as i32,
        (c.1 + ((k / 3) % 3) - 1) as i32,
        (c.2 + (k / 9) - 1) as i32,
    )
}

/// Concatenation of the buckets of the first `k` cells visited around `c`.
pub open spec fn neighborhood(cells: Seq<Cell>, c: Cell, k: nat) -> Seq<usize>
    decreases k,
{
    if k == 0 {
        seq![]
    } else {
        neighborhood(cells, c, (k - 1) as nat) + bucket(
            cells,
            neighbor_cell(c, k - 1),
            cells.len(),
        )
    }
}

/// Cell `d` lies within one cell of `c` along every axis.
pub open spec fn adjacent(c: Cell, d: Cell) -> bool {
    -1 <= d.0 - c.0 <= 1 && -1 <= d.1 - c.1 <= 1 && -1 <= d.2 - c.2 <= 1
}

/// A cell whose 27 neighbors all have representable coordinates.
pub open spec fn interior_cell(c: Cell) -> bool {
    i32::MIN < c.0 < i32::MAX && i32::MIN < c.1 < i32::MAX && i32::MIN < c.2 < i32::MAX
}

proof fn lemma_bucket_members(cells: Seq<Cell>, c: Cell, n: nat)
    requires
        n <= cells.len(),
        cells.len() <= usize::MAX,
    ensures
        forall|i: int|
            0 <= i < bucket(cells, c, n).len() ==> #[trigger] bucket(cells, c, n)[i] < n
                && cells[bucket(cells, c, n)[i] as int] == c,
        forall|x: int|
            0 <= x < n && cells[x] == c ==> #[trigger] bucket(cells, c, n).contains(x as usize),
        bucket(cells, c, n).no_duplicates(),
    decreases n,
{
    if n > 0 {
        lemma_bucket_members(cells, c, (n - 1) as nat);
        let before = bucket(cells, c, (n - 1) as nat);
        assert forall|x: int| 0 <= x < n && cells[x] == c implies #[trigger] bucket(
            cells,
            c,
            n,
        ).contains(x as usize) by {
            if x < n - 1 {
                assert(before.contains(x as usize));
                let k = choose|k: int| 0 <= k < before.len() && before[k] == x as usize;
                assert(bucket(cells, c, n)[k] == x as usize);
            } else {
                assert(bucket(cells, c, n)[before.len() as int] == x as usize);
            }
        }
    }
}

proof fn lemma_neighbor_cells(c: Cell)
    requires
        interior_cell(c),
    ensures
        forall|k: int| 0 <= k < 27 ==> adjacent(c, #[trigger] neighbor_cell(c, k)),
        forall|k1: int, k2: int|
            0 <= k1 < 27 && 0 <= k2 < 27 && k1 != k2 ==> #[trigger] neighbor_cell(c, k1)
                != #[trigger] neighbor_cell(c, k2),
        forall|d: Cell|
            #[trigger] adjacent(c, d) ==> neighbor_cell(
                c,
                (d.0 - c.0 + 1) + 3 * (d.1 - c.1 + 1) + 9 * (d.2 - c.2 + 1),
            ) == d,
{
    assert forall|k1: int, k2: int|
        0 <= k1 < 27 && 0 <= k2 < 27 && k1 != k2 implies #[trigger] neighbor_cell(c, k1)
            != #[trigger] neighbor_cell(c, k2) by {
        lemma_fundamental_div_mod_converse(k1, 3, k1 / 3, k1 % 3);
        lemma_fundamental_div_mod_converse(k2, 3, k2 / 3, k2 % 3);
        lemma_fundamental_div_mod_converse(k1 / 3, 3, k1 / 9, (k1 / 3) % 3);
        lemma_fundamental_div_mod_converse(k2 / 3, 3, k2 / 9, (k2 / 3) % 3);
    }
    assert forall|d: Cell| #[trigger] adjacent(c, d) implies neighbor_cell(
        c,
        (d.0 - c.0 + 1) + 3 * (d.1 - c.1 + 1) + 9 * (d.2 - c.2 + 1),
    ) == d by {
        let a = d.0 - c.0 + 1;
        let b = d.1 - c.1 + 1;
        let e = d.2 - c.2 + 1;
        let k = a + 3 * b + 9 * e;
        lemma_fundamental_div_mod_converse(k, 3, b + 3 * e, a);
        lemma_fundamental_div_mod_converse(b + 3 * e, 3, e, b);
        assert(k / 9 == e) by {
            vstd::arithmetic::div_mod::lemma_div_denominator(k, 3, 3);
        }
    }
}

proof fn lemma_neighborhood_members(cells: Seq<Cell>, c: Cell, k: nat)
    requires
        interior_cell(c),
        k <= 27,
        cells.len() <= usize::MAX,
    ensures
        forall|x: int|
            0 <= x < cells.len() ==> (#[trigger] neighborhood(cells, c, k).contains(x as usize)
                <==> exists|j: int| 0 <= j < k && cells[x] == neighbor_cell(c, j)),
        forall|i: int|
            0 <= i < neighborhood(cells, c, k).len() ==> #[trigger] neighborhood(cells, c, k)[i]
                < cells.len(),
        neighborhood(cells, c, k).no_duplicates(),
    decreases k,
{
    if k > 0 {
        lemma_neighborhood_members(cells, c, (k - 1) as nat);
        lemma_neighbor_cells(c);
        let prev = neighborhood(cells, c, (k - 1) as nat);
        let last = bucket(cells, neighbor_cell(c, k - 1), cells.len());
        lemma_bucket_members(cells, neighbor_cell(c, k - 1), cells.len());
        assert forall|i: int, j: int| 0 <= i < prev.len() && 0 <= j < last.len() implies prev[i]
            != last[j] by {
            if prev[i] == last[j] {
                let x = prev[i] as int;
                assert(prev.contains(x as usize));
                let jj = choose|jj: int| 0 <= jj < k - 1 && cells[x] == neighbor_cell(c, jj);
                assert(neighbor_cell(c, jj) != neighbor_cell(c, k - 1));
            }
        }
        vstd::seq_lib::lemma_no_dup_in_concat(prev, last);
        assert forall|x: int| 0 <= x < cells.len() implies (#[trigger] neighborhood(
            cells,
            c,
            k,
        ).contains(x as usize) <==> exists|j: int| 0 <= j < k && cells[x] == neighbor_cell(c, j))
            by {
            vstd::seq_lib::lemma_seq_concat_contains_all_elements(prev, last, x as usize);
            if last.contains(x as usize) {
                let t = choose|t: int| 0 <= t < last.len() && last[t] == x as usize;
                assert(cells[x] == neighbor_cell(c, k - 1));
            }
            if cells[x] == neighbor_cell(c, k - 1) {
                assert(last.contains(x as usize));
            }
        }
    }
}

/// Neighbor queries are exact: around an interior cell, the particles visited are precisely
/// those whose cell lies within one cell along every axis, and each is visited once.
pub proof fn lemma_neighbors_are_adjacent_particles_once(cells: Seq<Cell>, c: Cell)
    requires
        interior_cell(c),
        cells.len() <= usize::MAX,
    ensures
        forall|x: int|
            0 <= x < cells.len() ==> (#[trigger] neighborhood(cells, c, 27).contains(x as usize)
                <==> adjacent(c, cells[x])),
        forall|i: int|
            0 <= i < neighborhood(cells, c, 27).len() ==> #[trigger] neighborhood(cells, c, 27)[i]
                < cells.len(),
        neighborhood(cells, c, 27).no_duplicates(),
{
    lemma_neighborhood_members(cells, c, 27);
    lemma_neighbor_cells(c);
    assert forall|x: int| 0 <= x < cells.len() implies (#[trigger] neighborhood(
        cells,
        c,
        27,
    ).contains(x as usize) <==> adjacent(c, cells[x])) by {
        if adjacent(c, cells[x]) {
            let d = cells[x];
            let j = (d.0 - c.0 + 1) + 3 * (d.1 - c.1 + 1) + 9 * (d.2 - c.2 + 1);
            assert(cells[x] == neighbor_cell(c, j));
        }
        if neighborhood(cells, c, 27).contains(x as usize) {
            let j = choose|j: int| 0 <= j < 27 && cells[x] == neighbor_cell(c, j);
            assert(adjacent(c, neighbor_cell(c, j)));
        }
    }
}

/// Particle indices bucketed by the cell that contains them.
pub struct NeighborGrid {
    buckets: HashMap<i128, Vec<usize>>,
    cells: Ghost<Seq<Cell>>,
}

impl NeighborGrid {
    /// The cell of each particle, in particle order, that the grid was built from.
    pub closed spec fn cells(&self) -> Seq<Cell> {
        self.cells@
    }

    /// Every cell's bucket holds exactly its particles, in increasing order.
    pub closed spec fn wf(&self) -> bool {
        forall|c: Cell|
            {
                &&& (#[trigger] self.buckets@.contains_key(cell_key(c) as i128) ==> self.buckets@[cell_key(
                    c,
                ) as i128]@ == bucket(self.cells@, c, self.cells@.len()))
                &&& (!self.buckets@.contains_key(cell_key(c) as i128) ==> bucket(
                    self.cells@,
                    c,
                    self.cells@.len(),
                ).len() == 0)
            }
    }

    /// Bucket every particle by its cell.
    pub fn build(cells: &[Cell]) -> (grid: Self)
        ensures
            grid.wf(),
            grid.cells() == cells@,
    {
        let mut buckets: HashMap<i128, Vec<usize>> = HashMap::new();
        let mut i: usize = 0;
        while i < cells.len()
            invariant
                0 <= i <= cells@.len(),
                forall|c: Cell|
                    {
                        &&& (#[trigger] buckets@.contains_key(cell_key(c) as i128)
                            ==> buckets@[cell_key(c) as i128]@ == bucket(cells@, c, i as nat))
                        &&& (!buckets@.contains_key(cell_key(c) as i128) ==> bucket(
                            cells@,
                            c,
                            i as nat,
                        ).len() == 0)
                    },
            decreases cells@.len() - i,
        {
            let cell = cells[i];
            let key = key_of(cell);
            let ghost before = buckets@;
            match buckets.remove(&key) {
                Some(mut list) => {
                    list.push(i);
                    buckets.insert(key, list);
                },
                None => {
                    let mut list: Vec<usize> = Vec::new();
                    list.push(i);
                    buckets.insert(key, list);
                },
            }
            proof {
                assert forall|c: Cell|
                    {
                        &&& (#[trigger] buckets@.contains_key(cell_key(c) as i128)
                            ==> buckets@[cell_key(c) as i128]@ == bucket(cells@, c, (i + 1) as nat))
                        &&& (!buckets@.contains_key(cell_key(c) as i128) ==> bucket(
                            cells@,
                            c,
                            (i + 1) as nat,
                        ).len() == 0)
                    } by {
                    assert(bucket(cells@, c, (i + 1) as nat) == if cells@[i as int] == c {
                        bucket(cells@, c, i as nat).push(i)
                    } else {
                        bucket(cells@, c, i as nat)
                    });
                    if c != cell {
                        lemma_cell_key_range(c);
                        lemma_cell_key_range(cell);
                        if cell_key(c) == cell_key(cell) {
                            lemma_cell_key_injective(c, cell);
                        }
                        assert(cell_key(c) as i128 != key);
                        assert(before.contains_key(cell_key(c) as i128) == buckets@.contains_key(
                            cell_key(c) as i128,
                        ));
                    } else {
                        lemma_cell_key_range(c);
                        assert(key == cell_key(c) as i128);
                        if before.contains_key(cell_key(c) as i128) {
                            assert(before[key]@ == bucket(cells@, c, i as nat));
                        } else {
                            assert(bucket(cells@, c, i as nat).len() == 0);
                            assert(bucket(cells@, c, i as nat) =~= seq![]);
                        }
                        assert(buckets@[key]@ =~= bucket(cells@, c, i as nat).push(i));
                    }
                }
            }
            i = i + 1;
        }
        NeighborGrid { buckets, cells: Ghost(cells@) }
    }

    /// Indices of the particles in the 27 cells around `cell`, cell by cell in visiting order
    /// and in increasing order within each cell.
    pub fn neighbors(&self, cell: Cell) -> (found: Vec<usize>)
        requires
            self.wf(),
            interior_cell(cell),
        ensures
            found@ == neighborhood(self.cells(), cell, 27),
    {
        let mut found: Vec<usize> = Vec::new();
        let mut k: i32 = 0;
        while k < 27
            invariant
                self.wf(),
                interior_cell(cell),
                0 <= k <= 27,
                found@ == neighborhood(self.cells(), cell, k as nat),
            decreases 27 - k,
        {
            let around = (cell.0 - 1 + (k % 3), cell.1 - 1 + ((k / 3) % 3), cell.2 - 1 + (k / 9));
            assert(around == neighbor_cell(cell, k as int));
            let key = key_of(around);
            proof {
                lemma_cell_key_range(around);
            }
            let ghost prefix = found@;
            match self.buckets.get(&key) {
                Some(list) => {
                    let mut j: usize = 0;
                    while j < list.len()
                        invariant
                            0 <= j <= list@.len(),
                            found@ == prefix + list@.subrange(0, j as int),
                        decreases list@.len() - j,
                    {
                        found.push(list[j]);
                        proof {
                            assert(list@.subrange(0, (j + 1) as int) == list@.subrange(
                                0,
                                j as int,
                            ).push(list@[j as int]));
                        }
                        j = j + 1;
                    }
                    proof {
                        assert(list@.subrange(0, list@.len() as int) == list@);
                        assert(self.buckets@.contains_key(cell_key(around) as i128));
                    }
                },
                None => {
                    proof {
                        assert(!self.buckets@.contains_key(cell_key(around) as i128));
                        assert(found@ == prefix + bucket(self.cells(), around, self.cells().len()));
                    }
                },
            }
            k = k + 1;
        }
        found
    }
}

} // verus!
