//! Vertex welding for imported polygon meshes. Triangle corners that name the same source
//! vertex with the same material share one output vertex; every other corner gets its own,
//! numbered in order of first use, so corner normals and color seams survive.

use vstd::arithmetic::div_mod::lemma_fundamental_div_mod_converse;
use vstd::prelude::*;
use std::collections::HashMap;

verus! {

broadcast use vstd::std_specs::hash::group_hash_axioms;

/// A triangle corner's identity: the source corner index and the polygon's material index.
pub type CornerKey = (u32, u32);

/// Injective packing of a corner key into one integer.
pub open spec fn pack(key: CornerKey) -> int {
    (key.0 as int) * 0x1_0000_0000 + key.1 as int
}

proof fn lemma_pack_injective(a: CornerKey, b: CornerKey)
    requires
        pack(a) == pack(b),
    ensures
        a == b,
{
    lemma_fundamental_div_mod_converse(pack(a), 0x1_0000_0000, a.0 as int, a.1 as int);
    lemma_fundamental_div_mod_converse(pack(b), 0x1_0000_0000, b.0 as int, b.1 as int);
}

proof fn lemma_pack_range(a: CornerKey)
    ensures
        0 <= pack(a) <= u64::MAX,
{
    assert(0 <= (a.0 as int) * 0x1_0000_0000 <= 0xffff_ffff_0000_0000) by (nonlinear_arith)
        requires
            0 <= a.0 <= 0xffff_ffff,
    ;
}

fn pack_key(key: CornerKey) -> (packed: u64)
    ensures
        packed == pack(key),
{
    proof {
        lemma_pack_range(key);
    }
    (key.0 as u64) * 0x1_0000_0000u64 + key.1 as u64
}

/// One corner through the welder: found corners reuse their vertex, new ones append one.
pub open spec fn weld_step(welded: Seq<CornerKey>, key: CornerKey) -> Seq<CornerKey> {
    if welded.contains(key) {
        welded
    } else {
        welded.push(key)
    }
}

/// The vertices welded from a sequence of triangle corners, in order of first use.
pub open spec fn welded(keys: Seq<CornerKey>) -> Seq<CornerKey>
    decreases keys.len(),
{
    if keys.len() == 0 {
        seq![]
    } else {
        weld_step(welded(keys.drop_last()), keys.last())
    }
}

/// Welding keeps exactly one vertex per distinct corner key: no two vertices share a key,
/// and a key has a vertex exactly when some corner uses it. So shared corners share a vertex,
/// while a corner seen with another material (a color seam) keeps its own.
pub proof fn lemma_welded_vertices_are_distinct_corner_keys(keys: Seq<CornerKey>)
    ensures
        welded(keys).no_duplicates(),
        forall|k: CornerKey| #[trigger] welded(keys).contains(k) <==> keys.contains(k),
        welded(keys).len() <= keys.len(),
    decreases keys.len(),
{
    if keys.len() > 0 {
        let rest = keys.drop_last();
        lemma_welded_vertices_are_distinct_corner_keys(rest);
        let before = welded(rest);
        let key = keys.last();
        assert forall|k: CornerKey| #[trigger] welded(keys).contains(k) <==> keys.contains(k) by {
            if keys.contains(k) && k != key {
                let j = choose|j: int| 0 <= j < keys.len() && keys[j] == k;
                assert(rest[j] == k);
                assert(rest.contains(k));
                assert(before.contains(k));
                if !before.contains(key) {
                    let i = choose|i: int| 0 <= i < before.len() && before[i] == k;
                    assert(before.push(key)[i] == k);
                }
            }
            if k == key && !before.contains(key) {
                assert(before.push(key)[before.len() as int] == key);
            }
            if welded(keys).contains(k) && k != key {
                assert(before.contains(k)) by {
                    if !before.contains(key) {
                        let i = choose|i: int|
                            0 <= i < before.push(key).len() && before.push(key)[i] == k;
                        assert(i < before.len());
                    }
                }
                assert(rest.contains(k));
                let j = choose|j: int| 0 <= j < rest.len() && rest[j] == k;
                assert(keys[j] == k);
            }
            if k == key {
                assert(keys[keys.len() - 1] == key);
            }
        }
        if !before.contains(key) {
            assert forall|i: int, j: int|
                0 <= i < before.push(key).len() && 0 <= j < before.push(key).len() && i != j
                    implies before.push(key)[i] != before.push(key)[j] by {
                if i == before.len() {
                    assert(before[j] != key);
                } else if j == before.len() {
                    assert(before[i] != key);
                }
            }
        }
    }
}

/// Output vertex indices cannot exceed 32 bits.
#[derive(Clone, Copy, Debug, PartialEq, Eq, Structural)]
pub enum WeldError {
    /// The mesh needs more vertices than 32-bit indices can address.
    TooManyVertices,
}

/// The welded vertices so far, identified by corner key in order of first use.
pub struct CornerIndex {
    indices: HashMap<u64, u32>,
    keys: Vec<CornerKey>,
}

impl View for CornerIndex {
    type V = Seq<CornerKey>;

    closed spec fn view(&self) -> Seq<CornerKey> {
        self.keys@
    }
}

impl CornerIndex {
    /// Each key appears once, and the map finds each key's position.
    pub closed spec fn wf(&self) -> bool {
        &&& self.keys@.len() <= u32::MAX + 1
        &&& forall|i: int, j: int|
            0 <= i < j < self.keys@.len() ==> self.keys@[i] != self.keys@[j]
        &&& forall|k: CornerKey|
            #![trigger pack(k)]
            self.indices@.contains_key(pack(k) as u64) <==> self.keys@.contains(k)
        &&& forall|k: CornerKey|
            #![trigger pack(k)]
            self.indices@.contains_key(pack(k) as u64) ==> {
                let i = self.indices@[pack(k) as u64] as int;
                0 <= i < self.keys@.len() && self.keys@[i] == k
            }
    }

    pub fn new() -> (index: Self)
        ensures
            index.wf(),
            index@ == Seq::<CornerKey>::empty(),
    {
        CornerIndex { indices: HashMap::new(), keys: Vec::new() }
    }

    /// Number of welded vertices.
    pub fn len(&self) -> (n: usize)
        ensures
            n == self@.len(),
    {
        self.keys.len()
    }

    /// The vertex already welded for `key`, if any.
    pub fn find(&self, key: CornerKey) -> (found: Option<u32>)
        requires
            self.wf(),
        ensures
            match found {
                Some(i) => i < self@.len() && self@[i as int] == key && weld_step(self@, key)
                    == self@,
                None => !self@.contains(key),
            },
    {
        proof {
            lemma_pack_range(key);
        }
        let packed = pack_key(key);
        match self.indices.get(&packed) {
            Some(i) => Some(*i),
            None => None,
        }
    }

    /// Weld a new vertex for `key`, numbered after all earlier ones.
    pub fn add(&mut self, key: CornerKey) -> (added: Result<u32, WeldError>)
        requires
            old(self).wf(),
            !old(self)@.contains(key),
        ensures
            final(self).wf(),
            match added {
                Ok(i) => i == old(self)@.len() && final(self)@ == old(self)@.push(key)
                    && final(self)@ == weld_step(old(self)@, key),
                Err(e) => old(self)@.len() > u32::MAX && final(self)@ == old(self)@ && e
                    == WeldError::TooManyVertices,
            },
    {
        let count = self.keys.len();
        if count > u32::MAX as usize {
            return Err(WeldError::TooManyVertices);
        }
        let index = count as u32;
        proof {
            lemma_pack_range(key);
        }
        let packed = pack_key(key);
        let ghost before = self.indices@;
        let ghost keys_before = self.keys@;
        self.indices.insert(packed, index);
        self.keys.push(key);
        proof {
            assert forall|k: CornerKey| #![trigger pack(k)]
                self.indices@.contains_key(pack(k) as u64) <==> self.keys@.contains(k) by {
                lemma_pack_range(k);
                if k == key {
                    assert(self.keys@[count as int] == k);
                } else {
                    if pack(k) == pack(key) {
                        lemma_pack_injective(k, key);
                    }
                    if keys_before.contains(k) {
                        let j = choose|j: int| 0 <= j < keys_before.len() && keys_before[j] == k;
                        assert(self.keys@[j] == k);
                    }
                    if self.keys@.contains(k) {
                        let j = choose|j: int| 0 <= j < self.keys@.len() && self.keys@[j] == k;
                        assert(keys_before[j] == k);
                    }
                }
            }
            assert forall|k: CornerKey| #![trigger pack(k)]
                self.indices@.contains_key(pack(k) as u64) implies {
                let i = self.indices@[pack(k) as u64] as int;
                0 <= i < self.keys@.len() && self.keys@[i] == k
            } by {
                lemma_pack_range(k);
                if k != key && pack(k) == pack(key) {
                    lemma_pack_injective(k, key);
                }
            }
            assert forall|i: int, j: int| 0 <= i < j < self.keys@.len() implies self.keys@[i]
                != self.keys@[j] by {
                if j == count as int {
                    assert(keys_before.contains(self.keys@[i]) || self.keys@[i] != key);
                }
            }
        }
        Ok(index)
    }
}

} // verus!
