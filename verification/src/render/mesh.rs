//! Residency of mesh geometry on the GPU. Geometry is keyed by the mesh's identity, so
//! instances that share one mesh share one upload, and geometry no longer referenced by
//! the scene is released on the next frame.

use vstd::prelude::*;
use std::collections::HashMap;

verus! {

broadcast use vstd::std_specs::hash::group_hash_axioms;

/// One resident entry per distinct mesh identity; `V` is whatever the GPU holds for it.
pub struct MeshResidency<V> {
    geometry: HashMap<u64, V>,
}

impl<V> View for MeshResidency<V> {
    type V = Map<u64, V>;

    closed spec fn view(&self) -> Map<u64, V> {
        self.geometry@
    }
}

/// How residency changes when a frame references the meshes `ids`: exactly the referenced
/// meshes stay or become resident, and geometry that was already resident is kept as is.
pub open spec fn residency_step<V>(before: Map<u64, V>, after: Map<u64, V>, ids: Seq<u64>) -> bool {
    &&& after.dom() == ids.to_set()
    &&& forall|k: u64| #[trigger]
        before.contains_key(k) && ids.contains(k) ==> after[k] == before[k]
}

impl<V> MeshResidency<V> {
    pub fn new() -> (residency: Self)
        ensures
            residency@ == Map::<u64, V>::empty(),
    {
        MeshResidency { geometry: HashMap::new() }
    }

    /// The resident geometry of a mesh, if any.
    pub fn get(&self, id: u64) -> (entry: Option<&V>)
        ensures
            match entry {
                Some(v) => self@.contains_key(id) && *v == self@[id],
                None => !self@.contains_key(id),
            },
    {
        self.geometry.get(&id)
    }

    /// Number of unique mesh assets currently resident.
    pub fn resident_meshes(&self) -> (count: usize)
        ensures
            count == self@.len(),
    {
        self.geometry.len()
    }

    /// Make exactly the meshes `ids` resident, in scene order. A mesh not yet resident is
    /// uploaded once, by `upload` applied to the position of its first reference;
    /// everything else resident is released.
    pub fn prepare<F: Fn(usize) -> V>(&mut self, ids: &[u64], upload: F)
        requires
            forall|i: usize| i < ids@.len() ==> #[trigger] call_requires(upload, (i,)),
        ensures
            residency_step(old(self)@, final(self)@, ids@),
            forall|k: u64|
                #[trigger] final(self)@.contains_key(k) && !old(self)@.contains_key(k) ==> exists|
                    j: int,
                |
                    0 <= j < ids@.len() && ids@[j] == k && call_ensures(
                        upload,
                        (j as usize,),
                        final(self)@[k],
                    ),
    {
        let ghost before = self.geometry@;
        let mut next: HashMap<u64, V> = HashMap::new();
        let mut i: usize = 0;
        while i < ids.len()
            invariant
                0 <= i <= ids@.len(),
                forall|j: usize| j < ids@.len() ==> #[trigger] call_requires(upload, (j,)),
                forall|k: u64|
                    #[trigger] next@.contains_key(k) <==> exists|j: int|
                        0 <= j < i && ids@[j] == k,
                forall|k: u64| #[trigger]
                    self.geometry@.contains_key(k) <==> (before.contains_key(k)
                        && !next@.contains_key(k)),
                forall|k: u64| #[trigger]
                    self.geometry@.contains_key(k) ==> self.geometry@[k] == before[k],
                forall|k: u64| #[trigger]
                    next@.contains_key(k) && before.contains_key(k) ==> next@[k] == before[k],
                forall|k: u64|
                    #[trigger] next@.contains_key(k) && !before.contains_key(k) ==> exists|j: int|
                        0 <= j < i && ids@[j] == k && call_ensures(upload, (j as usize,), next@[k]),
            decreases ids@.len() - i,
        {
            let id = ids[i];
            if !next.contains_key(&id) {
                match self.geometry.remove(&id) {
                    Some(entry) => {
                        next.insert(id, entry);
                    },
                    None => {
                        let entry = upload(i);
                        next.insert(id, entry);
                    },
                }
            }
            proof {
                assert forall|k: u64| #[trigger] next@.contains_key(k) implies exists|j: int|
                    0 <= j < i + 1 && ids@[j] == k by {
                    if k != id {
                        let j = choose|j: int| 0 <= j < i && ids@[j] == k;
                        assert(0 <= j < i + 1 && ids@[j] == k);
                    } else {
                        assert(ids@[i as int] == k);
                    }
                }
                assert forall|k: u64|
                    #[trigger] next@.contains_key(k) && !before.contains_key(k) implies exists|
                        j: int,
                    |
                        0 <= j < i + 1 && ids@[j] == k && call_ensures(
                            upload,
                            (j as usize,),
                            next@[k],
                        ) by {
                    if exists|j: int| 0 <= j < i && ids@[j] == k && call_ensures(
                        upload,
                        (j as usize,),
                        next@[k],
                    ) {
                        let j = choose|j: int|
                            0 <= j < i && ids@[j] == k && call_ensures(
                                upload,
                                (j as usize,),
                                next@[k],
                            );
                        assert(0 <= j < i + 1 && ids@[j] == k);
                    } else {
                        assert(ids@[i as int] == k);
                    }
                }
            }
            i = i + 1;
        }
        self.geometry = next;
        proof {
            assert forall|k: u64| #[trigger] self.geometry@.dom().contains(k) <==> ids@.to_set().contains(k) by {
                if ids@.contains(k) {
                    let j = choose|j: int| 0 <= j < ids@.len() && ids@[j] == k;
                    assert(exists|j: int| 0 <= j < i && ids@[j] == k);
                }
            }
            assert(self.geometry@.dom() =~= ids@.to_set());
            assert forall|k: u64| #[trigger]
                before.contains_key(k) && ids@.contains(k) implies self.geometry@[k] == before[k] by {
                let j = choose|j: int| 0 <= j < ids@.len() && ids@[j] == k;
                assert(exists|j: int| 0 <= j < i && ids@[j] == k);
                assert(self.geometry@.contains_key(k));
            }
        }
    }
}

/// After a frame, the number of resident meshes is the number of distinct meshes the scene
/// references: instances sharing a mesh share its single upload, and unreferenced meshes
/// are gone.
pub proof fn lemma_resident_count_is_distinct_meshes<V>(
    before: Map<u64, V>,
    after: Map<u64, V>,
    ids: Seq<u64>,
)
    requires
        residency_step(before, after, ids),
    ensures
        after.len() == ids.to_set().len(),
        forall|k: u64| !ids.contains(k) ==> !#[trigger] after.contains_key(k),
{
}

/// Rendering the same meshes on consecutive frames uploads nothing new: every entry of the
/// second frame is the entry of the first.
pub proof fn lemma_unchanged_scene_keeps_geometry<V>(
    first: Map<u64, V>,
    second: Map<u64, V>,
    ids: Seq<u64>,
)
    requires
        first.dom() == ids.to_set(),
        residency_step(first, second, ids),
    ensures
        second == first,
{
    assert forall|k: u64| #[trigger] second.contains_key(k) implies second[k] == first[k] by {
        assert(ids.to_set().contains(k));
    }
    assert(second =~= first);
}

} // verus!
