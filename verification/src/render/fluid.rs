//! Capacities of the streaming vertex/index buffers that carry reconstructed fluid surfaces.
//! Buffers are reused while large enough and regrown to a power of two otherwise.

use vstd::arithmetic::power2::{pow2, lemma_pow2_unfold};
use vstd::prelude::*;

verus! {

/// Smallest size given to a streaming buffer, in bytes.
pub open spec fn minimum_stream_bytes() -> int {
    4
}

/// `x` is a power of two.
pub open spec fn is_power_of_two(x: int) -> bool {
    exists|e: nat| pow2(e) == x
}

/// The capacity for `len` bytes: the smallest power of two that holds both `len` and
/// the minimum size.
pub open spec fn stream_capacity_spec(len: int, capacity: int) -> bool {
    let need = if len < minimum_stream_bytes() {
        minimum_stream_bytes()
    } else {
        len
    };
    &&& is_power_of_two(capacity)
    &&& need <= capacity < 2 * need
}

/// Smallest power of two holding `len` bytes, and at least four.
pub fn stream_capacity(len: u64) -> (capacity: u64)
    requires
        len <= 0x8000_0000_0000_0000,
    ensures
        stream_capacity_spec(len as int, capacity as int),
{
    let mut capacity: u64 = 4;
    let ghost mut e: nat = 2;
    proof {
        lemma_pow2_unfold(2);
        lemma_pow2_unfold(1);
        assert(pow2(0) == 1) by {
            vstd::arithmetic::power2::lemma_pow2(0);
            vstd::arithmetic::power::lemma_pow0(2);
        }
    }
    while capacity < len
        invariant
            pow2(e) == capacity,
            4 <= capacity,
            len <= 0x8000_0000_0000_0000,
            capacity == 4 || capacity < 2 * len,
        decreases u64::MAX - capacity,
    {
        proof {
            lemma_pow2_unfold(e + 1);
        }
        capacity = capacity * 2;
        proof {
            e = e + 1;
        }
    }
    capacity
}

/// Buffers are reallocated when there are none yet or either is too small; a reallocation
/// sizes both to their stream capacities.
pub open spec fn plan_spec(existing: Option<(u64, u64)>, vertex_len: u64, index_len: u64, plan: Option<
    (u64, u64),
>) -> bool {
    let grow = match existing {
        Some((v, i)) => v < vertex_len || i < index_len,
        None => true,
    };
    if grow {
        plan matches Some((v, i)) && stream_capacity_spec(vertex_len as int, v as int)
            && stream_capacity_spec(index_len as int, i as int)
    } else {
        plan is None
    }
}

/// Decide whether the buffers for a surface must be (re)allocated before uploading
/// `vertex_len` vertex bytes and `index_len` index bytes, and to which capacities.
pub fn plan_stream_buffers(existing: Option<(u64, u64)>, vertex_len: u64, index_len: u64) -> (plan:
    Option<(u64, u64)>)
    requires
        vertex_len <= 0x8000_0000_0000_0000,
        index_len <= 0x8000_0000_0000_0000,
    ensures
        plan_spec(existing, vertex_len, index_len, plan),
{
    let grow = match existing {
        Some((v, i)) => v < vertex_len || i < index_len,
        None => true,
    };
    if grow {
        Some((stream_capacity(vertex_len), stream_capacity(index_len)))
    } else {
        None
    }
}

/// Whatever the plan, the buffers used for the upload hold the data, and an allocation
/// wastes less than half of its capacity beyond the minimum size.
pub proof fn lemma_planned_buffers_fit(
    existing: Option<(u64, u64)>,
    vertex_len: u64,
    index_len: u64,
    plan: Option<(u64, u64)>,
)
    requires
        plan_spec(existing, vertex_len, index_len, plan),
    ensures
        ({
            let (v, i) = match plan {
                Some(p) => p,
                None => existing.unwrap(),
            };
            v >= vertex_len && i >= index_len
        }),
        plan matches Some((v, i)) ==> v < 2 * vertex_len + 8 && i < 2 * index_len + 8,
{
}

} // verus!
