//! Limits and dispatch sizes of the GPU-resident fluid.

use vstd::prelude::*;

verus! {

/// Most fixed steps enqueued in one batch.
pub open spec fn max_batch_steps() -> int {
    8
}

/// Most colliders uploaded for one batch.
pub open spec fn max_batch_colliders() -> int {
    64
}

/// Threads per compute workgroup of the fluid kernels.
pub open spec fn workgroup_size() -> int {
    64
}

/// A batch request beyond the GPU fluid's limits.
#[derive(Clone, Copy, Debug, PartialEq, Eq, Structural)]
pub enum BatchError {
    /// At most eight steps and sixty-four colliders per batch.
    TooLarge,
}

/// Whether a batch of `steps` fixed steps with `colliders` colliders is accepted, and if so
/// whether there is any work to enqueue.
pub fn check_batch(steps: u32, colliders: usize) -> (result: Result<bool, BatchError>)
    ensures
        match result {
            Ok(work) => steps <= max_batch_steps() && colliders <= max_batch_colliders() && work
                == (steps > 0),
            Err(e) => (steps > max_batch_steps() || colliders > max_batch_colliders()) && e
                == BatchError::TooLarge,
        },
{
    if steps > 8 || colliders > 64 {
        return Err(BatchError::TooLarge);
    }
    Ok(steps != 0)
}

/// Workgroups needed to cover `count` invocations: `count / 64` rounded up.
pub fn workgroups(count: u32) -> (groups: u32)
    ensures
        groups == (count + workgroup_size() - 1) / workgroup_size(),
        groups * workgroup_size() >= count,
        groups == 0 || (groups - 1) * workgroup_size() < count,
{
    let groups = count / 64 + if count % 64 != 0 {
        1
    } else {
        0
    };
    proof {
        let c = count as int;
        assert(groups == (c + 63) / 64) by (nonlinear_arith)
            requires
                groups == c / 64 + if c % 64 != 0 {
                    1int
                } else {
                    0
                },
                c >= 0,
        ;
        assert(groups * 64 >= c && (groups == 0 || (groups - 1) * 64 < c)) by (nonlinear_arith)
            requires
                groups == (c + 63) / 64,
                c >= 0,
        ;
    }
    groups
}

} // verus!
