//! Renderer bookkeeping that does not touch the GPU: target extents, readback layout,
//! mesh residency, and streaming-buffer capacities.

pub mod fluid;
pub mod mesh;
pub mod offscreen;

use vstd::prelude::*;

verus! {

/// A requested render target size outside what the device supports.
#[derive(Clone, Copy, Debug, PartialEq, Eq, Structural)]
pub struct ExtentError {
    /// The device's largest supported 2D texture dimension.
    pub max: u32,
}

/// Render dimensions must each lie in `1..=max`.
pub open spec fn extent_valid(width: u32, height: u32, max: u32) -> bool {
    1 <= width <= max && 1 <= height <= max
}

/// Check a render target size against the device's maximum 2D texture dimension.
pub fn validate_extent(width: u32, height: u32, max: u32) -> (result: Result<(), ExtentError>)
    ensures
        result is Ok <==> extent_valid(width, height, max),
        result is Ok ==> 1 <= width <= max && 1 <= height <= max,
        (width == 0 || height == 0 || width > max || height > max) ==> result is Err,
        result is Err ==> result == Err::<(), ExtentError>(ExtentError { max }),
{
    if width == 0 || height == 0 || width > max || height > max {
        Err(ExtentError { max })
    } else {
        Ok(())
    }
}

/// A valid extent has both dimensions between one and the device maximum; validity does not
/// depend on orientation (a portrait target is valid exactly when its landscape transpose is),
/// and a valid extent stays valid on a device with a larger maximum.
pub proof fn lemma_extent_bounds_both_dimensions(width: u32, height: u32, max: u32, larger: u32)
    requires
        max <= larger,
    ensures
        extent_valid(width, height, max) ==> 1 <= width <= max && 1 <= height <= max,
        (width > max || height > max || width == 0 || height == 0) ==> !extent_valid(
            width,
            height,
            max,
        ),
        extent_valid(width, height, max) == extent_valid(height, width, max),
        extent_valid(width, height, max) ==> extent_valid(width, height, larger),
{
}

} // verus!
