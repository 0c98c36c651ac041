//! Water surface options that carry no floating-point state.

use vstd::prelude::*;

verus! {

/// Surface shading and geometry quality. Both modes use the same wave motion and effects.
#[derive(Clone, Copy, Debug, PartialEq, Eq, Structural)]
pub enum WaterStyle {
    Stylized,
    Realistic,
}

impl Default for WaterStyle {
    fn default() -> (style: Self)
        ensures
            style == WaterStyle::Stylized,
    {
        WaterStyle::Stylized
    }
}

} // verus!
