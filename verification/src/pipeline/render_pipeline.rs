//! Render pipeline: quality presets for final renders.

use vstd::prelude::*;

verus! {

/// Quality preset for rendering.
#[derive(Debug, Clone, Copy, PartialEq, Eq, Structural)]
pub enum RenderQualityPreset {
    Draft,
    Good,
    High,
    Ultra,
}

impl Default for RenderQualityPreset {
    /// Good quality.
    fn default() -> (r: Self)
        ensures
            r == RenderQualityPreset::Good,
    {
        RenderQualityPreset::Good
    }
}

} // verus!
