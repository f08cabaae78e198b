//! Masking: mask shapes and how masks combine.

use vstd::prelude::*;

verus! {

/// Type of mask shape or source.
#[derive(Debug, Clone, Copy, PartialEq, Eq, Structural)]
pub enum MaskType {
    Rectangle,
    Ellipse,
    Bezier,
    Luminance,
    Chroma,
    Depth,
}

/// How multiple masks combine on a clip.
#[derive(Debug, Clone, Copy, PartialEq, Eq, Structural)]
pub enum MaskBlendMode {
    Add,
    Subtract,
    Intersect,
    Difference,
}

} // verus!
