//! Noise reduction: methods and channel selection.

use vstd::prelude::*;

verus! {

/// Noise reduction method.
#[derive(Debug, Clone, Copy, PartialEq, Eq, Structural)]
pub enum NRMethod {
    Bilateral,
    Wiener,
    NonLocalMeans,
    Temporal,
}

/// Which channels to process.
#[derive(Debug, Clone, Copy, PartialEq, Eq, Structural)]
pub enum NRChannelMode {
    LumaOnly,
    ChromaOnly,
    LumaAndChroma,
}

} // verus!
