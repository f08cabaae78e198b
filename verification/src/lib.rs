//! Video editing engine: the verified core.
//!
//! The crate holds the catalogs, the pixel and timecode arithmetic, and the
//! exchange-format writers of the editing engine, each with a contract that
//! Verus proves.

pub mod effects;
pub mod export_engine;
pub mod float_bits;
pub mod keyed;
pub mod pipeline;
pub mod project;
pub mod sorting;
pub mod text;

use vstd::prelude::*;

verus! {

/// The version string of the engine (the package version).
pub fn engine_version() -> (v: &'static str)
    ensures
        v@ == "0.1.0"@,
{
    "0.1.0"
}

} // verus!
