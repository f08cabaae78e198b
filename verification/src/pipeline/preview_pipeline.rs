//! Preview pipeline: preview quality levels, the resolution each gives,
//! and how the quality adapts to the time frames take to render.

use vstd::prelude::*;

verus! {

/// Preview quality level.
#[derive(Debug, Clone, Copy, PartialEq, Eq, Structural)]
pub enum PreviewQuality {
    Full,
    Half,
    Quarter,
    Eighth,
}

impl Default for PreviewQuality {
    /// Half resolution.
    fn default() -> (r: Self)
        ensures
            r == PreviewQuality::Half,
    {
        PreviewQuality::Half
    }
}

impl PreviewQuality {
    /// The factor by which each side of the picture shrinks.
    pub open spec fn spec_divisor(self) -> u32 {
        match self {
            PreviewQuality::Full => 1,
            PreviewQuality::Half => 2,
            PreviewQuality::Quarter => 4,
            PreviewQuality::Eighth => 8,
        }
    }

    /// One step lower (the lowest stays).
    pub open spec fn spec_lower(self) -> PreviewQuality {
        match self {
            PreviewQuality::Full => PreviewQuality::Half,
            PreviewQuality::Half => PreviewQuality::Quarter,
            PreviewQuality::Quarter => PreviewQuality::Eighth,
            PreviewQuality::Eighth => PreviewQuality::Eighth,
        }
    }

    /// One step higher (the highest stays).
    pub open spec fn spec_higher(self) -> PreviewQuality {
        match self {
            PreviewQuality::Full => PreviewQuality::Full,
            PreviewQuality::Half => PreviewQuality::Full,
            PreviewQuality::Quarter => PreviewQuality::Half,
            PreviewQuality::Eighth => PreviewQuality::Quarter,
        }
    }
}

/// `n / d`, but at least 16.
pub open spec fn shrunk_side(n: u32, d: u32) -> u32 {
    if n / d > 16 { n / d } else { 16 }
}

/// The preview resolution for a maximum resolution at a quality: each side
/// divided by the quality's divisor (1, 2, 4 or 8), and at least 16 pixels.
pub fn effective_resolution(max_resolution: (u32, u32), quality: PreviewQuality) -> (r: (u32, u32))
    ensures
        r.0 == shrunk_side(max_resolution.0, quality.spec_divisor()),
        r.1 == shrunk_side(max_resolution.1, quality.spec_divisor()),
{
    let (max_w, max_h) = max_resolution;
    let divisor: u32 = match quality {
        PreviewQuality::Full => 1,
        PreviewQuality::Half => 2,
        PreviewQuality::Quarter => 4,
        PreviewQuality::Eighth => 8,
    };
    let w = max_w / divisor;
    let h = max_h / divisor;
    (if w > 16 { w } else { 16 }, if h > 16 { h } else { 16 })
}

/// The quality after a frame was rendered: one step lower when the frame
/// took more than one and a half frame budgets (`too_slow`), one step
/// higher when it took less than half a budget (`too_fast`), the same
/// otherwise.
pub fn adapted_quality(current: PreviewQuality, too_slow: bool, too_fast: bool) -> (r: PreviewQuality)
    ensures
        r == (if too_slow { current.spec_lower() } else if too_fast { current.spec_higher() } else { current }),
{
    if too_slow {
        match current {
            PreviewQuality::Full => PreviewQuality::Half,
            PreviewQuality::Half => PreviewQuality::Quarter,
            PreviewQuality::Quarter => PreviewQuality::Eighth,
            PreviewQuality::Eighth => PreviewQuality::Eighth,
        }
    } else if too_fast {
        match current {
            PreviewQuality::Full => PreviewQuality::Full,
            PreviewQuality::Half => PreviewQuality::Full,
            PreviewQuality::Quarter => PreviewQuality::Half,
            PreviewQuality::Eighth => PreviewQuality::Quarter,
        }
    } else {
        current
    }
}

} // verus!
