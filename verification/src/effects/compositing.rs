//! Compositing: the catalog of the layer blend modes, with their names and
//! formulas. Blending normalized channel values is floating-point work done
//! by callers.

use vstd::prelude::*;

verus! {

/// The layer blend modes.
#[derive(Debug, Clone, Copy, PartialEq, Eq, Structural)]
pub enum BlendMode {
    Normal,
    Dissolve,
    Darken,
    Multiply,
    ColorBurn,
    LinearBurn,
    DarkerColor,
    Lighten,
    Screen,
    ColorDodge,
    LinearDodge,
    LighterColor,
    Overlay,
    SoftLight,
    HardLight,
    VividLight,
    LinearLight,
    PinLight,
    HardMix,
    Difference,
    Exclusion,
    Divide,
}

impl BlendMode {
    /// Every mode, in catalog order: normal, darkening, lightening,
    /// contrast and comparative modes.
    pub open spec fn catalog() -> Seq<BlendMode> {
        seq![
            BlendMode::Normal,
            BlendMode::Dissolve,
            BlendMode::Darken,
            BlendMode::Multiply,
            BlendMode::ColorBurn,
            BlendMode::LinearBurn,
            BlendMode::DarkerColor,
            BlendMode::Lighten,
            BlendMode::Screen,
            BlendMode::ColorDodge,
            BlendMode::LinearDodge,
            BlendMode::LighterColor,
            BlendMode::Overlay,
            BlendMode::SoftLight,
            BlendMode::HardLight,
            BlendMode::VividLight,
            BlendMode::LinearLight,
            BlendMode::PinLight,
            BlendMode::HardMix,
            BlendMode::Difference,
            BlendMode::Exclusion,
            BlendMode::Divide,
        ]
    }

    /// The display name of each mode.
    pub open spec fn spec_display_name(self) -> Seq<char> {
        match self {
            BlendMode::Normal => "Normal"@,
            BlendMode::Dissolve => "Dissolve"@,
            BlendMode::Darken => "Darken"@,
            BlendMode::Multiply => "Multiply"@,
            BlendMode::ColorBurn => "Color Burn"@,
            BlendMode::LinearBurn => "Linear Burn"@,
            BlendMode::DarkerColor => "Darker Color"@,
            BlendMode::Lighten => "Lighten"@,
            BlendMode::Screen => "Screen"@,
            BlendMode::ColorDodge => "Color Dodge"@,
            BlendMode::LinearDodge => "Linear Dodge (Add)"@,
            BlendMode::LighterColor => "Lighter Color"@,
            BlendMode::Overlay => "Overlay"@,
            BlendMode::SoftLight => "Soft Light"@,
            BlendMode::HardLight => "Hard Light"@,
            BlendMode::VividLight => "Vivid Light"@,
            BlendMode::LinearLight => "Linear Light"@,
            BlendMode::PinLight => "Pin Light"@,
            BlendMode::HardMix => "Hard Mix"@,
            BlendMode::Difference => "Difference"@,
            BlendMode::Exclusion => "Exclusion"@,
            BlendMode::Divide => "Divide"@,
        }
    }

    /// The formula of each mode, for tooltips.
    pub open spec fn spec_formula(self) -> Seq<char> {
        match self {
            BlendMode::Normal => "R = S"@,
            BlendMode::Dissolve => "R = random(S, D)"@,
            BlendMode::Darken => "R = min(S, D)"@,
            BlendMode::Multiply => "R = S × D"@,
            BlendMode::ColorBurn => "R = 1 - (1-D)/S"@,
            BlendMode::LinearBurn => "R = S + D - 1"@,
            BlendMode::DarkerColor => "R = lum(S) < lum(D) ? S : D"@,
            BlendMode::Lighten => "R = max(S, D)"@,
            BlendMode::Screen => "R = S + D - S×D"@,
            BlendMode::ColorDodge => "R = D / (1-S)"@,
            BlendMode::LinearDodge => "R = S + D"@,
            BlendMode::LighterColor => "R = lum(S) > lum(D) ? S : D"@,
            BlendMode::Overlay => "R = D<0.5 ? 2SD : 1-2(1-S)(1-D)"@,
            BlendMode::SoftLight => "R = D(2S+(1-D)(2S-1))"@,
            BlendMode::HardLight => "R = S<0.5 ? 2SD : 1-2(1-S)(1-D)"@,
            BlendMode::VividLight => "S<0.5 ? ColorBurn : ColorDodge"@,
            BlendMode::LinearLight => "R = D + 2S - 1"@,
            BlendMode::PinLight => "R = S<0.5 ? min(D,2S) : max(D,2S-1)"@,
            BlendMode::HardMix => "R = LinearLight < 0.5 ? 0 : 1"@,
            BlendMode::Difference => "R = |S - D|"@,
            BlendMode::Exclusion => "R = S + D - 2SD"@,
            BlendMode::Divide => "R = D / S"@,
        }
    }

    /// The display name of the mode.
    pub fn display_name(&self) -> (r: &'static str)
        ensures
            r@ == self.spec_display_name(),
    {
        match self {
            BlendMode::Normal => "Normal",
            BlendMode::Dissolve => "Dissolve",
            BlendMode::Darken => "Darken",
            BlendMode::Multiply => "Multiply",
            BlendMode::ColorBurn => "Color Burn",
            BlendMode::LinearBurn => "Linear Burn",
            BlendMode::DarkerColor => "Darker Color",
            BlendMode::Lighten => "Lighten",
            BlendMode::Screen => "Screen",
            BlendMode::ColorDodge => "Color Dodge",
            BlendMode::LinearDodge => "Linear Dodge (Add)",
            BlendMode::LighterColor => "Lighter Color",
            BlendMode::Overlay => "Overlay",
            BlendMode::SoftLight => "Soft Light",
            BlendMode::HardLight => "Hard Light",
            BlendMode::VividLight => "Vivid Light",
            BlendMode::LinearLight => "Linear Light",
            BlendMode::PinLight => "Pin Light",
            BlendMode::HardMix => "Hard Mix",
            BlendMode::Difference => "Difference",
            BlendMode::Exclusion => "Exclusion",
            BlendMode::Divide => "Divide",
        }
    }

    /// The formula of the mode, for tooltips.
    pub fn formula(&self) -> (r: &'static str)
        ensures
            r@ == self.spec_formula(),
    {
        match self {
            BlendMode::Normal => "R = S",
            BlendMode::Dissolve => "R = random(S, D)",
            BlendMode::Darken => "R = min(S, D)",
            BlendMode::Multiply => "R = S × D",
            BlendMode::ColorBurn => "R = 1 - (1-D)/S",
            BlendMode::LinearBurn => "R = S + D - 1",
            BlendMode::DarkerColor => "R = lum(S) < lum(D) ? S : D",
            BlendMode::Lighten => "R = max(S, D)",
            BlendMode::Screen => "R = S + D - S×D",
            BlendMode::ColorDodge => "R = D / (1-S)",
            BlendMode::LinearDodge => "R = S + D",
            BlendMode::LighterColor => "R = lum(S) > lum(D) ? S : D",
            BlendMode::Overlay => "R = D<0.5 ? 2SD : 1-2(1-S)(1-D)",
            BlendMode::SoftLight => "R = D(2S+(1-D)(2S-1))",
            BlendMode::HardLight => "R = S<0.5 ? 2SD : 1-2(1-S)(1-D)",
            BlendMode::VividLight => "S<0.5 ? ColorBurn : ColorDodge",
            BlendMode::LinearLight => "R = D + 2S - 1",
            BlendMode::PinLight => "R = S<0.5 ? min(D,2S) : max(D,2S-1)",
            BlendMode::HardMix => "R = LinearLight < 0.5 ? 0 : 1",
            BlendMode::Difference => "R = |S - D|",
            BlendMode::Exclusion => "R = S + D - 2SD",
            BlendMode::Divide => "R = D / S",
        }
    }

    /// Every blend mode, in catalog order.
    pub fn all() -> (r: &'static [BlendMode])
        ensures
            r@ == Self::catalog(),
    {
        let r: &'static [BlendMode] = &[
            BlendMode::Normal,
            BlendMode::Dissolve,
            BlendMode::Darken,
            BlendMode::Multiply,
            BlendMode::ColorBurn,
            BlendMode::LinearBurn,
            BlendMode::DarkerColor,
            BlendMode::Lighten,
            BlendMode::Screen,
            BlendMode::ColorDodge,
            BlendMode::LinearDodge,
            BlendMode::LighterColor,
            BlendMode::Overlay,
            BlendMode::SoftLight,
            BlendMode::HardLight,
            BlendMode::VividLight,
            BlendMode::LinearLight,
            BlendMode::PinLight,
            BlendMode::HardMix,
            BlendMode::Difference,
            BlendMode::Exclusion,
            BlendMode::Divide,
        ];
        assert(r@ =~= Self::catalog());
        r
    }
}

} // verus!
