//! Colour space catalog: primaries and transfer functions.

use vstd::prelude::*;

verus! {

/// Colour space primaries.
#[derive(Debug, Clone, Copy, PartialEq, Eq, Structural)]
pub enum ColorPrimaries {
    Rec709,
    DCIP3,
    Rec2020,
    AdobeRGB,
    ProPhoto,
    ACEScg,
    ACES2065,
}

/// Transfer function (OETF / EOTF).
#[derive(Debug, Clone, Copy, PartialEq, Eq, Structural)]
pub enum TransferFunction {
    SRGB,
    Linear,
    Rec709,
    Gamma22,
    Gamma28,
    PQ,
    HLG,
    LogC,
    SLog3,
    VLog,
    CLog,
    FLog,
    RedLog3G10,
}

impl TransferFunction {
    /// Every variant, in catalog order.
    pub open spec fn catalog() -> Seq<TransferFunction> {
        seq![TransferFunction::SRGB, TransferFunction::Linear, TransferFunction::Rec709, TransferFunction::Gamma22, TransferFunction::Gamma28, TransferFunction::PQ, TransferFunction::HLG, TransferFunction::LogC, TransferFunction::SLog3, TransferFunction::VLog, TransferFunction::CLog, TransferFunction::FLog, TransferFunction::RedLog3G10]
    }

    /// Lists all transfer functions.
    pub fn all() -> (r: &'static [TransferFunction])
        ensures
            r@ == Self::catalog(),
    {
        let r: &'static [TransferFunction] = &[TransferFunction::SRGB, TransferFunction::Linear, TransferFunction::Rec709, TransferFunction::Gamma22, TransferFunction::Gamma28, TransferFunction::PQ, TransferFunction::HLG, TransferFunction::LogC, TransferFunction::SLog3, TransferFunction::VLog, TransferFunction::CLog, TransferFunction::FLog, TransferFunction::RedLog3G10];
        assert(r@ =~= Self::catalog());
        r
    }

    /// The display name of each variant.
    pub open spec fn spec_display_name(self) -> Seq<char> {
        match self {
            TransferFunction::SRGB => "sRGB"@,
            TransferFunction::Linear => "Linear"@,
            TransferFunction::Rec709 => "Rec.709"@,
            TransferFunction::Gamma22 => "Gamma 2.2"@,
            TransferFunction::Gamma28 => "Gamma 2.8"@,
            TransferFunction::PQ => "ST 2084 (PQ)"@,
            TransferFunction::HLG => "HLG"@,
            TransferFunction::LogC => "ARRI LogC"@,
            TransferFunction::SLog3 => "Sony S-Log3"@,
            TransferFunction::VLog => "Panasonic V-Log"@,
            TransferFunction::CLog => "Canon Log3"@,
            TransferFunction::FLog => "Fuji F-Log"@,
            TransferFunction::RedLog3G10 => "RED Log3G10"@,
        }
    }

    /// Display name.
    pub fn display_name(&self) -> (r: &'static str)
        ensures
            r@ == self.spec_display_name(),
    {
        match self {
            TransferFunction::SRGB => "sRGB",
            TransferFunction::Linear => "Linear",
            TransferFunction::Rec709 => "Rec.709",
            TransferFunction::Gamma22 => "Gamma 2.2",
            TransferFunction::Gamma28 => "Gamma 2.8",
            TransferFunction::PQ => "ST 2084 (PQ)",
            TransferFunction::HLG => "HLG",
            TransferFunction::LogC => "ARRI LogC",
            TransferFunction::SLog3 => "Sony S-Log3",
            TransferFunction::VLog => "Panasonic V-Log",
            TransferFunction::CLog => "Canon Log3",
            TransferFunction::FLog => "Fuji F-Log",
            TransferFunction::RedLog3G10 => "RED Log3G10",
        }
    }

    /// Whether this transfer function is an HDR one (PQ or HLG).
    pub open spec fn spec_is_hdr(self) -> bool {
        self == TransferFunction::PQ || self == TransferFunction::HLG
    }

    /// Is this an HDR transfer function?
    pub fn is_hdr(&self) -> (r: bool)
        ensures
            r == self.spec_is_hdr(),
    {
        match self {
            TransferFunction::PQ | TransferFunction::HLG => true,
            _ => false,
        }
    }
}

} // verus!
