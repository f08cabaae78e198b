//! Film grain catalog: the film stock presets.

use vstd::prelude::*;

verus! {

/// Film stock preset.
#[allow(non_camel_case_types)]
#[derive(Debug, Clone, Copy, PartialEq, Eq, Structural)]
pub enum FilmStock {
    KodakPortra400,
    KodakPortra800,
    KodakEktar100,
    KodakTriX400,
    KodakTMax3200,
    FujiVelvia50,
    FujiPro400H,
    FujiSuperia400,
    IlfordHP5,
    IlfordDelta3200,
    CineStill800T,
    KodakVision3_500T,
    KodakVision3_250D,
    Fomapan400,
    Lomography800,
    Polaroid600,
    Kodachrome64,
}

impl FilmStock {
    /// Every variant, in catalog order.
    pub open spec fn catalog() -> Seq<FilmStock> {
        seq![FilmStock::KodakPortra400, FilmStock::KodakPortra800, FilmStock::KodakEktar100, FilmStock::KodakTriX400, FilmStock::KodakTMax3200, FilmStock::FujiVelvia50, FilmStock::FujiPro400H, FilmStock::FujiSuperia400, FilmStock::IlfordHP5, FilmStock::IlfordDelta3200, FilmStock::CineStill800T, FilmStock::KodakVision3_500T, FilmStock::KodakVision3_250D, FilmStock::Fomapan400, FilmStock::Lomography800, FilmStock::Polaroid600, FilmStock::Kodachrome64]
    }

    /// Lists all film stocks.
    pub fn all() -> (r: &'static [FilmStock])
        ensures
            r@ == Self::catalog(),
    {
        let r: &'static [FilmStock] = &[FilmStock::KodakPortra400, FilmStock::KodakPortra800, FilmStock::KodakEktar100, FilmStock::KodakTriX400, FilmStock::KodakTMax3200, FilmStock::FujiVelvia50, FilmStock::FujiPro400H, FilmStock::FujiSuperia400, FilmStock::IlfordHP5, FilmStock::IlfordDelta3200, FilmStock::CineStill800T, FilmStock::KodakVision3_500T, FilmStock::KodakVision3_250D, FilmStock::Fomapan400, FilmStock::Lomography800, FilmStock::Polaroid600, FilmStock::Kodachrome64];
        assert(r@ =~= Self::catalog());
        r
    }

    /// The display name of each variant.
    pub open spec fn spec_display_name(self) -> Seq<char> {
        match self {
            FilmStock::KodakPortra400 => "Kodak Portra 400"@,
            FilmStock::KodakPortra800 => "Kodak Portra 800"@,
            FilmStock::KodakEktar100 => "Kodak Ektar 100"@,
            FilmStock::KodakTriX400 => "Kodak Tri-X 400"@,
            FilmStock::KodakTMax3200 => "Kodak T-Max 3200"@,
            FilmStock::FujiVelvia50 => "Fuji Velvia 50"@,
            FilmStock::FujiPro400H => "Fuji Pro 400H"@,
            FilmStock::FujiSuperia400 => "Fuji Superia 400"@,
            FilmStock::IlfordHP5 => "Ilford HP5+"@,
            FilmStock::IlfordDelta3200 => "Ilford Delta 3200"@,
            FilmStock::CineStill800T => "CineStill 800T"@,
            FilmStock::KodakVision3_500T => "Kodak Vision3 500T"@,
            FilmStock::KodakVision3_250D => "Kodak Vision3 250D"@,
            FilmStock::Fomapan400 => "Fomapan 400"@,
            FilmStock::Lomography800 => "Lomography 800"@,
            FilmStock::Polaroid600 => "Polaroid 600"@,
            FilmStock::Kodachrome64 => "Kodachrome 64"@,
        }
    }

    /// Display name of the stock.
    pub fn display_name(&self) -> (r: &'static str)
        ensures
            r@ == self.spec_display_name(),
    {
        match self {
            FilmStock::KodakPortra400 => "Kodak Portra 400",
            FilmStock::KodakPortra800 => "Kodak Portra 800",
            FilmStock::KodakEktar100 => "Kodak Ektar 100",
            FilmStock::KodakTriX400 => "Kodak Tri-X 400",
            FilmStock::KodakTMax3200 => "Kodak T-Max 3200",
            FilmStock::FujiVelvia50 => "Fuji Velvia 50",
            FilmStock::FujiPro400H => "Fuji Pro 400H",
            FilmStock::FujiSuperia400 => "Fuji Superia 400",
            FilmStock::IlfordHP5 => "Ilford HP5+",
            FilmStock::IlfordDelta3200 => "Ilford Delta 3200",
            FilmStock::CineStill800T => "CineStill 800T",
            FilmStock::KodakVision3_500T => "Kodak Vision3 500T",
            FilmStock::KodakVision3_250D => "Kodak Vision3 250D",
            FilmStock::Fomapan400 => "Fomapan 400",
            FilmStock::Lomography800 => "Lomography 800",
            FilmStock::Polaroid600 => "Polaroid 600",
            FilmStock::Kodachrome64 => "Kodachrome 64",
        }
    }

}

} // verus!
