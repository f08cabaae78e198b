//! Filter catalog: the built-in colour adjustments and visual filters,
//! their default parameters, and the built-in filter presets.

use vstd::prelude::*;
use crate::effects::{parameters_view, Effect, EffectParameter, EffectType, ParameterView};
use crate::project::is_uuid_v4_text;

verus! {

/// Built-in filter types.
#[derive(Debug, Clone, Copy, PartialEq, Eq, Structural)]
pub enum FilterType {
    Brightness,
    Contrast,
    Saturation,
    Hue,
    Blur,
    Sharpen,
    Grayscale,
    Sepia,
    Invert,
    Vignette,
    Temperature,
}

impl FilterType {
    /// The display name of each variant.
    pub open spec fn spec_display_name(self) -> Seq<char> {
        match self {
            FilterType::Brightness => "Brightness"@,
            FilterType::Contrast => "Contrast"@,
            FilterType::Saturation => "Saturation"@,
            FilterType::Hue => "Hue"@,
            FilterType::Blur => "Blur"@,
            FilterType::Sharpen => "Sharpen"@,
            FilterType::Grayscale => "Grayscale"@,
            FilterType::Sepia => "Sepia"@,
            FilterType::Invert => "Invert"@,
            FilterType::Vignette => "Vignette"@,
            FilterType::Temperature => "Temperature"@,
        }
    }

    /// Gets the display name for this filter.
    pub fn display_name(&self) -> (r: &str)
        ensures
            r@ == self.spec_display_name(),
    {
        match self {
            FilterType::Brightness => "Brightness",
            FilterType::Contrast => "Contrast",
            FilterType::Saturation => "Saturation",
            FilterType::Hue => "Hue",
            FilterType::Blur => "Blur",
            FilterType::Sharpen => "Sharpen",
            FilterType::Grayscale => "Grayscale",
            FilterType::Sepia => "Sepia",
            FilterType::Invert => "Invert",
            FilterType::Vignette => "Vignette",
            FilterType::Temperature => "Temperature",
        }
    }

    /// Every variant, in catalog order.
    pub open spec fn catalog() -> Seq<FilterType> {
        seq![FilterType::Brightness, FilterType::Contrast, FilterType::Saturation, FilterType::Hue, FilterType::Blur, FilterType::Sharpen, FilterType::Grayscale, FilterType::Sepia, FilterType::Invert, FilterType::Vignette, FilterType::Temperature]
    }

    /// Gets all available filter types.
    pub fn all_filters() -> (r: Vec<FilterType>)
        ensures
            r@ == Self::catalog(),
    {
        let r: Vec<FilterType> = vec![FilterType::Brightness, FilterType::Contrast, FilterType::Saturation, FilterType::Hue, FilterType::Blur, FilterType::Sharpen, FilterType::Grayscale, FilterType::Sepia, FilterType::Invert, FilterType::Vignette, FilterType::Temperature];
        assert(r@ =~= Self::catalog());
        r
    }

}

/// A parameter as a filter's default parameters hold it: the value is also
/// the default.
pub open spec fn default_param(name: Seq<char>, display_name: Seq<char>, value: u32, min: u32, max: u32, step: u32) -> ParameterView {
    ParameterView { name, display_name, value_bits: value, min_bits: min, max_bits: max, default_bits: value, step_bits: step }
}

impl FilterType {
    /// The default parameters of each filter (values are `f32` bits).
    pub open spec fn spec_default_parameters(self) -> Seq<ParameterView> {
        match self {
            FilterType::Brightness => seq![default_param("brightness"@, "Brightness"@, 0x00000000, 0xBF800000, 0x3F800000, 0x3C23D70A)],
            FilterType::Contrast => seq![default_param("contrast"@, "Contrast"@, 0x00000000, 0xBF800000, 0x3F800000, 0x3C23D70A)],
            FilterType::Saturation => seq![default_param("saturation"@, "Saturation"@, 0x3F800000, 0x00000000, 0x40400000, 0x3C23D70A)],
            FilterType::Hue => seq![default_param("hue"@, "Hue Shift"@, 0x00000000, 0xC3340000, 0x43340000, 0x3F800000)],
            FilterType::Blur => seq![default_param("blur"@, "Blur Radius"@, 0x00000000, 0x00000000, 0x41A00000, 0x3F000000)],
            FilterType::Sharpen => seq![default_param("sharpen"@, "Sharpness"@, 0x00000000, 0x00000000, 0x40000000, 0x3D4CCCCD)],
            FilterType::Grayscale => seq![default_param("grayscale"@, "Intensity"@, 0x3F800000, 0x00000000, 0x3F800000, 0x3C23D70A)],
            FilterType::Sepia => seq![default_param("sepia"@, "Intensity"@, 0x3F800000, 0x00000000, 0x3F800000, 0x3C23D70A)],
            FilterType::Invert => seq![],
            FilterType::Vignette => seq![default_param("vignette"@, "Intensity"@, 0x3F000000, 0x00000000, 0x3F800000, 0x3C23D70A), default_param("vignette_radius"@, "Radius"@, 0x3F000000, 0x00000000, 0x3F800000, 0x3C23D70A)],
            FilterType::Temperature => seq![default_param("temperature"@, "Temperature"@, 0x00000000, 0xBF800000, 0x3F800000, 0x3C23D70A)],
        }
    }

    /// The default parameters of the filter: its value, range and step,
    /// the value also being the default.
    pub fn default_parameters(&self) -> (r: Vec<EffectParameter>)
        ensures
            parameters_view(r@) == self.spec_default_parameters(),
    {
        let r: Vec<EffectParameter> = match self {
            FilterType::Brightness => vec![EffectParameter::new("brightness", "Brightness", 0x00000000, 0xBF800000, 0x3F800000, 0x3C23D70A)],
            FilterType::Contrast => vec![EffectParameter::new("contrast", "Contrast", 0x00000000, 0xBF800000, 0x3F800000, 0x3C23D70A)],
            FilterType::Saturation => vec![EffectParameter::new("saturation", "Saturation", 0x3F800000, 0x00000000, 0x40400000, 0x3C23D70A)],
            FilterType::Hue => vec![EffectParameter::new("hue", "Hue Shift", 0x00000000, 0xC3340000, 0x43340000, 0x3F800000)],
            FilterType::Blur => vec![EffectParameter::new("blur", "Blur Radius", 0x00000000, 0x00000000, 0x41A00000, 0x3F000000)],
            FilterType::Sharpen => vec![EffectParameter::new("sharpen", "Sharpness", 0x00000000, 0x00000000, 0x40000000, 0x3D4CCCCD)],
            FilterType::Grayscale => vec![EffectParameter::new("grayscale", "Intensity", 0x3F800000, 0x00000000, 0x3F800000, 0x3C23D70A)],
            FilterType::Sepia => vec![EffectParameter::new("sepia", "Intensity", 0x3F800000, 0x00000000, 0x3F800000, 0x3C23D70A)],
            FilterType::Invert => vec![],
            FilterType::Vignette => vec![EffectParameter::new("vignette", "Intensity", 0x3F000000, 0x00000000, 0x3F800000, 0x3C23D70A), EffectParameter::new("vignette_radius", "Radius", 0x3F000000, 0x00000000, 0x3F800000, 0x3C23D70A)],
            FilterType::Temperature => vec![EffectParameter::new("temperature", "Temperature", 0x00000000, 0xBF800000, 0x3F800000, 0x3C23D70A)],
        };
        assert(parameters_view(r@) =~= self.spec_default_parameters());
        r
    }

    /// An enabled filter effect named after the filter, with a fresh random
    /// id, at order 0, with the filter's default parameters.
    pub fn to_effect(&self) -> (r: Effect)
        ensures
            is_uuid_v4_text(r.id@),
            r.name@ == self.spec_display_name(),
            r.effect_type == EffectType::Filter,
            r.enabled,
            r.order == 0,
            parameters_view(r.parameters@) == self.spec_default_parameters(),
    {
        Effect::new(self.display_name(), EffectType::Filter, self.default_parameters())
    }
}

/// A preset combination of filters with parameter overrides (the override
/// values are `f32` bits).
#[derive(Debug, Clone)]
pub struct FilterPreset {
    pub id: String,
    pub name: String,
    pub description: String,
    pub filters: Vec<FilterType>,
    pub parameter_overrides: Vec<(String, u32)>,
}

/// A filter preset as the contracts see it.
pub struct FilterPresetView {
    pub id: Seq<char>,
    pub name: Seq<char>,
    pub description: Seq<char>,
    pub filters: Seq<FilterType>,
    pub overrides: Seq<(Seq<char>, u32)>,
}

/// The views of a list of overrides.
pub open spec fn overrides_view(o: Seq<(String, u32)>) -> Seq<(Seq<char>, u32)> {
    Seq::new(o.len(), |i: int| (o[i].0@, o[i].1))
}

impl FilterPreset {
    /// The preset as the contracts see it.
    pub open spec fn view_of(self) -> FilterPresetView {
        FilterPresetView {
            id: self.id@,
            name: self.name@,
            description: self.description@,
            filters: self.filters@,
            overrides: overrides_view(self.parameter_overrides@),
        }
    }

    /// The built-in presets, in catalog order.
    pub open spec fn spec_built_in_presets() -> Seq<FilterPresetView> {
        seq![
            FilterPresetView { id: "cinematic"@, name: "Cinematic"@, description: "Warm cinematic look with reduced saturation"@, filters: seq![FilterType::Saturation, FilterType::Contrast], overrides: seq![("saturation"@, 0x3F4CCCCD), ("contrast"@, 0x3E19999A)] },
            FilterPresetView { id: "vintage"@, name: "Vintage"@, description: "Faded vintage look with sepia tones"@, filters: seq![FilterType::Sepia, FilterType::Contrast, FilterType::Brightness], overrides: seq![("sepia"@, 0x3F19999A), ("contrast"@, 0xBDCCCCCD), ("brightness"@, 0x3D4CCCCD)] },
            FilterPresetView { id: "dramatic"@, name: "Dramatic"@, description: "High contrast dramatic look"@, filters: seq![FilterType::Contrast, FilterType::Saturation, FilterType::Vignette], overrides: seq![("contrast"@, 0x3ECCCCCD), ("saturation"@, 0x3FA66666), ("vignette"@, 0x3F19999A)] },
            FilterPresetView { id: "cool"@, name: "Cool"@, description: "Cool blue tones"@, filters: seq![FilterType::Temperature, FilterType::Contrast], overrides: seq![("temperature"@, 0xBE99999A), ("contrast"@, 0x3DCCCCCD)] },
            FilterPresetView { id: "warm"@, name: "Warm"@, description: "Warm golden tones"@, filters: seq![FilterType::Temperature, FilterType::Saturation], overrides: seq![("temperature"@, 0x3E99999A), ("saturation"@, 0x3F99999A)] },
            FilterPresetView { id: "noir"@, name: "Noir"@, description: "Classic black and white with high contrast"@, filters: seq![FilterType::Grayscale, FilterType::Contrast, FilterType::Vignette], overrides: seq![("grayscale"@, 0x3F800000), ("contrast"@, 0x3E99999A), ("vignette"@, 0x3ECCCCCD)] },
        ]
    }

    fn preset(id: &str, name: &str, description: &str, filters: Vec<FilterType>, overrides: Vec<(String, u32)>) -> (r: Self)
        ensures
            r.view_of() == (FilterPresetView {
                id: id@,
                name: name@,
                description: description@,
                filters: filters@,
                overrides: overrides_view(overrides@),
            }),
    {
        FilterPreset {
            id: String::from_str(id),
            name: String::from_str(name),
            description: String::from_str(description),
            filters,
            parameter_overrides: overrides,
        }
    }

    /// The built-in filter presets.
    pub fn built_in_presets() -> (r: Vec<FilterPreset>)
        ensures
            r@.len() == Self::spec_built_in_presets().len(),
            forall|i: int| 0 <= i < r@.len() ==> #[trigger] r@[i].view_of() == Self::spec_built_in_presets()[i],
    {
        let mut r: Vec<FilterPreset> = Vec::new();
        let o: Vec<(String, u32)> = vec![(String::from_str("saturation"), 0x3F4CCCCD), (String::from_str("contrast"), 0x3E19999A)];
        assert(overrides_view(o@) =~= seq![("saturation"@, 0x3F4CCCCD), ("contrast"@, 0x3E19999A)]);
        let f: Vec<FilterType> = vec![FilterType::Saturation, FilterType::Contrast];
        assert(f@ =~= seq![FilterType::Saturation, FilterType::Contrast]);
        r.push(Self::preset("cinematic", "Cinematic", "Warm cinematic look with reduced saturation", f, o));
        let o: Vec<(String, u32)> = vec![(String::from_str("sepia"), 0x3F19999A), (String::from_str("contrast"), 0xBDCCCCCD), (String::from_str("brightness"), 0x3D4CCCCD)];
        assert(overrides_view(o@) =~= seq![("sepia"@, 0x3F19999A), ("contrast"@, 0xBDCCCCCD), ("brightness"@, 0x3D4CCCCD)]);
        let f: Vec<FilterType> = vec![FilterType::Sepia, FilterType::Contrast, FilterType::Brightness];
        assert(f@ =~= seq![FilterType::Sepia, FilterType::Contrast, FilterType::Brightness]);
        r.push(Self::preset("vintage", "Vintage", "Faded vintage look with sepia tones", f, o));
        let o: Vec<(String, u32)> = vec![(String::from_str("contrast"), 0x3ECCCCCD), (String::from_str("saturation"), 0x3FA66666), (String::from_str("vignette"), 0x3F19999A)];
        assert(overrides_view(o@) =~= seq![("contrast"@, 0x3ECCCCCD), ("saturation"@, 0x3FA66666), ("vignette"@, 0x3F19999A)]);
        let f: Vec<FilterType> = vec![FilterType::Contrast, FilterType::Saturation, FilterType::Vignette];
        assert(f@ =~= seq![FilterType::Contrast, FilterType::Saturation, FilterType::Vignette]);
        r.push(Self::preset("dramatic", "Dramatic", "High contrast dramatic look", f, o));
        let o: Vec<(String, u32)> = vec![(String::from_str("temperature"), 0xBE99999A), (String::from_str("contrast"), 0x3DCCCCCD)];
        assert(overrides_view(o@) =~= seq![("temperature"@, 0xBE99999A), ("contrast"@, 0x3DCCCCCD)]);
        let f: Vec<FilterType> = vec![FilterType::Temperature, FilterType::Contrast];
        assert(f@ =~= seq![FilterType::Temperature, FilterType::Contrast]);
        r.push(Self::preset("cool", "Cool", "Cool blue tones", f, o));
        let o: Vec<(String, u32)> = vec![(String::from_str("temperature"), 0x3E99999A), (String::from_str("saturation"), 0x3F99999A)];
        assert(overrides_view(o@) =~= seq![("temperature"@, 0x3E99999A), ("saturation"@, 0x3F99999A)]);
        let f: Vec<FilterType> = vec![FilterType::Temperature, FilterType::Saturation];
        assert(f@ =~= seq![FilterType::Temperature, FilterType::Saturation]);
        r.push(Self::preset("warm", "Warm", "Warm golden tones", f, o));
        let o: Vec<(String, u32)> = vec![(String::from_str("grayscale"), 0x3F800000), (String::from_str("contrast"), 0x3E99999A), (String::from_str("vignette"), 0x3ECCCCCD)];
        assert(overrides_view(o@) =~= seq![("grayscale"@, 0x3F800000), ("contrast"@, 0x3E99999A), ("vignette"@, 0x3ECCCCCD)]);
        let f: Vec<FilterType> = vec![FilterType::Grayscale, FilterType::Contrast, FilterType::Vignette];
        assert(f@ =~= seq![FilterType::Grayscale, FilterType::Contrast, FilterType::Vignette]);
        r.push(Self::preset("noir", "Noir", "Classic black and white with high contrast", f, o));
        r
    }
}

} // verus!
