//! GPU filter dispatch: which effects have a GPU shader implementation,
//! and the shader and uniform values each effect is dispatched with.
//!
//! Most effects share the `brightness` shader and select their per-pixel
//! operation with a mode flag (the fourth uniform); the `blur` shader runs
//! a horizontal and a vertical pass; `chroma_key` has its own layout.
//! Uniform values are the bits of `f32` values.

use vstd::prelude::*;
use crate::effects::{lemma_first_where, parameter_position, parameters_view, EffectParameter, ParameterView};
use crate::float_bits::{f32_half, f32_half_bits, f32_is_nan};
use crate::text::{
    ascii_lower, ascii_lowercase, eq_ignore_ascii_case, equals_ignore_ascii_case, is_ascii_text, str_equals, to_lowercase,
    unicode_lowercase,
};

verus! {

/// GPU filter dispatcher: maps effect names to shaders.
pub struct GpuFilterDispatcher;

/// The names of the effects that have a GPU implementation, in catalog
/// order.
pub open spec fn gpu_effect_names() -> Seq<Seq<char>> {
    seq![
        "brightness"@, "contrast"@, "saturation"@, "grayscale"@, "blur"@, "sepia"@,
        "invert"@, "vignette"@, "sharpen"@, "hue_rotate"@, "temperature"@, "chroma_key"@,
    ]
}

/// A name that ASCII lowering leaves as it is matches a text up to ASCII
/// case exactly when it is that text lowered.
proof fn lemma_ignore_case_is_lowered(g: Seq<char>, n: Seq<char>)
    requires
        forall|i: int| 0 <= i < g.len() ==> #[trigger] ascii_lower(g[i]) == g[i],
    ensures
        eq_ignore_ascii_case(g, n) <==> ascii_lowercase(n) == g,
{
    if eq_ignore_ascii_case(g, n) {
        assert forall|i: int| 0 <= i < g.len() implies #[trigger] ascii_lowercase(n)[i] == g[i] by {
            assert(ascii_lower(g[i]) == ascii_lower(n[i]));
        }
        assert(ascii_lowercase(n) =~= g);
    }
    if ascii_lowercase(n) == g {
        assert forall|i: int| 0 <= i < g.len() implies #[trigger] ascii_lower(g[i]) == ascii_lower(n[i]) by {
            assert(ascii_lowercase(n)[i] == ascii_lower(n[i]));
        }
    }
}

/// Whether an effect is GPU accelerated agrees with whether it gets a
/// descriptor: a name matches a GPU effect name up to ASCII case exactly
/// when its ASCII lowering has a descriptor (for ASCII names, that is what
/// `create_descriptor` returns).
pub proof fn lemma_gpu_lookup_agrees(name: Seq<char>, ps: Seq<ParameterView>)
    ensures
        (exists|i: int| 0 <= i < gpu_effect_names().len() && #[trigger] eq_ignore_ascii_case(gpu_effect_names()[i], name))
            <==> descriptor_for(ascii_lowercase(name), ps) is Some,
{
    let names = gpu_effect_names();
    reveal_strlit("brightness");
    reveal_strlit("contrast");
    reveal_strlit("saturation");
    reveal_strlit("grayscale");
    reveal_strlit("blur");
    reveal_strlit("sepia");
    reveal_strlit("invert");
    reveal_strlit("vignette");
    reveal_strlit("sharpen");
    reveal_strlit("hue_rotate");
    reveal_strlit("temperature");
    reveal_strlit("chroma_key");
    assert forall|i: int| 0 <= i < names.len() implies
        (#[trigger] eq_ignore_ascii_case(names[i], name) <==> ascii_lowercase(name) == names[i]) by {
        let g = names[i];
        assert forall|k: int| 0 <= k < g.len() implies #[trigger] ascii_lower(g[k]) == g[k] by {
            assert(g[k] == '_' || ('a' <= g[k] && g[k] <= 'z'));
        }
        lemma_ignore_case_is_lowered(g, name);
    }
    let l = ascii_lowercase(name);
    if descriptor_for(l, ps) is Some {
        if l == "brightness"@ { assert(eq_ignore_ascii_case(names[0], name)); }
        else if l == "contrast"@ { assert(eq_ignore_ascii_case(names[1], name)); }
        else if l == "saturation"@ { assert(eq_ignore_ascii_case(names[2], name)); }
        else if l == "grayscale"@ { assert(eq_ignore_ascii_case(names[3], name)); }
        else if l == "blur"@ { assert(eq_ignore_ascii_case(names[4], name)); }
        else if l == "sepia"@ { assert(eq_ignore_ascii_case(names[5], name)); }
        else if l == "invert"@ { assert(eq_ignore_ascii_case(names[6], name)); }
        else if l == "vignette"@ { assert(eq_ignore_ascii_case(names[7], name)); }
        else if l == "sharpen"@ { assert(eq_ignore_ascii_case(names[8], name)); }
        else if l == "hue_rotate"@ { assert(eq_ignore_ascii_case(names[9], name)); }
        else if l == "temperature"@ { assert(eq_ignore_ascii_case(names[10], name)); }
        else { assert(eq_ignore_ascii_case(names[11], name)); }
    }
}

/// A GPU filter descriptor: a shader name and its uniform values (the bits
/// of `f32` values, packed for upload).
#[derive(Debug, Clone)]
pub struct GpuFilterDescriptor {
    /// The WGSL shader name (must match a loaded shader module).
    pub shader_name: String,
    /// Uniform values, as the bits of `f32` values.
    pub params: Vec<u32>,
}

impl GpuFilterDescriptor {
    /// Creates a descriptor referencing the given shader.
    pub fn new(shader_name: &str, params: Vec<u32>) -> (r: Self)
        ensures
            r.shader_name@ == shader_name@,
            r.params@ == params@,
    {
        GpuFilterDescriptor { shader_name: String::from_str(shader_name), params }
    }
}

/// The `f32` 1.0.
pub const F32_ONE: u32 = 0x3F80_0000;

/// Mode flag of the brightness operation (the `f32` 0.0).
pub const MODE_BRIGHTNESS: u32 = 0;
/// Mode flag of the contrast operation (the `f32` 0.0).
pub const MODE_CONTRAST: u32 = 0;
/// Mode flag of the saturation operation (the `f32` 0.0).
pub const MODE_SATURATION: u32 = 0;
/// Mode flag of grayscale (the `f32` 1.0).
pub const MODE_GRAYSCALE: u32 = 0x3F80_0000;
/// Mode flag of sepia (the `f32` 2.0).
pub const MODE_SEPIA: u32 = 0x4000_0000;
/// Mode flag of invert (the `f32` 3.0).
pub const MODE_INVERT: u32 = 0x4040_0000;
/// Mode flag of hue rotation (the `f32` 4.0).
pub const MODE_HUE_ROTATE: u32 = 0x4080_0000;
/// Mode flag of the temperature shift (the `f32` 5.0).
pub const MODE_TEMPERATURE: u32 = 0x40A0_0000;
/// Mode flag of the vignette (the `f32` 6.0).
pub const MODE_VIGNETTE: u32 = 0x40C0_0000;
/// Mode flag of sharpening (the `f32` 7.0).
pub const MODE_SHARPEN: u32 = 0x40E0_0000;

/// The default blur radius (the `f32` 5.0).
pub const DEFAULT_BLUR_RADIUS: u32 = 0x40A0_0000;
/// The default key hue, green (the `f32` 120.0).
pub const DEFAULT_KEY_HUE: u32 = 0x42F0_0000;
/// The default hue tolerance (the `f32` 30.0).
pub const DEFAULT_HUE_TOLERANCE: u32 = 0x41F0_0000;
/// The default saturation tolerance (the `f32` 0.4).
pub const DEFAULT_SATURATION_TOLERANCE: u32 = 0x3ECC_CCCD;
/// The default edge softness (the `f32` 0.15).
pub const DEFAULT_SOFTNESS: u32 = 0x3E19_999A;
/// The default vignette intensity and spill suppression (the `f32` 0.5).
pub const F32_HALF_VALUE: u32 = 0x3F00_0000;

/// The value of the parameter named `name`; failing that, of the first
/// parameter (many effects have a single parameter); none when there are
/// no parameters.
pub open spec fn parameter_value(ps: Seq<ParameterView>, name: Seq<char>) -> Option<u32> {
    let i = parameter_position(ps, name);
    if i < ps.len() {
        Some(ps[i].value_bits)
    } else if ps.len() > 0 {
        Some(ps[0].value_bits)
    } else {
        None
    }
}

/// The value, or `default` when there is none.
pub open spec fn value_or(v: Option<u32>, default: u32) -> u32 {
    match v {
        Some(x) => x,
        None => default,
    }
}

/// A descriptor of the brightness shader with four uniforms.
pub open spec fn brightness_desc(a: u32, b: u32, c: u32, mode: u32) -> Option<(Seq<char>, Seq<u32>)> {
    Some(("brightness"@, seq![a, b, c, mode]))
}

/// The shader and uniforms for an effect given its lowercase name and its
/// parameters; none for an effect without GPU implementation.
pub open spec fn descriptor_for(name: Seq<char>, ps: Seq<ParameterView>) -> Option<(Seq<char>, Seq<u32>)> {
    if name == "brightness"@ {
        brightness_desc(value_or(parameter_value(ps, "value"@), 0), 0, F32_ONE, MODE_BRIGHTNESS)
    } else if name == "contrast"@ {
        brightness_desc(0, value_or(parameter_value(ps, "value"@), 0), F32_ONE, MODE_CONTRAST)
    } else if name == "saturation"@ {
        brightness_desc(0, 0, value_or(parameter_value(ps, "value"@), F32_ONE), MODE_SATURATION)
    } else if name == "grayscale"@ {
        brightness_desc(0, 0, 0, MODE_GRAYSCALE)
    } else if name == "blur"@ {
        let radius = value_or(parameter_value(ps, "radius"@), DEFAULT_BLUR_RADIUS);
        let sigma = value_or(parameter_value(ps, "sigma"@), f32_half(radius));
        Some(("blur"@, seq![radius, sigma, 0, 0]))
    } else if name == "sepia"@ {
        brightness_desc(0, 0, value_or(parameter_value(ps, "intensity"@), F32_ONE), MODE_SEPIA)
    } else if name == "invert"@ {
        brightness_desc(0, 0, 0, MODE_INVERT)
    } else if name == "vignette"@ {
        brightness_desc(value_or(parameter_value(ps, "intensity"@), F32_HALF_VALUE), 0, 0, MODE_VIGNETTE)
    } else if name == "sharpen"@ {
        brightness_desc(value_or(parameter_value(ps, "strength"@), F32_ONE), 0, 0, MODE_SHARPEN)
    } else if name == "hue_rotate"@ {
        brightness_desc(value_or(parameter_value(ps, "angle"@), 0), 0, 0, MODE_HUE_ROTATE)
    } else if name == "temperature"@ {
        brightness_desc(value_or(parameter_value(ps, "shift"@), 0), 0, 0, MODE_TEMPERATURE)
    } else if name == "chroma_key"@ {
        Some(("chroma_key"@, seq![
            value_or(parameter_value(ps, "target_hue"@), DEFAULT_KEY_HUE),
            value_or(parameter_value(ps, "hue_tolerance"@), DEFAULT_HUE_TOLERANCE),
            value_or(parameter_value(ps, "saturation_tolerance"@), DEFAULT_SATURATION_TOLERANCE),
            value_or(parameter_value(ps, "softness"@), DEFAULT_SOFTNESS),
            value_or(parameter_value(ps, "spill_suppression"@), F32_HALF_VALUE),
        ]))
    } else {
        None
    }
}

/// The value of the parameter named `name`, else of the first parameter.
pub fn param_value(params: &[EffectParameter], name: &str) -> (r: Option<u32>)
    ensures
        r == parameter_value(parameters_view(params@), name@),
{
    let ghost ps = parameters_view(params@);
    let ghost p = |i: int| ps[i].name == name@;
    let mut i: usize = 0;
    while i < params.len()
        invariant
            ps == parameters_view(params@),
            p == (|i: int| ps[i].name == name@),
            i <= params@.len(),
            forall|j: int| 0 <= j < i ==> !#[trigger] p(j),
        decreases params@.len() - i,
    {
        if str_equals(params[i].name.as_str(), name) {
            proof { lemma_first_where(ps.len() as int, p, i as int); }
            return Some(params[i].value_bits);
        }
        i = i + 1;
    }
    proof { lemma_first_where(ps.len() as int, p, i as int); }
    if params.len() > 0 {
        Some(params[0].value_bits)
    } else {
        None
    }
}

/// The value, or `default` when there is none, computed.
fn or_default(v: Option<u32>, default: u32) -> (r: u32)
    ensures
        r == value_or(v, default),
{
    match v {
        Some(x) => x,
        None => default,
    }
}

/// A brightness-shader descriptor.
fn brightness(a: u32, b: u32, c: u32, mode: u32) -> (r: Option<GpuFilterDescriptor>)
    ensures
        r matches Some(d) && brightness_desc(a, b, c, mode) == Some((d.shader_name@, d.params@)),
{
    let params = vec![a, b, c, mode];
    assert(params@ =~= seq![a, b, c, mode]);
    Some(GpuFilterDescriptor::new("brightness", params))
}

impl GpuFilterDispatcher {
    /// Lists all GPU-accelerated effect names.
    pub fn gpu_accelerated_effects() -> (r: &'static [&'static str])
        ensures
            r@.len() == gpu_effect_names().len(),
            forall|i: int| 0 <= i < r@.len() ==> #[trigger] r@[i]@ == gpu_effect_names()[i],
    {
        let r: &'static [&'static str] = &[
            "brightness", "contrast", "saturation", "grayscale", "blur", "sepia",
            "invert", "vignette", "sharpen", "hue_rotate", "temperature", "chroma_key",
        ];
        r
    }

    /// Whether an effect has GPU acceleration: its name matches one of the
    /// GPU effect names, ignoring ASCII case.
    pub fn is_gpu_accelerated(effect_name: &str) -> (r: bool)
        ensures
            r == exists|i: int| 0 <= i < gpu_effect_names().len() && #[trigger] eq_ignore_ascii_case(gpu_effect_names()[i], effect_name@),
    {
        let names = Self::gpu_accelerated_effects();
        let mut i: usize = 0;
        while i < names.len()
            invariant
                names@.len() == gpu_effect_names().len(),
                forall|k: int| 0 <= k < names@.len() ==> #[trigger] names@[k]@ == gpu_effect_names()[k],
                i <= names@.len(),
                forall|k: int| 0 <= k < i ==> !#[trigger] eq_ignore_ascii_case(gpu_effect_names()[k], effect_name@),
            decreases names@.len() - i,
        {
            if equals_ignore_ascii_case(names[i], effect_name) {
                assert(eq_ignore_ascii_case(gpu_effect_names()[i as int], effect_name@));
                return true;
            }
            i = i + 1;
        }
        false
    }
    /// The descriptor for the effect of the given name (any case) and
    /// parameters; `None` when the effect has no GPU implementation. A
    /// missing parameter falls back to the effect's first parameter, then
    /// to the default.
    pub fn create_descriptor(effect_name: &str, params: &[EffectParameter]) -> (r: Option<GpuFilterDescriptor>)
        ensures
            match descriptor_for(unicode_lowercase(effect_name@), parameters_view(params@)) {
                Some((shader, values)) => r matches Some(d) && d.shader_name@ == shader && d.params@ == values,
                None => r is None,
            },
            is_ascii_text(effect_name@) ==> match descriptor_for(ascii_lowercase(effect_name@), parameters_view(params@)) {
                Some((shader, values)) => r matches Some(d) && d.shader_name@ == shader && d.params@ == values,
                None => r is None,
            },
    {
        let lower = to_lowercase(effect_name);
        let name = lower.as_str();
        if str_equals(name, "brightness") {
            brightness(or_default(param_value(params, "value"), 0), 0, F32_ONE, MODE_BRIGHTNESS)
        } else if str_equals(name, "contrast") {
            brightness(0, or_default(param_value(params, "value"), 0), F32_ONE, MODE_CONTRAST)
        } else if str_equals(name, "saturation") {
            brightness(0, 0, or_default(param_value(params, "value"), F32_ONE), MODE_SATURATION)
        } else if str_equals(name, "grayscale") {
            brightness(0, 0, 0, MODE_GRAYSCALE)
        } else if str_equals(name, "blur") {
            let radius = or_default(param_value(params, "radius"), DEFAULT_BLUR_RADIUS);
            let sigma = match param_value(params, "sigma") {
                Some(s) => s,
                None => {
                    assert(!f32_is_nan(radius));
                    f32_half_bits(radius)
                },
            };
            let values = vec![radius, sigma, 0, 0];
            assert(values@ =~= seq![radius, sigma, 0u32, 0u32]);
            Some(GpuFilterDescriptor::new("blur", values))
        } else if str_equals(name, "sepia") {
            brightness(0, 0, or_default(param_value(params, "intensity"), F32_ONE), MODE_SEPIA)
        } else if str_equals(name, "invert") {
            brightness(0, 0, 0, MODE_INVERT)
        } else if str_equals(name, "vignette") {
            brightness(or_default(param_value(params, "intensity"), F32_HALF_VALUE), 0, 0, MODE_VIGNETTE)
        } else if str_equals(name, "sharpen") {
            brightness(or_default(param_value(params, "strength"), F32_ONE), 0, 0, MODE_SHARPEN)
        } else if str_equals(name, "hue_rotate") {
            brightness(or_default(param_value(params, "angle"), 0), 0, 0, MODE_HUE_ROTATE)
        } else if str_equals(name, "temperature") {
            brightness(or_default(param_value(params, "shift"), 0), 0, 0, MODE_TEMPERATURE)
        } else if str_equals(name, "chroma_key") {
            let target_hue = or_default(param_value(params, "target_hue"), DEFAULT_KEY_HUE);
            let hue_tolerance = or_default(param_value(params, "hue_tolerance"), DEFAULT_HUE_TOLERANCE);
            let saturation_tolerance = or_default(
                param_value(params, "saturation_tolerance"),
                DEFAULT_SATURATION_TOLERANCE,
            );
            let softness = or_default(param_value(params, "softness"), DEFAULT_SOFTNESS);
            let spill_suppression = or_default(param_value(params, "spill_suppression"), F32_HALF_VALUE);
            let values = vec![target_hue, hue_tolerance, saturation_tolerance, softness, spill_suppression];
            assert(values@ =~= seq![target_hue, hue_tolerance, saturation_tolerance, softness, spill_suppression]);
            Some(GpuFilterDescriptor::new("chroma_key", values))
        } else {
            None
        }
    }

    /// The vertical pass of the two-pass blur, dispatched after the
    /// horizontal one.
    pub fn create_blur_vertical_descriptor(radius: u32, sigma: u32) -> (r: GpuFilterDescriptor)
        ensures
            r.shader_name@ == "blur"@,
            r.params@ == seq![radius, sigma, F32_ONE, 0u32],
    {
        let values = vec![radius, sigma, F32_ONE, 0];
        assert(values@ =~= seq![radius, sigma, F32_ONE, 0u32]);
        GpuFilterDescriptor::new("blur", values)
    }
}

} // verus!
