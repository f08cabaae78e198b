use editors_engine::effects::gpu_filters::{param_value, GpuFilterDispatcher};
use editors_engine::effects::EffectParameter;
use editors_engine::float_bits::f32_half_bits;

fn make_param(name: &str, value: f32) -> EffectParameter {
    EffectParameter::new(name, name, value.to_bits(), (-10.0f32).to_bits(), 10.0f32.to_bits(), 0.01f32.to_bits())
}

fn floats(bits: &[u32]) -> Vec<f32> {
    bits.iter().map(|b| f32::from_bits(*b)).collect()
}

#[test]
fn test_brightness_descriptor() {
    let params = vec![make_param("value", 0.2)];
    let desc = GpuFilterDispatcher::create_descriptor("brightness", &params).unwrap();
    assert_eq!(desc.shader_name, "brightness");
    assert_eq!(floats(&desc.params), vec![0.2, 0.0, 1.0, 0.0]);
}

#[test]
fn test_contrast_descriptor() {
    let params = vec![make_param("value", 0.5)];
    let desc = GpuFilterDispatcher::create_descriptor("contrast", &params).unwrap();
    assert_eq!(desc.shader_name, "brightness");
    assert_eq!(floats(&desc.params), vec![0.0, 0.5, 1.0, 0.0]);
}

#[test]
fn test_saturation_descriptor() {
    let params = vec![make_param("value", 2.0)];
    let desc = GpuFilterDispatcher::create_descriptor("saturation", &params).unwrap();
    assert_eq!(desc.shader_name, "brightness");
    assert_eq!(floats(&desc.params), vec![0.0, 0.0, 2.0, 0.0]);
}

#[test]
fn test_grayscale_descriptor() {
    let desc = GpuFilterDispatcher::create_descriptor("grayscale", &[]).unwrap();
    assert_eq!(desc.shader_name, "brightness");
    assert_eq!(f32::from_bits(desc.params[3]), 1.0);
}

#[test]
fn test_sepia_descriptor() {
    let params = vec![make_param("intensity", 0.8)];
    let desc = GpuFilterDispatcher::create_descriptor("sepia", &params).unwrap();
    assert_eq!(desc.shader_name, "brightness");
    assert_eq!(f32::from_bits(desc.params[2]), 0.8);
    assert_eq!(f32::from_bits(desc.params[3]), 2.0);
}

#[test]
fn test_invert_descriptor() {
    let desc = GpuFilterDispatcher::create_descriptor("invert", &[]).unwrap();
    assert_eq!(desc.shader_name, "brightness");
    assert_eq!(f32::from_bits(desc.params[3]), 3.0);
}

#[test]
fn test_blur_descriptor() {
    let params = vec![make_param("radius", 4.0), make_param("sigma", 2.0)];
    let desc = GpuFilterDispatcher::create_descriptor("blur", &params).unwrap();
    assert_eq!(desc.shader_name, "blur");
    assert_eq!(f32::from_bits(desc.params[0]), 4.0);
    assert_eq!(f32::from_bits(desc.params[2]), 0.0);
}

#[test]
fn test_blur_vertical_descriptor() {
    let desc = GpuFilterDispatcher::create_blur_vertical_descriptor(5.0f32.to_bits(), 2.5f32.to_bits());
    assert_eq!(desc.shader_name, "blur");
    assert_eq!(f32::from_bits(desc.params[2]), 1.0);
}

#[test]
fn test_hue_rotate_descriptor() {
    let params = vec![make_param("angle", 0.5)];
    let desc = GpuFilterDispatcher::create_descriptor("hue_rotate", &params).unwrap();
    assert_eq!(desc.shader_name, "brightness");
    assert_eq!(f32::from_bits(desc.params[0]), 0.5);
    assert_eq!(f32::from_bits(desc.params[3]), 4.0);
}

#[test]
fn test_temperature_descriptor() {
    let params = vec![make_param("shift", 0.7)];
    let desc = GpuFilterDispatcher::create_descriptor("temperature", &params).unwrap();
    assert_eq!(desc.shader_name, "brightness");
    assert_eq!(f32::from_bits(desc.params[0]), 0.7);
    assert_eq!(f32::from_bits(desc.params[3]), 5.0);
}

#[test]
fn test_vignette_descriptor() {
    let params = vec![make_param("intensity", 0.6)];
    let desc = GpuFilterDispatcher::create_descriptor("vignette", &params).unwrap();
    assert_eq!(desc.shader_name, "brightness");
    assert_eq!(f32::from_bits(desc.params[0]), 0.6);
    assert_eq!(f32::from_bits(desc.params[3]), 6.0);
}

#[test]
fn test_sharpen_descriptor() {
    let params = vec![make_param("strength", 1.5)];
    let desc = GpuFilterDispatcher::create_descriptor("sharpen", &params).unwrap();
    assert_eq!(desc.shader_name, "brightness");
    assert_eq!(f32::from_bits(desc.params[0]), 1.5);
    assert_eq!(f32::from_bits(desc.params[3]), 7.0);
}

#[test]
fn test_unknown_effect_returns_none() {
    let desc = GpuFilterDispatcher::create_descriptor("unknown_effect", &[]);
    assert!(desc.is_none());
}

#[test]
fn test_chroma_key_descriptor() {
    let params = vec![
        make_param("target_hue", 120.0),
        make_param("hue_tolerance", 30.0),
        make_param("saturation_tolerance", 0.4),
        make_param("softness", 0.15),
        make_param("spill_suppression", 0.5),
    ];
    let desc = GpuFilterDispatcher::create_descriptor("chroma_key", &params).unwrap();
    assert_eq!(desc.shader_name, "chroma_key");
    assert_eq!(desc.params.len(), 5);
    assert_eq!(f32::from_bits(desc.params[0]), 120.0);
    assert_eq!(f32::from_bits(desc.params[1]), 30.0);
    assert_eq!(f32::from_bits(desc.params[2]), 0.4);
    assert_eq!(f32::from_bits(desc.params[3]), 0.15);
    assert_eq!(f32::from_bits(desc.params[4]), 0.5);
}

#[test]
fn test_chroma_key_descriptor_defaults() {
    let desc = GpuFilterDispatcher::create_descriptor("chroma_key", &[]).unwrap();
    assert_eq!(desc.shader_name, "chroma_key");
    assert_eq!(f32::from_bits(desc.params[0]), 120.0);
}

#[test]
fn test_case_insensitive_lookup() {
    let params = vec![make_param("value", 0.1)];
    assert!(GpuFilterDispatcher::create_descriptor("Brightness", &params).is_some());
    assert!(GpuFilterDispatcher::create_descriptor("BRIGHTNESS", &params).is_some());
    assert!(GpuFilterDispatcher::create_descriptor("brightness", &params).is_some());
}

#[test]
fn test_param_value_by_name() {
    let params = vec![make_param("radius", 5.0), make_param("sigma", 2.0)];
    assert_eq!(param_value(&params, "radius").map(f32::from_bits), Some(5.0));
    assert_eq!(param_value(&params, "sigma").map(f32::from_bits), Some(2.0));
}

#[test]
fn test_param_value_fallback_to_first() {
    let params = vec![make_param("value", 3.0)];
    assert_eq!(param_value(&params, "nonexistent").map(f32::from_bits), Some(3.0));
}

#[test]
fn test_param_value_empty() {
    let params: Vec<EffectParameter> = vec![];
    assert_eq!(param_value(&params, "anything"), None);
}

#[test]
fn blur_defaults_and_fallbacks() {
    let desc = GpuFilterDispatcher::create_descriptor("blur", &[]).unwrap();
    assert_eq!(floats(&desc.params), vec![5.0, 2.5, 0.0, 0.0]);
    // With a single unnamed parameter, both lookups fall back to it.
    let desc = GpuFilterDispatcher::create_descriptor("Blur", &[make_param("size", 3.0)]).unwrap();
    assert_eq!(floats(&desc.params), vec![3.0, 3.0, 0.0, 0.0]);
    let desc = GpuFilterDispatcher::create_descriptor("vignette", &[]).unwrap();
    assert_eq!(floats(&desc.params), vec![0.5, 0.0, 0.0, 6.0]);
}

#[test]
fn halving_follows_f32_division() {
    let samples = [
        0.0f32, -0.0, 1.0, -3.0, 5.0, 1e-45, 3e-45, -7e-45, f32::MIN_POSITIVE, 1.1754942e-38,
        f32::MAX, f32::INFINITY, f32::NEG_INFINITY,
    ];
    for x in samples {
        assert_eq!(f32_half_bits(x.to_bits()), (x / 2.0).to_bits(), "{:e}", x);
    }
    assert!(f32::from_bits(f32_half_bits(f32::NAN.to_bits())).is_nan());
}
