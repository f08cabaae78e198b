use editors_engine::effects::{Effect, EffectParameter, EffectType, EffectsPipeline};
use editors_engine::float_bits::{f32_clamp_bits, f32_range_valid};

fn bits(x: f32) -> u32 {
    x.to_bits()
}

fn value(p: &EffectParameter) -> f32 {
    f32::from_bits(p.value_bits)
}

fn effect(id: &str, name: &str, effect_type: EffectType, enabled: bool, order: u32) -> Effect {
    Effect {
        id: id.into(),
        name: name.into(),
        effect_type,
        enabled,
        order,
        parameters: vec![],
    }
}

#[test]
fn test_effect_parameter_clamping() {
    let param = EffectParameter::new("test", "Test", bits(0.5), bits(0.0), bits(1.0), bits(0.01));
    assert_eq!(value(&param), 0.5);

    let mut param = param;
    param.set_value(bits(1.5));
    assert_eq!(value(&param), 1.0, "Should clamp to max");

    param.set_value(bits(-0.5));
    assert_eq!(value(&param), 0.0, "Should clamp to min");
}

#[test]
fn test_effect_toggle() {
    let mut effect = Effect::new("Brightness", EffectType::Filter, vec![]);
    assert!(effect.enabled);
    effect.toggle_enabled();
    assert!(!effect.enabled);
    effect.toggle_enabled();
    assert!(effect.enabled);
}

#[test]
fn test_pipeline_ordering() {
    let e1 = effect("1", "Brightness", EffectType::Filter, true, 2);
    let e2 = effect("2", "Contrast", EffectType::Filter, true, 1);
    let pipeline = EffectsPipeline::new(vec![e1, e2]);
    let enabled = pipeline.enabled_effects();
    assert_eq!(enabled[0].name, "Contrast");
    assert_eq!(enabled[1].name, "Brightness");
}

#[test]
fn clamp_bits_follow_f32_clamp() {
    let samples = [
        -2.0f32, -1.0, -0.5, -0.0, 0.0, 0.25, 1.0, 3.5, f32::INFINITY, f32::NEG_INFINITY, f32::NAN,
    ];
    let ranges = [(-1.0f32, 1.0f32), (0.0, 0.0), (-0.0, 0.0), (0.5, 3.0), (f32::NEG_INFINITY, 0.0)];
    for (lo, hi) in ranges {
        assert!(f32_range_valid(lo.to_bits(), hi.to_bits()));
        for x in samples {
            let got = f32::from_bits(f32_clamp_bits(x.to_bits(), lo.to_bits(), hi.to_bits()));
            let want = x.clamp(lo, hi);
            assert!(got.to_bits() == want.to_bits() || (got.is_nan() && want.is_nan()), "{} in [{}, {}]", x, lo, hi);
        }
    }
    assert!(!f32_range_valid(1.0f32.to_bits(), 0.0f32.to_bits()));
    assert!(!f32_range_valid(f32::NAN.to_bits(), 0.0f32.to_bits()));
}

#[test]
fn parameter_reset_and_default() {
    let mut p = EffectParameter::new("hue", "Hue Shift", bits(200.0), bits(-180.0), bits(180.0), bits(1.0));
    // The initial value is kept as given; later values are clamped.
    assert_eq!(value(&p), 200.0);
    assert_eq!(f32::from_bits(p.default_bits), 200.0);
    p.set_value(bits(-10.0));
    assert_eq!(value(&p), -10.0);
    p.set_value(bits(500.0));
    assert_eq!(value(&p), 180.0);
    p.reset();
    assert_eq!(value(&p), 200.0);
}

#[test]
fn effect_parameters_by_name() {
    let params = vec![
        EffectParameter::new("vignette", "Intensity", bits(0.5), bits(0.0), bits(1.0), bits(0.01)),
        EffectParameter::new("vignette_radius", "Radius", bits(0.5), bits(0.0), bits(1.0), bits(0.01)),
    ];
    let mut e = Effect::new("Vignette", EffectType::Filter, params);
    assert_eq!(e.id.len(), 36);
    assert_eq!(e.order, 0);
    assert!(e.set_parameter("vignette_radius", bits(2.0)).is_ok());
    assert_eq!(e.get_parameter("vignette_radius").map(f32::from_bits), Some(1.0));
    assert_eq!(e.get_parameter("vignette").map(f32::from_bits), Some(0.5));
    assert_eq!(e.get_parameter("missing"), None);
    assert_eq!(e.set_parameter("missing", bits(1.0)).unwrap_err(), "Parameter 'missing' not found");
}

#[test]
fn pipeline_is_stable_and_ordered() {
    let pipeline = EffectsPipeline::new(vec![
        effect("a", "A", EffectType::Filter, true, 3),
        effect("b", "B", EffectType::ChromaKey, false, 1),
        effect("c", "C", EffectType::Filter, true, 3),
        effect("d", "D", EffectType::TextOverlay, true, 0),
    ]);
    assert_eq!(pipeline.len(), 4);
    let names: Vec<&str> = pipeline.enabled_effects().iter().map(|e| e.name.as_str()).collect();
    assert_eq!(names, vec!["D", "A", "C"]);
    let filters: Vec<&str> = pipeline.effects_of_type(&EffectType::Filter).iter().map(|e| e.id.as_str()).collect();
    assert_eq!(filters, vec!["a", "c"]);
}

#[test]
fn pipeline_add_remove_clear() {
    let mut pipeline = EffectsPipeline::empty();
    assert!(pipeline.is_empty());
    pipeline.add_effect(effect("x", "X", EffectType::Filter, true, 5));
    pipeline.add_effect(effect("y", "Y", EffectType::Filter, true, 1));
    pipeline.add_effect(effect("z", "Z", EffectType::Filter, true, 5));
    let ids: Vec<&str> = pipeline.enabled_effects().iter().map(|e| e.id.as_str()).collect();
    assert_eq!(ids, vec!["y", "x", "z"]);
    let removed = pipeline.remove_effect("x").unwrap();
    assert_eq!(removed.name, "X");
    assert!(pipeline.remove_effect("x").is_none());
    assert_eq!(pipeline.len(), 2);
    pipeline.clear();
    assert!(pipeline.is_empty());
}
