use editors_engine::effects::color_match::{apply_match_lut, compute_match_lut, match_frames};
use editors_engine::effects::color_space::TransferFunction;
use editors_engine::effects::filters::{FilterPreset, FilterType};
use editors_engine::effects::gpu_filters::GpuFilterDispatcher;
use editors_engine::effects::grain::FilmStock;
use editors_engine::effects::markers::MarkerColor;

fn solid_frame(width: usize, height: usize, r: u8, g: u8, b: u8) -> Vec<u8> {
    let mut v = Vec::with_capacity(width * height * 4);
    for _ in 0..(width * height) {
        v.push(r);
        v.push(g);
        v.push(b);
        v.push(255);
    }
    v
}

#[test]
fn match_lut_identity_for_identical_frames() {
    let src = solid_frame(16, 16, 100, 150, 200);
    let lut = compute_match_lut(&src, &src, 16, 16);
    for ch in 0..3 {
        for i in 0..256 {
            let mapped = lut.lut[ch][i];
            assert!((mapped as i32 - i as i32).abs() <= 1,
                "channel {} index {} mapped to {}, expected ~{}", ch, i, mapped, i);
        }
    }
}

#[test]
fn match_frames_brightens_dark_to_bright() {
    let mut target = solid_frame(16, 16, 50, 50, 50);
    let reference = solid_frame(16, 16, 200, 200, 200);
    match_frames(&mut target, &reference, 16, 16);
    assert!(target[0] > 100, "expected brightened target, got {}", target[0]);
}

#[test]
fn match_lut_identity_exact_on_mixed_frame() {
    let mut frame = Vec::new();
    for k in 0..64u32 {
        frame.push((k * 4) as u8);
        frame.push((255 - k) as u8);
        frame.push((k % 7) as u8);
        frame.push(9);
    }
    let lut = compute_match_lut(&frame, &frame, 8, 8);
    for ch in 0..3 {
        for i in 0..256 {
            assert_eq!(lut.lut[ch][i] as usize, i);
        }
    }
}

#[test]
fn match_frames_maps_dark_to_reference_value() {
    let mut target = solid_frame(4, 4, 50, 60, 70);
    let reference = solid_frame(4, 4, 200, 10, 70);
    match_frames(&mut target, &reference, 4, 4);
    assert_eq!(&target[0..4], &[200, 10, 70, 255]);
}

#[test]
fn apply_match_lut_keeps_alpha_and_tail() {
    let src = solid_frame(2, 1, 10, 20, 30);
    let reference = solid_frame(2, 1, 40, 50, 60);
    let lut = compute_match_lut(&src, &reference, 2, 1);
    let mut px = vec![10u8, 20, 30, 77, 10, 20, 30, 88, 10, 20];
    apply_match_lut(&mut px, &lut);
    assert_eq!(px, vec![40, 50, 60, 77, 40, 50, 60, 88, 10, 20]);
}

#[test]
fn lut_sends_each_source_value_to_its_cdf_match() {
    let mut src = solid_frame(4, 2, 30, 30, 30);
    for i in 16..32 {
        src[i] = 220;
    }
    let reference = solid_frame(4, 2, 128, 128, 128);
    let lut = compute_match_lut(&src, &reference, 4, 2);
    for ch in 0..3 {
        assert_eq!(lut.lut[ch][30], 128);
        assert_eq!(lut.lut[ch][220], 128);
        assert!(lut.lut[ch][30] <= lut.lut[ch][220]);
        // values no source pixel has are kept
        assert_eq!(lut.lut[ch][31], 31);
        assert_eq!(lut.lut[ch][250], 250);
    }
}

#[test]
fn lut_takes_the_first_reference_value_reaching_the_source_cdf() {
    // Two source pixels at 50; reference pixels at 10 and 200. The source
    // CDF at 50 is 2, first reached by the reference at 200.
    let src = solid_frame(2, 1, 50, 50, 50);
    let reference = vec![10u8, 10, 10, 255, 200, 200, 200, 255];
    let lut = compute_match_lut(&src, &reference, 2, 1);
    for ch in 0..3 {
        assert_eq!(lut.lut[ch][50], 200);
    }
}

#[test]
fn test_is_hdr() {
    assert!(TransferFunction::PQ.is_hdr());
    assert!(TransferFunction::HLG.is_hdr());
    assert!(!TransferFunction::SRGB.is_hdr());
    assert!(!TransferFunction::Linear.is_hdr());
}

#[test]
fn test_display_names() {
    assert_eq!(TransferFunction::SRGB.display_name(), "sRGB");
    assert_eq!(TransferFunction::PQ.display_name(), "ST 2084 (PQ)");
}

#[test]
fn test_transfer_function_count() {
    assert_eq!(TransferFunction::all().len(), 13);
}

#[test]
fn test_is_gpu_accelerated() {
    assert!(GpuFilterDispatcher::is_gpu_accelerated("brightness"));
    assert!(GpuFilterDispatcher::is_gpu_accelerated("Blur"));
    assert!(GpuFilterDispatcher::is_gpu_accelerated("HUE_ROTATE"));
    assert!(GpuFilterDispatcher::is_gpu_accelerated("chroma_key"));
    assert!(!GpuFilterDispatcher::is_gpu_accelerated("unknown_effect"));
}

#[test]
fn test_gpu_accelerated_effects_count() {
    let effects = GpuFilterDispatcher::gpu_accelerated_effects();
    assert_eq!(effects.len(), 12);
}

#[test]
fn gpu_lookup_is_ascii_only_case_folding() {
    assert!(!GpuFilterDispatcher::is_gpu_accelerated("blurr"));
    assert!(!GpuFilterDispatcher::is_gpu_accelerated(""));
    assert!(GpuFilterDispatcher::is_gpu_accelerated("TeMpErAtUrE"));
}

#[test]
fn test_film_stock_names() {
    assert_eq!(FilmStock::KodakPortra400.display_name(), "Kodak Portra 400");
    assert_eq!(FilmStock::KodakTriX400.display_name(), "Kodak Tri-X 400");
}

#[test]
fn test_film_stock_count() {
    assert_eq!(FilmStock::all().len(), 17);
}

#[test]
fn test_marker_color_hex() {
    assert_eq!(MarkerColor::Red.hex(), "#FF4444");
}

#[test]
fn test_marker_colors_count() {
    assert_eq!(MarkerColor::all().len(), 8);
}

#[test]
fn filter_catalog_names() {
    let all = FilterType::all_filters();
    assert_eq!(all.len(), 11);
    assert_eq!(all[0].display_name(), "Brightness");
    assert_eq!(FilterType::Temperature.display_name(), "Temperature");
}

#[test]
fn filter_default_parameters_and_effect() {
    let p = FilterType::Vignette.default_parameters();
    assert_eq!(p.len(), 2);
    assert_eq!(p[1].name, "vignette_radius");
    assert_eq!(f32::from_bits(p[1].value_bits), 0.5);
    assert!(FilterType::Invert.default_parameters().is_empty());
    let e = FilterType::Hue.to_effect();
    assert_eq!(e.name, "Hue");
    assert_eq!(e.parameters[0].display_name, "Hue Shift");
    assert_eq!(f32::from_bits(e.parameters[0].min_bits), -180.0);
}

#[test]
fn built_in_filter_presets() {
    let presets = FilterPreset::built_in_presets();
    assert_eq!(presets.len(), 6);
    assert_eq!(presets[0].id, "cinematic");
    assert_eq!(presets[5].name, "Noir");
    assert_eq!(presets[1].filters, vec![FilterType::Sepia, FilterType::Contrast, FilterType::Brightness]);
    assert_eq!(presets[3].parameter_overrides[0].0, "temperature");
    assert_eq!(f32::from_bits(presets[3].parameter_overrides[0].1), -0.3);
}
