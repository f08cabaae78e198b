use editors_engine::pipeline::preview_pipeline::{adapted_quality, effective_resolution, PreviewQuality};

#[test]
fn test_preview_effective_resolution() {
    let (w, h) = effective_resolution((1920, 1080), PreviewQuality::Quarter);
    assert_eq!(w, 480);
    assert_eq!(h, 270);
}

#[test]
fn effective_resolution_has_a_floor() {
    assert_eq!(effective_resolution((960, 540), PreviewQuality::Full), (960, 540));
    assert_eq!(effective_resolution((960, 540), PreviewQuality::Half), (480, 270));
    assert_eq!(effective_resolution((100, 60), PreviewQuality::Eighth), (16, 16));
    assert_eq!(effective_resolution((0, 0), PreviewQuality::Full), (16, 16));
}

#[test]
fn slow_frame_lowers_quality() {
    assert_eq!(adapted_quality(PreviewQuality::Half, true, false), PreviewQuality::Quarter);
    assert_eq!(adapted_quality(PreviewQuality::Eighth, true, false), PreviewQuality::Eighth);
    assert_eq!(adapted_quality(PreviewQuality::Full, true, false), PreviewQuality::Half);
}

#[test]
fn fast_frame_raises_quality() {
    assert_eq!(adapted_quality(PreviewQuality::Eighth, false, true), PreviewQuality::Quarter);
    assert_eq!(adapted_quality(PreviewQuality::Half, false, true), PreviewQuality::Full);
    assert_eq!(adapted_quality(PreviewQuality::Full, false, true), PreviewQuality::Full);
    assert_eq!(adapted_quality(PreviewQuality::Quarter, false, false), PreviewQuality::Quarter);
}

#[test]
fn preview_quality_default_is_half() {
    assert_eq!(PreviewQuality::default(), PreviewQuality::Half);
}
