use editors_engine::project::keyframes::{EasingCurve, HandlePoint, InterpolationType};
use editors_engine::project::format::{checksum_text, compute_checksum, EppFormat};
use editors_engine::project::{MediaAsset, MediaType};

#[test]
fn checksum_of_check_string() {
    assert_eq!(compute_checksum(b"123456789"), "cbf43926");
    assert_eq!(compute_checksum(b""), "00000000");
    assert_eq!(checksum_text(0x1f), "0000001f");
}

#[test]
fn media_asset_from_path() {
    let a = MediaAsset::new("/videos/holiday.mp4", MediaType::Video, 1234);
    assert_eq!(a.file_name, "holiday.mp4");
    assert_eq!(a.file_size_bytes, 1234);
    assert!(a.is_video());
    assert!(!a.is_audio());
    assert!(!a.is_image());
    assert_eq!(a.id.len(), 36);
    assert_eq!(&a.id[14..15], "4");
    let b = MediaAsset::new("/", MediaType::Image, 0);
    assert_eq!(b.file_name, "unknown");
    assert!(b.is_image());
    assert_ne!(a.id, b.id);
}

#[test]
fn test_compute_checksum_empty() {
    let checksum = compute_checksum(b"");
    assert_eq!(checksum, "00000000", "Empty data CRC32 should be 00000000");
}

#[test]
fn test_compute_checksum_known_value() {
    let checksum = compute_checksum(b"123456789");
    assert_eq!(checksum, "cbf43926", "CRC32 of '123456789' should be cbf43926");
}

#[test]
fn test_compute_checksum_consistency() {
    let data = b"Hello, EDITORS-PRO!";
    let crc1 = compute_checksum(data);
    let crc2 = compute_checksum(data);
    assert_eq!(crc1, crc2, "CRC32 should be deterministic");
}

#[test]
fn test_compute_checksum_different_data() {
    let crc1 = compute_checksum(b"video");
    let crc2 = compute_checksum(b"audio");
    assert_ne!(crc1, crc2, "Different data should have different CRC32");
}

#[test]
fn test_compute_checksum_format() {
    let checksum = compute_checksum(b"test");
    assert_eq!(checksum.len(), 8, "Checksum should be 8 hex characters");
    assert!(checksum.chars().all(|c| c.is_ascii_hexdigit()), "Checksum should be lowercase hex");
}

#[test]
fn easing_curve_for_interpolation() {
    assert_eq!(EasingCurve::from_interpolation(InterpolationType::Linear), EasingCurve::Linear);
    assert_eq!(EasingCurve::from_interpolation(InterpolationType::Hold), EasingCurve::Linear);
    assert_eq!(EasingCurve::from_interpolation(InterpolationType::SmoothStep), EasingCurve::EaseInOutCubic);
    assert_eq!(EasingCurve::from_interpolation(InterpolationType::Bounce), EasingCurve::EaseInOutBounce);
    assert_eq!(
        EasingCurve::from_interpolation(InterpolationType::Bezier),
        EasingCurve::CustomBezier {
            p1: HandlePoint { x_bits: 0.33f32.to_bits(), y_bits: 0.0f32.to_bits() },
            p2: HandlePoint { x_bits: 0.66f32.to_bits(), y_bits: 1.0f32.to_bits() },
        }
    );
    assert_eq!(EasingCurve::default(), EasingCurve::Linear);
}

#[test]
fn epp_format_wraps_a_project_at_the_current_version() {
    let project = editors_engine::project::Project::new("Epp");
    let format = EppFormat::from_project(&project);
    assert_eq!(format.version, 1);
    assert_eq!(EppFormat::current_version(), 1);
    assert_eq!(format.metadata.created_with, "EDITORS-PRO Engine v0.1.0");
    assert!(format.metadata.checksum.is_none());
    assert!(format.metadata.modified_at.is_none());
    let back = format.to_project();
    assert_eq!(back.name, "Epp");
    assert_eq!(back.id, project.id);
}

#[test]
fn epp_migration_relabels_legacy_files_only() {
    let project = editors_engine::project::Project::new("Old");
    let mut legacy = EppFormat::from_project(&project);
    legacy.version = 0;
    let migrated = EppFormat::migrate(legacy).unwrap();
    assert_eq!(migrated.version, 1);
    assert_eq!(migrated.project.name, "Old");
    let mut future = EppFormat::from_project(&project);
    future.version = 7;
    assert_eq!(EppFormat::migrate(future).unwrap().version, 7);
    let current = EppFormat::from_project(&project);
    assert_eq!(EppFormat::migrate(current).unwrap().version, 1);
}
