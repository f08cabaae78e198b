use editors_engine::export_engine::encoder::{
    check_storage_space, convert_rgba_to_yuv420p, estimate_remaining, estimate_remaining_after,
};
use editors_engine::export_engine::hardware_encoder::{HardwareEncoderCapabilities, HardwareEncoderType};
use editors_engine::export_engine::{ExportResult, ExportStage, OutputFormat, VideoCodec};

fn solid(width: u32, height: u32, px: [u8; 4]) -> Vec<u8> {
    (0..width * height).flat_map(|_| px).collect()
}

#[test]
fn test_rgba_to_yuv420p_size() {
    let width = 64u32;
    let height = 64u32;
    let rgba = vec![128u8; (width * height * 4) as usize];
    let yuv = convert_rgba_to_yuv420p(&rgba, width, height).unwrap();
    let expected_size = (width * height * 3 / 2) as usize;
    assert_eq!(yuv.len(), expected_size, "YUV420P size should be W*H*3/2");
}

#[test]
fn test_rgba_to_yuv420p_black() {
    let width = 4u32;
    let height = 4u32;
    let rgba = solid(width, height, [0, 0, 0, 255]);
    let yuv = convert_rgba_to_yuv420p(&rgba, width, height).unwrap();
    let y_size = (width * height) as usize;
    assert_eq!(yuv[0], 16, "Y for black should be 16 (limited range)");
    assert_eq!(yuv[y_size], 128, "Cb for black should be 128");
}

#[test]
fn test_rgba_to_yuv420p_white() {
    let width = 4u32;
    let height = 4u32;
    let rgba = solid(width, height, [255, 255, 255, 255]);
    let yuv = convert_rgba_to_yuv420p(&rgba, width, height).unwrap();
    assert_eq!(yuv[0], 235, "Y for white should be 235 (limited range)");
}

#[test]
fn test_rgba_to_yuv420p_red_pixel() {
    let width = 4u32;
    let height = 4u32;
    let rgba = solid(width, height, [255, 0, 0, 255]);
    let yuv = convert_rgba_to_yuv420p(&rgba, width, height).unwrap();
    let y_size = (width * height) as usize;
    assert!(yuv[0] >= 80 && yuv[0] <= 84, "Y for red should be ~82, got {}", yuv[0]);
    assert!(yuv[y_size] >= 88 && yuv[y_size] <= 92, "Cb for red should be ~90, got {}", yuv[y_size]);
}

#[test]
fn test_rgba_to_yuv420p_green_pixel() {
    let width = 4u32;
    let height = 4u32;
    let rgba = solid(width, height, [0, 255, 0, 255]);
    let yuv = convert_rgba_to_yuv420p(&rgba, width, height).unwrap();
    assert!(yuv[0] >= 143 && yuv[0] <= 147, "Y for green should be ~145, got {}", yuv[0]);
}

#[test]
fn test_rgba_to_yuv420p_blue_pixel() {
    let width = 4u32;
    let height = 4u32;
    let rgba = solid(width, height, [0, 0, 255, 255]);
    let yuv = convert_rgba_to_yuv420p(&rgba, width, height).unwrap();
    assert!(yuv[0] >= 39 && yuv[0] <= 43, "Y for blue should be ~41, got {}", yuv[0]);
}

#[test]
fn test_rgba_to_yuv420p_dimensions_1080p() {
    let width = 1920u32;
    let height = 1080u32;
    let rgba = vec![128u8; (width * height * 4) as usize];
    let yuv = convert_rgba_to_yuv420p(&rgba, width, height).unwrap();
    let expected_size = (width * height * 3 / 2) as usize;
    assert_eq!(yuv.len(), expected_size);
}

#[test]
fn test_rgba_to_yuv420p_uneven_input_rejected() {
    let width = 1u32;
    let height = 1u32;
    let rgba = vec![128u8; 4];
    let result = convert_rgba_to_yuv420p(&rgba, width, height);
    assert!(result.is_ok());
}

#[test]
fn test_rgba_to_yuv420p_too_short_data() {
    let width = 4u32;
    let height = 4u32;
    let rgba = vec![0u8; 10];
    let result = convert_rgba_to_yuv420p(&rgba, width, height);
    assert!(result.is_err());
}

#[test]
fn yuv420p_exact_values_and_message() {
    let rgba = solid(2, 2, [255, 0, 0, 255]);
    let yuv = convert_rgba_to_yuv420p(&rgba, 2, 2).unwrap();
    assert_eq!(yuv, vec![81, 81, 81, 81, 90, 239]);
    let err = convert_rgba_to_yuv420p(&[0u8; 10], 4, 4).unwrap_err();
    assert_eq!(err, "RGBA data too short: expected 64 bytes, got 10");
}

#[test]
fn yuv420p_chroma_averages_blocks() {
    // 2x2 block: two white and two black pixels average to mid grey.
    let rgba = vec![255, 255, 255, 255, 0, 0, 0, 255, 0, 0, 0, 255, 255, 255, 255, 255];
    let yuv = convert_rgba_to_yuv420p(&rgba, 2, 2).unwrap();
    assert_eq!(&yuv[0..4], &[235, 16, 16, 235]);
    assert_eq!(yuv[4], 128);
    assert_eq!(yuv[5], 128);
}

#[test]
fn test_estimate_remaining() {
    let start = std::time::Instant::now() - std::time::Duration::from_secs(10);
    let remaining = estimate_remaining(100, 1000, start);
    assert!(remaining > 80 && remaining < 100, "Expected ~90s, got {}", remaining);
}

#[test]
fn test_estimate_remaining_zero_frames() {
    let start = std::time::Instant::now();
    assert_eq!(estimate_remaining(0, 1000, start), 0);
}

#[test]
fn estimate_remaining_after_exact() {
    assert_eq!(estimate_remaining_after(100, 1000, 10_000_000_000), 90);
    assert_eq!(estimate_remaining_after(3, 10, 1_000_000_000), 3);
    assert_eq!(estimate_remaining_after(10, 5, 1_000_000_000), 0);
    assert_eq!(estimate_remaining_after(5, 0, 1_000_000_000), 0);
}

#[test]
fn storage_check_needs_margin() {
    let mib = 1024 * 1024;
    assert!(check_storage_space(900 * mib, 700 * mib).is_ok());
    let err = check_storage_space(750 * mib, 700 * mib).unwrap_err();
    assert_eq!(err, "Insufficient storage: 750MB available, 800MB required");
}

#[test]
fn storage_check_needs_500_mib_free() {
    let mib = 1024 * 1024;
    assert!(check_storage_space(500 * mib, 0).is_ok());
    let err = check_storage_space(200 * mib, 0).unwrap_err();
    assert_eq!(err, "Insufficient storage: 200MB available, 500MB required");
    assert!(check_storage_space(499 * mib, 100 * mib).is_err());
}

#[test]
fn storage_check_refuses_huge_estimates() {
    let err = check_storage_space(u64::MAX, u64::MAX).unwrap_err();
    assert_eq!(err, format!("Insufficient storage: {}MB available, {}MB required", u64::MAX / (1024 * 1024), u64::MAX / (1024 * 1024) + 100));
}

#[test]
fn test_hardware_encoder_type_equality() {
    assert_eq!(HardwareEncoderType::MediaCodec, HardwareEncoderType::MediaCodec);
    assert_eq!(HardwareEncoderType::NoHardware, HardwareEncoderType::NoHardware);
    assert_ne!(HardwareEncoderType::MediaCodec, HardwareEncoderType::NoHardware);
}

#[test]
fn test_capabilities_detect() {
    let caps = HardwareEncoderCapabilities::detect();
    assert_eq!(caps.encoder_type, HardwareEncoderType::NoHardware);
}

#[test]
fn test_capabilities_none() {
    let caps = HardwareEncoderCapabilities::none();
    assert_eq!(caps.encoder_type, HardwareEncoderType::NoHardware);
    assert!(caps.supported_codecs.is_empty());
    assert_eq!(caps.max_width, 0);
    assert_eq!(caps.max_height, 0);
    assert_eq!(caps.max_bitrate_kbps, 0);
}

#[test]
fn test_codec_from_str_lossy() {
    assert_eq!(VideoCodec::from_str_lossy("H.264"), Some(VideoCodec::H264));
    assert_eq!(VideoCodec::from_str_lossy("h264"), Some(VideoCodec::H264));
    assert_eq!(VideoCodec::from_str_lossy("H.265"), Some(VideoCodec::H265));
    assert_eq!(VideoCodec::from_str_lossy("HEVC"), Some(VideoCodec::H265));
    assert_eq!(VideoCodec::from_str_lossy("VP9"), Some(VideoCodec::Vp9));
    assert_eq!(VideoCodec::from_str_lossy("AV1"), Some(VideoCodec::Av1));
    assert_eq!(VideoCodec::from_str_lossy("unknown"), None);
}

#[test]
fn test_format_from_str_lossy() {
    assert_eq!(OutputFormat::from_str_lossy("MP4"), Some(OutputFormat::Mp4));
    assert_eq!(OutputFormat::from_str_lossy("webm"), Some(OutputFormat::WebM));
    assert_eq!(OutputFormat::from_str_lossy("MOV"), Some(OutputFormat::Mov));
    assert_eq!(OutputFormat::from_str_lossy("unknown"), None);
}

#[test]
fn codec_and_format_names() {
    assert_eq!(VideoCodec::H265.ffmpeg_codec_name(), "libx265");
    assert_eq!(VideoCodec::Vp9.display_name(), "VP9");
    assert_eq!(VideoCodec::from_lowercase_name("LIBX264"), None);
    assert_eq!(OutputFormat::Gif.file_extension(), ".gif");
    assert_eq!(OutputFormat::WebM.ffmpeg_format_name(), "webm");
}

#[test]
fn test_export_result_error() {
    let result = ExportResult::error("Test error", "/test.mp4");
    assert!(!result.success);
    assert_eq!(result.error_message, Some("Test error".to_string()));
}

#[test]
fn test_export_stage_display_name() {
    assert_eq!(ExportStage::Preparing.display_name(), "Preparing");
    assert_eq!(ExportStage::Encoding.display_name(), "Encoding");
    assert_eq!(ExportStage::Finalizing.display_name(), "Finalizing");
    assert_eq!(ExportStage::Complete.display_name(), "Complete");
    assert_eq!(ExportStage::Error("test".to_string()).display_name(), "Error");
}

fn result_of_size(bytes: u64) -> ExportResult {
    ExportResult {
        success: true,
        output_path: "/test.mp4".to_string(),
        file_size_bytes: bytes,
        duration_ms: 10000,
        error_message: None,
    }
}

#[test]
fn test_export_result_file_size_human() {
    let result = ExportResult {
        success: true,
        output_path: "/test.mp4".to_string(),
        file_size_bytes: 1024,
        duration_ms: 10000,
        error_message: None,
    };
    assert_eq!(result.file_size_human(), "1.0 KB");

    let result_mb = ExportResult {
        success: true,
        output_path: "/test.mp4".to_string(),
        file_size_bytes: 10 * 1024 * 1024,
        duration_ms: 10000,
        error_message: None,
    };
    assert_eq!(result_mb.file_size_human(), "10.0 MB");
}

#[test]
fn file_size_human_matches_float_formatting() {
    for bytes in [0u64, 1, 1023, 1280, 1792, 1_048_575, 1_500_000, 1_207_959_552, 5_000_000_000, u64::MAX, (1u64 << 53) + 1] {
        let f = bytes as f64;
        let expected = if f < 1024.0 {
            format!("{} B", f as u64)
        } else if f < 1024.0 * 1024.0 {
            format!("{:.1} KB", f / 1024.0)
        } else if f < 1024.0 * 1024.0 * 1024.0 {
            format!("{:.1} MB", f / (1024.0 * 1024.0))
        } else {
            format!("{:.2} GB", f / (1024.0 * 1024.0 * 1024.0))
        };
        assert_eq!(result_of_size(bytes).file_size_human(), expected, "bytes = {}", bytes);
    }
    assert_eq!(result_of_size(1280).file_size_human(), "1.2 KB");
    assert_eq!(result_of_size(1_207_959_552).file_size_human(), "1.12 GB");
}
