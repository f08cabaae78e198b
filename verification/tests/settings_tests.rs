use editors_engine::export_engine::encoder::{
    validate_audio_params, validate_muxed_settings, validate_video_settings,
};
use editors_engine::export_engine::hardware_encoder::{
    EncodePath, HardwareEncoder, HardwareEncoderCapabilities, HardwareEncoderType,
};
use editors_engine::export_engine::{ExportSettings, OutputFormat, VideoCodec};
use editors_engine::float_bits::f32_bits_le_zero;

fn fps(settings: &ExportSettings) -> f32 {
    f32::from_bits(settings.fps_bits)
}

// ── Settings presets ──────────────────────────────────────────────

#[test]
fn test_preset_720p() {
    let settings = ExportSettings::hd_720p();
    assert_eq!(settings.width, 1280);
    assert_eq!(settings.height, 720);
    assert_eq!(fps(&settings), 30.0);
    assert_eq!(settings.codec, VideoCodec::H264);
    assert_eq!(settings.format, OutputFormat::Mp4);
    assert!(!settings.two_pass);
}

#[test]
fn test_preset_1080p() {
    let settings = ExportSettings::full_hd_1080p();
    assert_eq!(settings.width, 1920);
    assert_eq!(settings.height, 1080);
    assert_eq!(settings.bitrate_kbps, 10000);
}

#[test]
fn test_preset_4k() {
    let settings = ExportSettings::ultra_hd_4k();
    assert_eq!(settings.width, 3840);
    assert_eq!(settings.height, 2160);
    assert_eq!(settings.codec, VideoCodec::H265);
    assert!(settings.two_pass);
}

#[test]
fn test_preset_social_vertical() {
    let settings = ExportSettings::social_vertical();
    assert_eq!(settings.width, 1080);
    assert_eq!(settings.height, 1920);
}

#[test]
fn test_preset_social_square() {
    let settings = ExportSettings::social_square();
    assert_eq!(settings.width, 1080);
    assert_eq!(settings.height, 1080);
}

#[test]
fn test_preset_by_name() {
    assert!(ExportSettings::preset_by_name("1080p").is_some());
    assert!(ExportSettings::preset_by_name("720p").is_some());
    assert!(ExportSettings::preset_by_name("4K").is_some());
    assert!(ExportSettings::preset_by_name("Social Vertical").is_some());
    assert!(ExportSettings::preset_by_name("Social Square").is_some());
    assert!(ExportSettings::preset_by_name("unknown").is_none());
}

#[test]
fn preset_by_name_aliases_and_case() {
    assert_eq!(ExportSettings::preset_by_name("social_vertical").unwrap().height, 1920);
    assert_eq!(ExportSettings::preset_by_name("social_square").unwrap().width, 1080);
    assert_eq!(ExportSettings::preset_by_name("4K").unwrap().audio_sample_rate, 48000);
    assert!(ExportSettings::preset_by_name("4k").is_none());
    assert!(ExportSettings::preset_by_name("").is_none());
}

#[test]
fn presets_share_audio_and_container() {
    for s in [
        ExportSettings::hd_720p(),
        ExportSettings::full_hd_1080p(),
        ExportSettings::ultra_hd_4k(),
        ExportSettings::social_vertical(),
        ExportSettings::social_square(),
    ] {
        assert_eq!(fps(&s), 30.0);
        assert_eq!(s.format, OutputFormat::Mp4);
        assert_eq!(s.audio_channels, 2);
        assert!(s.include_audio);
    }
}

#[test]
fn f32_at_most_zero_follows_float_comparison() {
    let samples = [
        0.0f32, -0.0, 1.0, -1.0, 30.0, f32::MIN_POSITIVE, -f32::MIN_POSITIVE,
        f32::INFINITY, f32::NEG_INFINITY, f32::NAN, -f32::NAN, 1e-45, -1e-45,
    ];
    for x in samples {
        assert_eq!(f32_bits_le_zero(x.to_bits()), x <= 0.0, "{}", x);
    }
}

// ── Encoder settings checks ───────────────────────────────────────

#[test]
fn test_odd_dimensions_rejected() {
    let mut settings = ExportSettings::full_hd_1080p();
    settings.width = 1921;
    let result = validate_video_settings(&settings);
    assert!(result.is_err());
    assert_eq!(result.unwrap_err(), "Dimensions must be even (got 1921x1080)");
}

#[test]
fn test_zero_dimensions_rejected() {
    let mut settings = ExportSettings::full_hd_1080p();
    settings.height = 0;
    let result = validate_video_settings(&settings);
    assert_eq!(result.unwrap_err(), "Width and height must be non-zero");
}

#[test]
fn video_settings_fps_and_bitrate() {
    let mut settings = ExportSettings::full_hd_1080p();
    assert!(validate_video_settings(&settings).is_ok());
    settings.fps_bits = (-1.0f32).to_bits();
    assert_eq!(validate_video_settings(&settings).unwrap_err(), "FPS must be positive");
    settings.fps_bits = f32::NAN.to_bits();
    assert!(validate_video_settings(&settings).is_ok());
    settings.fps_bits = 24.0f32.to_bits();
    settings.bitrate_kbps = 0;
    assert_eq!(validate_video_settings(&settings).unwrap_err(), "Bitrate must be non-zero");
}

#[test]
fn test_audio_encoder_rejects_zero_sample_rate() {
    let result = validate_audio_params(0, 2, 128);
    assert!(result.is_err());
    assert!(result.unwrap_err().contains("Sample rate"));
}

#[test]
fn test_audio_encoder_rejects_zero_channels() {
    let result = validate_audio_params(44100, 0, 128);
    assert!(result.is_err());
    assert!(result.unwrap_err().contains("Channels"));
}

#[test]
fn test_audio_encoder_rejects_zero_bitrate() {
    let result = validate_audio_params(44100, 2, 0);
    assert!(result.is_err());
    assert!(result.unwrap_err().contains("bitrate"));
}

#[test]
fn test_audio_encoder_accepts_valid_params() {
    assert!(validate_audio_params(44100, 2, 128).is_ok());
    assert!(validate_audio_params(48000, 1, 64).is_ok());
}

#[test]
fn test_muxed_encoder_rejects_odd_dimensions() {
    let mut settings = ExportSettings::full_hd_1080p();
    settings.width = 1921;
    let result = validate_muxed_settings(&settings);
    assert!(result.is_err());
    assert!(result.unwrap_err().contains("even"));
}

#[test]
fn muxed_settings_messages() {
    let mut settings = ExportSettings::full_hd_1080p();
    assert!(validate_muxed_settings(&settings).is_ok());
    settings.audio_channels = 0;
    assert_eq!(validate_muxed_settings(&settings).unwrap_err(), "Channels must be non-zero");
    settings.include_audio = false;
    assert!(validate_muxed_settings(&settings).is_ok());
    settings.bitrate_kbps = 0;
    assert_eq!(validate_muxed_settings(&settings).unwrap_err(), "Video bitrate must be non-zero");
}

// ── Hardware capabilities ─────────────────────────────────────────

fn caps(codecs: Vec<VideoCodec>, max_width: u32, max_height: u32, max_bitrate_kbps: u64) -> HardwareEncoderCapabilities {
    HardwareEncoderCapabilities {
        encoder_type: HardwareEncoderType::MediaCodec,
        supported_codecs: codecs,
        max_width,
        max_height,
        max_bitrate_kbps,
    }
}

#[test]
fn test_capabilities_supports_settings_with_none() {
    let caps = HardwareEncoderCapabilities::none();
    let settings = ExportSettings::full_hd_1080p();
    assert!(!caps.supports_settings(&settings));
}

#[test]
fn test_capabilities_supports_settings_with_hw() {
    let caps = caps(vec![VideoCodec::H264, VideoCodec::H265], 3840, 2160, 100_000);
    let settings = ExportSettings::full_hd_1080p();
    assert!(caps.supports_settings(&settings));
    let settings_4k = ExportSettings::ultra_hd_4k();
    assert!(caps.supports_settings(&settings_4k));
}

#[test]
fn test_capabilities_supports_settings_unsupported_codec() {
    let caps = caps(vec![VideoCodec::H264], 3840, 2160, 100_000);
    let mut settings = ExportSettings::full_hd_1080p();
    settings.codec = VideoCodec::Vp9;
    assert!(!caps.supports_settings(&settings));
}

#[test]
fn test_capabilities_supports_settings_exceeds_resolution() {
    let caps = caps(vec![VideoCodec::H264], 1920, 1080, 100_000);
    let settings_4k = ExportSettings::ultra_hd_4k();
    assert!(!caps.supports_settings(&settings_4k));
}

#[test]
fn test_capabilities_supports_settings_exceeds_bitrate() {
    let caps = caps(vec![VideoCodec::H264], 3840, 2160, 5_000);
    let settings = ExportSettings::full_hd_1080p();
    assert!(!caps.supports_settings(&settings));
}

#[test]
fn supports_settings_at_the_limits() {
    let caps = caps(vec![VideoCodec::H265], 3840, 2160, 40000);
    assert!(caps.supports_settings(&ExportSettings::ultra_hd_4k()));
    let mut settings = ExportSettings::ultra_hd_4k();
    settings.height = 2162;
    assert!(!caps.supports_settings(&settings));
}

#[test]
fn android_probe_finds_nothing() {
    assert!(!HardwareEncoderCapabilities::probe_android_encoder("video/avc"));
    let found = HardwareEncoderCapabilities::detect_android();
    assert_eq!(found.encoder_type, HardwareEncoderType::NoHardware);
    let (mut w, mut h, mut b) = (3840u32, 2160u32, 100_000u64);
    HardwareEncoderCapabilities::query_android_encoder_limits(&mut w, &mut h, &mut b);
    assert_eq!((w, h, b), (3840, 2160, 100_000));
}

// ── Hardware encoder ──────────────────────────────────────────────

#[test]
fn test_hardware_encoder_new_valid_settings() {
    let settings = ExportSettings::full_hd_1080p();
    let encoder = HardwareEncoder::new(&settings);
    assert!(encoder.is_ok());
    let encoder = encoder.unwrap();
    assert!(!encoder.is_hardware_accelerated());
}

#[test]
fn test_hardware_encoder_new_zero_dimensions() {
    let mut settings = ExportSettings::full_hd_1080p();
    settings.width = 0;
    let result = HardwareEncoder::new(&settings);
    assert!(result.is_err());
    assert!(result.err().unwrap().contains("non-zero"));
}

#[test]
fn test_hardware_encoder_new_odd_dimensions() {
    let mut settings = ExportSettings::full_hd_1080p();
    settings.width = 1921;
    let result = HardwareEncoder::new(&settings);
    assert!(result.is_err());
    assert!(result.err().unwrap().contains("even"));
}

#[test]
fn test_hardware_encoder_new_zero_bitrate() {
    let mut settings = ExportSettings::full_hd_1080p();
    settings.bitrate_kbps = 0;
    let result = HardwareEncoder::new(&settings);
    assert!(result.is_err());
    assert!(result.err().unwrap().contains("Bitrate"));
}

#[test]
fn test_hardware_encoder_new_zero_fps() {
    let mut settings = ExportSettings::full_hd_1080p();
    settings.fps_bits = 0.0f32.to_bits();
    let result = HardwareEncoder::new(&settings);
    assert!(result.is_err());
    assert!(result.err().unwrap().contains("FPS"));
}

#[test]
fn test_hardware_encoder_is_available() {
    assert!(!HardwareEncoder::is_available());
}

#[test]
fn test_hardware_encoder_not_opened_encode() {
    let settings = ExportSettings::full_hd_1080p();
    let encoder = HardwareEncoder::new(&settings).unwrap();
    let result = encoder.frame_path();
    assert!(result.is_err());
    assert!(result.unwrap_err().contains("not opened"));
}

#[test]
fn test_hardware_encoder_not_opened_finish() {
    let settings = ExportSettings::full_hd_1080p();
    let encoder = HardwareEncoder::new(&settings).unwrap();
    let result = encoder.finish_path();
    assert!(result.is_err());
}

#[test]
fn test_hardware_encoder_double_open() {
    let settings = ExportSettings::full_hd_1080p();
    let mut encoder = HardwareEncoder::new(&settings).unwrap();
    if encoder.open("/tmp/test_double_open.mp4").is_ok() {
        encoder.mark_opened();
        let result = encoder.open("/tmp/test_double_open.mp4");
        assert!(result.is_err());
        assert!(result.unwrap_err().contains("already opened"));
    }
}

#[test]
fn test_hardware_encoder_frame_count() {
    let settings = ExportSettings::full_hd_1080p();
    let encoder = HardwareEncoder::new(&settings).unwrap();
    assert_eq!(encoder.frame_count(), 0);
}

#[test]
fn test_hardware_encoder_encoder_type() {
    let settings = ExportSettings::full_hd_1080p();
    let encoder = HardwareEncoder::new(&settings).unwrap();
    assert_eq!(encoder.encoder_type(), HardwareEncoderType::NoHardware);
}

#[test]
fn test_hardware_encoder_capabilities_accessor() {
    let settings = ExportSettings::full_hd_1080p();
    let encoder = HardwareEncoder::new(&settings).unwrap();
    let caps = encoder.capabilities();
    assert_eq!(caps.encoder_type, HardwareEncoderType::NoHardware);
}

#[test]
fn test_software_fallback_on_non_android() {
    let settings = ExportSettings::full_hd_1080p();
    let mut encoder = HardwareEncoder::new(&settings).unwrap();
    assert!(!encoder.is_hardware_accelerated());
    assert_eq!(encoder.open("/tmp/out.mp4").unwrap(), EncodePath::Software);
}

#[test]
fn encoder_session_counts_frames_and_falls_back() {
    let settings = ExportSettings::hd_720p();
    let mut encoder = HardwareEncoder::new(&settings).unwrap();
    assert_eq!(encoder.open("/tmp/a.mp4").unwrap(), EncodePath::Software);
    encoder.mark_opened();
    assert_eq!(encoder.frame_path().unwrap(), EncodePath::Software);
    encoder.frame_encoded();
    encoder.frame_encoded();
    assert_eq!(encoder.frame_count(), 2);
    encoder.fall_back_to_software();
    assert_eq!(encoder.frame_count(), 0);
    assert_eq!(encoder.finish_path().unwrap(), EncodePath::Software);
    assert_eq!(encoder.cancel_path(), EncodePath::Software);
    assert_eq!(encoder.settings().width, 1280);
}
