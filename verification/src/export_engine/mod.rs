//! Export engine: codec and container catalogs, export stages and
//! results, and the encoder arithmetic.

pub mod batch;
pub mod encoder;
pub mod hardware_encoder;

use vstd::prelude::*;
use crate::text::{
    ascii_lowercase, decimal, is_ascii_text, pad_zeros, push_decimal_wide, push_zero_padded_wide, str_equals, to_lowercase,
    unicode_lowercase,
};

verus! {

/// Video codec options.
#[derive(Debug, Clone, Copy, PartialEq, Eq, Structural)]
pub enum VideoCodec {
    H264,
    H265,
    Vp9,
    Av1,
}

impl VideoCodec {
    /// The FFmpeg encoder name of each variant.
    pub open spec fn spec_ffmpeg_codec_name(self) -> Seq<char> {
        match self {
            VideoCodec::H264 => "libx264"@,
            VideoCodec::H265 => "libx265"@,
            VideoCodec::Vp9 => "libvpx-vp9"@,
            VideoCodec::Av1 => "libaom-av1"@,
        }
    }

    /// The FFmpeg encoder name of the codec.
    pub fn ffmpeg_codec_name(&self) -> (r: &str)
        ensures
            r@ == self.spec_ffmpeg_codec_name(),
    {
        match self {
            VideoCodec::H264 => "libx264",
            VideoCodec::H265 => "libx265",
            VideoCodec::Vp9 => "libvpx-vp9",
            VideoCodec::Av1 => "libaom-av1",
        }
    }

    /// The display name of each variant.
    pub open spec fn spec_display_name(self) -> Seq<char> {
        match self {
            VideoCodec::H264 => "H.264 (AVC)"@,
            VideoCodec::H265 => "H.265 (HEVC)"@,
            VideoCodec::Vp9 => "VP9"@,
            VideoCodec::Av1 => "AV1"@,
        }
    }

    /// The display name of the codec.
    pub fn display_name(&self) -> (r: &str)
        ensures
            r@ == self.spec_display_name(),
    {
        match self {
            VideoCodec::H264 => "H.264 (AVC)",
            VideoCodec::H265 => "H.265 (HEVC)",
            VideoCodec::Vp9 => "VP9",
            VideoCodec::Av1 => "AV1",
        }
    }

    /// The codec a lowercase name or identifier stands for.
    pub open spec fn spec_from_lowercase_name(s: Seq<char>) -> Option<VideoCodec> {
        if s == "h264"@ || s == "h.264"@ || s == "avc"@ || s == "libx264"@ {
            Some(VideoCodec::H264)
        } else if s == "h265"@ || s == "h.265"@ || s == "hevc"@ || s == "libx265"@ {
            Some(VideoCodec::H265)
        } else if s == "vp9"@ || s == "libvpx-vp9"@ {
            Some(VideoCodec::Vp9)
        } else if s == "av1"@ || s == "libaom-av1"@ {
            Some(VideoCodec::Av1)
        } else {
            None
        }
    }

    /// Parses a codec from an already lowercased name or identifier.
    pub fn from_lowercase_name(s: &str) -> (r: Option<Self>)
        ensures
            r == Self::spec_from_lowercase_name(s@),
    {
        if str_equals(s, "h264") || str_equals(s, "h.264") || str_equals(s, "avc") || str_equals(s, "libx264") {
            Some(VideoCodec::H264)
        } else if str_equals(s, "h265") || str_equals(s, "h.265") || str_equals(s, "hevc") || str_equals(s, "libx265") {
            Some(VideoCodec::H265)
        } else if str_equals(s, "vp9") || str_equals(s, "libvpx-vp9") {
            Some(VideoCodec::Vp9)
        } else if str_equals(s, "av1") || str_equals(s, "libaom-av1") {
            Some(VideoCodec::Av1)
        } else {
            None
        }
    }

    /// Parses a codec from a display name or identifier string, ignoring
    /// case.
    pub fn from_str_lossy(s: &str) -> (r: Option<Self>)
        ensures
            r == Self::spec_from_lowercase_name(unicode_lowercase(s@)),
            is_ascii_text(s@) ==> r == Self::spec_from_lowercase_name(ascii_lowercase(s@)),
    {
        let lower = to_lowercase(s);
        Self::from_lowercase_name(lower.as_str())
    }
}

/// Parsing inverts naming: the FFmpeg encoder name of every codec is ASCII
/// text that reads back, in any case, as that codec.
pub proof fn lemma_codec_name_round_trip(c: VideoCodec)
    ensures
        is_ascii_text(c.spec_ffmpeg_codec_name()),
        VideoCodec::spec_from_lowercase_name(ascii_lowercase(c.spec_ffmpeg_codec_name())) == Some(c),
{
    reveal_strlit("libx264");
    reveal_strlit("libx265");
    reveal_strlit("libvpx-vp9");
    reveal_strlit("libaom-av1");
    reveal_strlit("h264");
    reveal_strlit("h.264");
    reveal_strlit("avc");
    reveal_strlit("h265");
    reveal_strlit("h.265");
    reveal_strlit("hevc");
    reveal_strlit("vp9");
    reveal_strlit("av1");
    let n = c.spec_ffmpeg_codec_name();
    assert forall|i: int| 0 <= i < n.len() implies #[trigger] ascii_lowercase(n)[i] == n[i] by {
        assert(n[i] == '-' || ('0' <= n[i] && n[i] <= '9') || ('a' <= n[i] && n[i] <= 'z'));
    }
    assert(ascii_lowercase(n) =~= n);
    match c {
        VideoCodec::H264 => assert(VideoCodec::spec_from_lowercase_name(n) == Some(c)),
        VideoCodec::H265 => {
            assert(n != "h264"@ && n != "h.264"@ && n != "avc"@ && n != "libx264"@) by {
                assert(n[6] == '5');
                assert(n.len() != "h264"@.len() && n.len() != "h.264"@.len() && n.len() != "avc"@.len());
                assert("libx264"@[6] == '4');
            }
        },
        VideoCodec::Vp9 => {
            assert(n.len() == 10);
        },
        VideoCodec::Av1 => {
            assert(n.len() == 10);
            assert(n != "libvpx-vp9"@) by { assert(n[3] == 'a' && "libvpx-vp9"@[3] == 'v'); }
        },
    }
}

/// The bits of the `f32` 30.0, the frame rate of the built-in presets.
pub const FPS_30_BITS: u32 = 0x41F0_0000;

/// Export configuration.
#[derive(Debug, Clone, Copy)]
pub struct ExportSettings {
    pub width: u32,
    pub height: u32,
    /// Frames per second, as the bits of an `f32`.
    pub fps_bits: u32,
    pub bitrate_kbps: u64,
    pub codec: VideoCodec,
    pub format: OutputFormat,
    pub audio_bitrate_kbps: u32,
    pub audio_sample_rate: u32,
    pub audio_channels: u32,
    pub include_audio: bool,
    pub two_pass: bool,
}

/// A preset at 30 fps in MP4 with stereo audio.
pub open spec fn preset_settings(
    width: u32,
    height: u32,
    bitrate_kbps: u64,
    codec: VideoCodec,
    audio_bitrate_kbps: u32,
    audio_sample_rate: u32,
    two_pass: bool,
) -> ExportSettings {
    ExportSettings {
        width,
        height,
        fps_bits: FPS_30_BITS,
        bitrate_kbps,
        codec,
        format: OutputFormat::Mp4,
        audio_bitrate_kbps,
        audio_sample_rate,
        audio_channels: 2,
        include_audio: true,
        two_pass,
    }
}

/// The 720p preset.
pub open spec fn spec_hd_720p() -> ExportSettings {
    preset_settings(1280, 720, 5000, VideoCodec::H264, 128, 44100, false)
}

/// The 1080p preset.
pub open spec fn spec_full_hd_1080p() -> ExportSettings {
    preset_settings(1920, 1080, 10000, VideoCodec::H264, 192, 44100, false)
}

/// The 4K preset.
pub open spec fn spec_ultra_hd_4k() -> ExportSettings {
    preset_settings(3840, 2160, 40000, VideoCodec::H265, 256, 48000, true)
}

/// The vertical social preset (TikTok, Reels).
pub open spec fn spec_social_vertical() -> ExportSettings {
    preset_settings(1080, 1920, 8000, VideoCodec::H264, 128, 44100, false)
}

/// The square social preset (Instagram).
pub open spec fn spec_social_square() -> ExportSettings {
    preset_settings(1080, 1080, 6000, VideoCodec::H264, 128, 44100, false)
}

/// The preset a name stands for.
pub open spec fn spec_preset_by_name(name: Seq<char>) -> Option<ExportSettings> {
    if name == "720p"@ {
        Some(spec_hd_720p())
    } else if name == "1080p"@ {
        Some(spec_full_hd_1080p())
    } else if name == "4K"@ {
        Some(spec_ultra_hd_4k())
    } else if name == "Social Vertical"@ || name == "social_vertical"@ {
        Some(spec_social_vertical())
    } else if name == "Social Square"@ || name == "social_square"@ {
        Some(spec_social_square())
    } else {
        None
    }
}

impl ExportSettings {
    /// 720p export preset.
    pub fn hd_720p() -> (r: Self)
        ensures
            r == spec_hd_720p(),
    {
        ExportSettings {
            width: 1280,
            height: 720,
            fps_bits: FPS_30_BITS,
            bitrate_kbps: 5000,
            codec: VideoCodec::H264,
            format: OutputFormat::Mp4,
            audio_bitrate_kbps: 128,
            audio_sample_rate: 44100,
            audio_channels: 2,
            include_audio: true,
            two_pass: false,
        }
    }

    /// 1080p export preset.
    pub fn full_hd_1080p() -> (r: Self)
        ensures
            r == spec_full_hd_1080p(),
    {
        ExportSettings {
            width: 1920,
            height: 1080,
            fps_bits: FPS_30_BITS,
            bitrate_kbps: 10000,
            codec: VideoCodec::H264,
            format: OutputFormat::Mp4,
            audio_bitrate_kbps: 192,
            audio_sample_rate: 44100,
            audio_channels: 2,
            include_audio: true,
            two_pass: false,
        }
    }

    /// 4K export preset.
    pub fn ultra_hd_4k() -> (r: Self)
        ensures
            r == spec_ultra_hd_4k(),
    {
        ExportSettings {
            width: 3840,
            height: 2160,
            fps_bits: FPS_30_BITS,
            bitrate_kbps: 40000,
            codec: VideoCodec::H265,
            format: OutputFormat::Mp4,
            audio_bitrate_kbps: 256,
            audio_sample_rate: 48000,
            audio_channels: 2,
            include_audio: true,
            two_pass: true,
        }
    }

    /// TikTok/Reels vertical format.
    pub fn social_vertical() -> (r: Self)
        ensures
            r == spec_social_vertical(),
    {
        ExportSettings {
            width: 1080,
            height: 1920,
            fps_bits: FPS_30_BITS,
            bitrate_kbps: 8000,
            codec: VideoCodec::H264,
            format: OutputFormat::Mp4,
            audio_bitrate_kbps: 128,
            audio_sample_rate: 44100,
            audio_channels: 2,
            include_audio: true,
            two_pass: false,
        }
    }

    /// Instagram square format.
    pub fn social_square() -> (r: Self)
        ensures
            r == spec_social_square(),
    {
        ExportSettings {
            width: 1080,
            height: 1080,
            fps_bits: FPS_30_BITS,
            bitrate_kbps: 6000,
            codec: VideoCodec::H264,
            format: OutputFormat::Mp4,
            audio_bitrate_kbps: 128,
            audio_sample_rate: 44100,
            audio_channels: 2,
            include_audio: true,
            two_pass: false,
        }
    }

    /// Gets a preset by name; `None` for unknown preset names.
    pub fn preset_by_name(name: &str) -> (r: Option<Self>)
        ensures
            r == spec_preset_by_name(name@),
    {
        if str_equals(name, "720p") {
            Some(Self::hd_720p())
        } else if str_equals(name, "1080p") {
            Some(Self::full_hd_1080p())
        } else if str_equals(name, "4K") {
            Some(Self::ultra_hd_4k())
        } else if str_equals(name, "Social Vertical") || str_equals(name, "social_vertical") {
            Some(Self::social_vertical())
        } else if str_equals(name, "Social Square") || str_equals(name, "social_square") {
            Some(Self::social_square())
        } else {
            None
        }
    }
}

/// Output container format.
#[derive(Debug, Clone, Copy, PartialEq, Eq, Structural)]
pub enum OutputFormat {
    Mp4,
    WebM,
    Mov,
    Avi,
    Gif,
}

impl OutputFormat {
    /// The FFmpeg muxer name of each variant.
    pub open spec fn spec_ffmpeg_format_name(self) -> Seq<char> {
        match self {
            OutputFormat::Mp4 => "mp4"@,
            OutputFormat::WebM => "webm"@,
            OutputFormat::Mov => "mov"@,
            OutputFormat::Avi => "avi"@,
            OutputFormat::Gif => "gif"@,
        }
    }

    /// The FFmpeg muxer name of the format.
    pub fn ffmpeg_format_name(&self) -> (r: &str)
        ensures
            r@ == self.spec_ffmpeg_format_name(),
    {
        match self {
            OutputFormat::Mp4 => "mp4",
            OutputFormat::WebM => "webm",
            OutputFormat::Mov => "mov",
            OutputFormat::Avi => "avi",
            OutputFormat::Gif => "gif",
        }
    }

    /// The file extension of each variant.
    pub open spec fn spec_file_extension(self) -> Seq<char> {
        match self {
            OutputFormat::Mp4 => ".mp4"@,
            OutputFormat::WebM => ".webm"@,
            OutputFormat::Mov => ".mov"@,
            OutputFormat::Avi => ".avi"@,
            OutputFormat::Gif => ".gif"@,
        }
    }

    /// The file extension of the format, with its dot.
    pub fn file_extension(&self) -> (r: &str)
        ensures
            r@ == self.spec_file_extension(),
    {
        match self {
            OutputFormat::Mp4 => ".mp4",
            OutputFormat::WebM => ".webm",
            OutputFormat::Mov => ".mov",
            OutputFormat::Avi => ".avi",
            OutputFormat::Gif => ".gif",
        }
    }

    /// The format a lowercase name stands for.
    pub open spec fn spec_from_lowercase_name(s: Seq<char>) -> Option<OutputFormat> {
        if s == "mp4"@ {
            Some(OutputFormat::Mp4)
        } else if s == "webm"@ {
            Some(OutputFormat::WebM)
        } else if s == "mov"@ {
            Some(OutputFormat::Mov)
        } else if s == "avi"@ {
            Some(OutputFormat::Avi)
        } else if s == "gif"@ {
            Some(OutputFormat::Gif)
        } else {
            None
        }
    }

    /// Parses a format from an already lowercased name.
    pub fn from_lowercase_name(s: &str) -> (r: Option<Self>)
        ensures
            r == Self::spec_from_lowercase_name(s@),
    {
        if str_equals(s, "mp4") {
            Some(OutputFormat::Mp4)
        } else if str_equals(s, "webm") {
            Some(OutputFormat::WebM)
        } else if str_equals(s, "mov") {
            Some(OutputFormat::Mov)
        } else if str_equals(s, "avi") {
            Some(OutputFormat::Avi)
        } else if str_equals(s, "gif") {
            Some(OutputFormat::Gif)
        } else {
            None
        }
    }

    /// Parses a format from a display name or identifier string, ignoring
    /// case.
    pub fn from_str_lossy(s: &str) -> (r: Option<Self>)
        ensures
            r == Self::spec_from_lowercase_name(unicode_lowercase(s@)),
            is_ascii_text(s@) ==> r == Self::spec_from_lowercase_name(ascii_lowercase(s@)),
    {
        let lower = to_lowercase(s);
        Self::from_lowercase_name(lower.as_str())
    }
}

/// Stages of the export process.
#[derive(Debug, Clone, PartialEq)]
pub enum ExportStage {
    Preparing,
    Rendering,
    Encoding,
    Finalizing,
    Complete,
    Error(String),
}

impl ExportStage {
    /// The human-readable name of each stage.
    pub open spec fn spec_display_name(self) -> Seq<char> {
        match self {
            ExportStage::Preparing => "Preparing"@,
            ExportStage::Rendering => "Rendering"@,
            ExportStage::Encoding => "Encoding"@,
            ExportStage::Finalizing => "Finalizing"@,
            ExportStage::Complete => "Complete"@,
            ExportStage::Error(_) => "Error"@,
        }
    }

    /// Gets a human-readable name for the stage.
    pub fn display_name(&self) -> (r: &str)
        ensures
            r@ == self.spec_display_name(),
    {
        match self {
            ExportStage::Preparing => "Preparing",
            ExportStage::Rendering => "Rendering",
            ExportStage::Encoding => "Encoding",
            ExportStage::Finalizing => "Finalizing",
            ExportStage::Complete => "Complete",
            ExportStage::Error(_) => "Error",
        }
    }
}

/// Export result.
#[derive(Debug, Clone)]
pub struct ExportResult {
    pub success: bool,
    pub output_path: String,
    pub file_size_bytes: u64,
    pub duration_ms: u64,
    pub error_message: Option<String>,
}

impl ExportResult {
    /// Creates an error result.
    pub fn error(message: &str, output_path: &str) -> (r: Self)
        ensures
            !r.success,
            r.output_path@ == output_path@,
            r.file_size_bytes == 0,
            r.duration_ms == 0,
            r.error_message matches Some(m) && m@ == message@,
    {
        ExportResult {
            success: false,
            output_path: String::from_str(output_path),
            file_size_bytes: 0,
            duration_ms: 0,
            error_message: Some(String::from_str(message)),
        }
    }
}

/// `a / d` rounded to the nearest integer, ties to the even one (`d > 0`).
pub open spec fn round_half_even(a: nat, d: nat) -> nat {
    let q = a / d;
    let r = a % d;
    if 2 * r < d {
        q
    } else if 2 * r > d {
        q + 1
    } else if q % 2 == 0 {
        q
    } else {
        q + 1
    }
}

/// The spacing of `f64` values around `n`, found by doubling `u` (at most
/// `fuel` times) until `n / u` has at most 53 bits.
pub open spec fn f64_spacing_from(n: nat, u: nat, fuel: nat) -> nat
    decreases fuel,
{
    if fuel == 0 || n / u < 0x20_0000_0000_0000 {
        u
    } else {
        f64_spacing_from(n, 2 * u, (fuel - 1) as nat)
    }
}

/// The value of `n as f64` for a `u64` `n`: `n` rounded to 53 significant
/// bits, ties to even.
pub open spec fn f64_of_u64(n: nat) -> nat {
    let u = f64_spacing_from(n, 1, 11);
    round_half_even(n, u) * u
}

/// `x / d` written with `digits` decimals (`scale == 10^digits`), rounded
/// to nearest, ties to even, as `{:.N}` formatting writes it.
pub open spec fn fixed_point(x: nat, d: nat, scale: nat, digits: nat) -> Seq<char> {
    let t = round_half_even(x * scale, d);
    decimal(t / scale) + "."@ + pad_zeros(decimal(t % scale), digits)
}

/// The human-readable size of `n` bytes: bytes below 1 KiB, then KiB and
/// MiB with one decimal, then GiB with two (of the size as an `f64`).
pub open spec fn file_size_text(n: nat) -> Seq<char> {
    if n < 1024 {
        decimal(n) + " B"@
    } else if n < 1048576 {
        fixed_point(n, 1024, 10, 1) + " KB"@
    } else if n < 1073741824 {
        fixed_point(n, 1048576, 10, 1) + " MB"@
    } else {
        fixed_point(f64_of_u64(n), 1073741824, 100, 2) + " GB"@
    }
}

/// `a / d` rounded to nearest, ties to even, computed.
fn round_half_even_exec(a: u128, d: u128) -> (r: u128)
    requires
        d > 0,
        a <= 0x1_0000_0000_0000_0000_0000_0000,
    ensures
        r == round_half_even(a as nat, d as nat),
{
    let q = a / d;
    let rem = a % d;
    if rem < d - rem {
        q
    } else if rem > d - rem {
        q + 1
    } else if q % 2 == 0 {
        q
    } else {
        q + 1
    }
}

/// The value of `n as f64`, computed with integers.
fn f64_of_u64_exec(n: u64) -> (r: u128)
    ensures
        r == f64_of_u64(n as nat),
        r <= 0x1_0000_0000_0000_0000_0000,
{
    let mut u: u128 = 1;
    let mut fuel: u64 = 11;
    assert(f64_spacing_from(n as nat, 1, 11) == f64_spacing_from(n as nat, u as nat, fuel as nat));
    while fuel > 0 && (n as u128) / u >= 0x20_0000_0000_0000
        invariant
            1 <= u <= 2048,
            fuel <= 11,
            fuel + (if u == 1 { 0int } else if u == 2 { 1 } else if u == 4 { 2 } else if u == 8 { 3 } else if u == 16 { 4 } else if u == 32 { 5 } else if u == 64 { 6 } else if u == 128 { 7 } else if u == 256 { 8 } else if u == 512 { 9 } else if u == 1024 { 10 } else if u == 2048 { 11 } else { 100 }) == 11,
            f64_spacing_from(n as nat, 1, 11) == f64_spacing_from(n as nat, u as nat, fuel as nat),
        decreases fuel,
    {
        u = 2 * u;
        fuel = fuel - 1;
    }
    let q = round_half_even_exec(n as u128, u);
    assert(q <= (n as nat) / (u as nat) + 1);
    assert((n as nat) / (u as nat) <= n) by (nonlinear_arith)
        requires u >= 1;
    assert(q * u <= (n as int + 1) * 2048) by (nonlinear_arith)
        requires q <= n + 1, 1 <= u <= 2048;
    q * u
}

/// Appends `x / d` with `digits` decimals (`scale == 10^digits`).
fn push_fixed_point(out: &mut String, x: u128, d: u128, scale: u128, digits: usize)
    requires
        d > 0,
        scale == 10 || scale == 100,
        x <= 0x1_0000_0000_0000_0000_0000,
    ensures
        final(out)@ == old(out)@ + fixed_point(x as nat, d as nat, scale as nat, digits as nat),
{
    assert(x * scale <= 0x1_0000_0000_0000_0000_0000 * 100) by (nonlinear_arith)
        requires x <= 0x1_0000_0000_0000_0000_0000, scale <= 100;
    let t = round_half_even_exec(x * scale, d);
    push_decimal_wide(out, t / scale);
    out.append(".");
    push_zero_padded_wide(out, t % scale, digits);
    assert(out@ =~= old(out)@ + fixed_point(x as nat, d as nat, scale as nat, digits as nat));
}

impl ExportResult {
    /// Gets the file size in a human-readable format: `B` below 1 KiB,
    /// `KB` and `MB` with one decimal, `GB` with two.
    pub fn file_size_human(&self) -> (r: String)
        ensures
            r@ == file_size_text(self.file_size_bytes as nat),
    {
        let n = self.file_size_bytes;
        let mut out = String::new();
        if n < 1024 {
            push_decimal_wide(&mut out, n as u128);
            out.append(" B");
        } else if n < 1048576 {
            push_fixed_point(&mut out, n as u128, 1024, 10, 1);
            out.append(" KB");
        } else if n < 1073741824 {
            push_fixed_point(&mut out, n as u128, 1048576, 10, 1);
            out.append(" MB");
        } else {
            let f = f64_of_u64_exec(n);
            push_fixed_point(&mut out, f, 1073741824, 100, 2);
            out.append(" GB");
        }
        out
    }
}

} // verus!
