//! Hardware encoder capabilities.

use vstd::prelude::*;
use crate::export_engine::{ExportSettings, VideoCodec};
use crate::export_engine::encoder::{validate_video_settings, video_settings_problem};
use crate::export_engine::batch::opt_text;

verus! {

/// Hardware encoder type detected on the device.
#[derive(Debug, Clone, Copy, PartialEq, Eq, Structural)]
pub enum HardwareEncoderType {
    /// Android MediaCodec hardware encoder.
    MediaCodec,
    /// No hardware encoder available.
    NoHardware,
}

/// Result of hardware encoder capability detection.
#[derive(Debug, Clone)]
pub struct HardwareEncoderCapabilities {
    /// The type of hardware encoder detected.
    pub encoder_type: HardwareEncoderType,
    /// Supported codecs.
    pub supported_codecs: Vec<VideoCodec>,
    /// Maximum supported resolution width.
    pub max_width: u32,
    /// Maximum supported resolution height.
    pub max_height: u32,
    /// Maximum supported bitrate in kbps.
    pub max_bitrate_kbps: u64,
}

impl HardwareEncoderCapabilities {
    /// Detects the hardware encoders of this device by probing MediaCodec.
    /// This build holds no MediaCodec probe, so no hardware encoder is
    /// reported.
    pub fn detect() -> (r: Self)
        ensures
            r.reports_no_hardware(),
    {
        Self::detect_android()
    }

    /// The capabilities that probing MediaCodec yields: the codecs whose
    /// encoder was found, with the default limits (4K, 100 Mbps), or no
    /// hardware encoder when neither H.264 nor H.265 was found.
    pub fn detect_android() -> (r: Self)
        ensures
            r.reports_no_hardware(),
    {
        let mut supported_codecs: Vec<VideoCodec> = Vec::new();
        let mut max_width: u32 = 3840;
        let mut max_height: u32 = 2160;
        let mut max_bitrate_kbps: u64 = 100_000;
        if Self::probe_android_encoder("video/avc") {
            supported_codecs.push(VideoCodec::H264);
        }
        if Self::probe_android_encoder("video/hevc") {
            supported_codecs.push(VideoCodec::H265);
        }
        if supported_codecs.len() == 0 {
            return Self::none();
        }
        Self::query_android_encoder_limits(&mut max_width, &mut max_height, &mut max_bitrate_kbps);
        HardwareEncoderCapabilities {
            encoder_type: HardwareEncoderType::MediaCodec,
            supported_codecs,
            max_width,
            max_height,
            max_bitrate_kbps,
        }
    }

    /// Whether a MediaCodec encoder exists for `mime_type`. No probe is
    /// built in, so the answer is always no and export falls back to
    /// software.
    pub fn probe_android_encoder(mime_type: &str) -> (r: bool)
        ensures
            !r,
    {
        false
    }

    /// Refines the encoder limits from the codec's reported capabilities.
    /// No query is built in, so the conservative defaults stay as they are.
    pub fn query_android_encoder_limits(max_width: &mut u32, max_height: &mut u32, max_bitrate_kbps: &mut u64)
        ensures
            *final(max_width) == *old(max_width),
            *final(max_height) == *old(max_height),
            *final(max_bitrate_kbps) == *old(max_bitrate_kbps),
    {
    }

    /// Whether these are the capabilities of a device without hardware
    /// encoder: no type, no codec, zero limits.
    pub open spec fn reports_no_hardware(self) -> bool {
        &&& self.encoder_type == HardwareEncoderType::NoHardware
        &&& self.supported_codecs@.len() == 0
        &&& self.max_width == 0
        &&& self.max_height == 0
        &&& self.max_bitrate_kbps == 0
    }

    /// A "no hardware encoder" capabilities result.
    pub fn none() -> (r: Self)
        ensures
            r.reports_no_hardware(),
    {
        HardwareEncoderCapabilities {
            encoder_type: HardwareEncoderType::NoHardware,
            supported_codecs: Vec::new(),
            max_width: 0,
            max_height: 0,
            max_bitrate_kbps: 0,
        }
    }
    /// Whether `settings` are within these limits: a hardware encoder
    /// exists, the resolution and bitrate do not exceed its maxima, and it
    /// supports the codec.
    pub open spec fn spec_supports_settings(self, settings: ExportSettings) -> bool {
        &&& self.encoder_type != HardwareEncoderType::NoHardware
        &&& settings.width <= self.max_width
        &&& settings.height <= self.max_height
        &&& settings.bitrate_kbps <= self.max_bitrate_kbps
        &&& self.supported_codecs@.contains(settings.codec)
    }

    /// Checks if the given settings are within this encoder's capability
    /// limits.
    pub fn supports_settings(&self, settings: &ExportSettings) -> (r: bool)
        ensures
            r == self.spec_supports_settings(*settings),
    {
        if self.encoder_type == HardwareEncoderType::NoHardware {
            return false;
        }
        if settings.width > self.max_width || settings.height > self.max_height {
            return false;
        }
        if settings.bitrate_kbps > self.max_bitrate_kbps {
            return false;
        }
        let mut i: usize = 0;
        while i < self.supported_codecs.len()
            invariant
                i <= self.supported_codecs@.len(),
                self.encoder_type != HardwareEncoderType::NoHardware,
                settings.width <= self.max_width,
                settings.height <= self.max_height,
                settings.bitrate_kbps <= self.max_bitrate_kbps,
                forall|j: int| 0 <= j < i ==> self.supported_codecs@[j] != settings.codec,
            decreases self.supported_codecs@.len() - i,
        {
            if self.supported_codecs[i] == settings.codec {
                assert(self.supported_codecs@[i as int] == settings.codec);
                return true;
            }
            i = i + 1;
        }
        false
    }
}

/// Which encoder carries the frames.
#[derive(Debug, Clone, Copy, PartialEq, Eq, Structural)]
pub enum EncodePath {
    /// The hardware (MediaCodec) encoder.
    Hardware,
    /// The software (FFmpeg) encoder.
    Software,
}

/// The path of an encoder that does or does not use hardware.
pub open spec fn path_of(using_hardware: bool) -> EncodePath {
    if using_hardware {
        EncodePath::Hardware
    } else {
        EncodePath::Software
    }
}

/// The state of a hardware encoder as the contracts see it.
pub struct HardwareEncoderView {
    pub encoder_type: HardwareEncoderType,
    pub capabilities: HardwareEncoderCapabilities,
    pub using_hardware: bool,
    pub settings: ExportSettings,
    pub output_path: Option<Seq<char>>,
    pub frame_count: u64,
    pub is_opened: bool,
}

/// The decisions of a hardware-accelerated video encoder that falls back
/// to software encoding.
///
/// The encoder chooses hardware when a hardware encoder exists and
/// supports the settings. Its methods say which encoder the caller drives
/// for each step, and the caller reports back: when the hardware encoder
/// fails to open or to encode a frame, the encoder falls back to software,
/// which starts afresh from frame zero.
pub struct HardwareEncoder {
    encoder_type: HardwareEncoderType,
    capabilities: HardwareEncoderCapabilities,
    using_hardware: bool,
    settings: ExportSettings,
    output_path: Option<String>,
    frame_count: u64,
    is_opened: bool,
}

impl View for HardwareEncoder {
    type V = HardwareEncoderView;

    closed spec fn view(&self) -> HardwareEncoderView {
        HardwareEncoderView {
            encoder_type: self.encoder_type,
            capabilities: self.capabilities,
            using_hardware: self.using_hardware,
            settings: self.settings,
            output_path: opt_text(self.output_path),
            frame_count: self.frame_count,
            is_opened: self.is_opened,
        }
    }
}

impl HardwareEncoder {
    /// Creates a hardware encoder for the given export settings: validates
    /// them as the software encoder does, detects the hardware encoders,
    /// and chooses hardware when they support the settings.
    pub fn new(settings: &ExportSettings) -> (r: Result<Self, String>)
        ensures
            r is Ok <==> video_settings_problem(*settings, "Bitrate must be non-zero"@) is None,
            r matches Err(m) ==> video_settings_problem(*settings, "Bitrate must be non-zero"@) == Some(m@),
            r matches Ok(e) ==> {
                &&& e@.capabilities.reports_no_hardware()
                &&& e@.encoder_type == e@.capabilities.encoder_type
                &&& e@.using_hardware == e@.capabilities.spec_supports_settings(*settings)
                &&& e@.settings == *settings
                &&& e@.output_path is None
                &&& e@.frame_count == 0
                &&& !e@.is_opened
            },
    {
        validate_video_settings(settings)?;
        let capabilities = HardwareEncoderCapabilities::detect();
        let encoder_type = capabilities.encoder_type;
        let using_hardware = capabilities.supports_settings(settings);
        Ok(HardwareEncoder {
            encoder_type,
            capabilities,
            using_hardware,
            settings: *settings,
            output_path: None,
            frame_count: 0,
            is_opened: false,
        })
    }

    /// Whether any hardware encoder is available on this device.
    pub fn is_available() -> (r: bool)
        ensures
            !r,
    {
        let caps = HardwareEncoderCapabilities::detect();
        caps.encoder_type != HardwareEncoderType::NoHardware
    }

    /// Starts opening the encoder at `output_path`: refused when it is
    /// already open; otherwise records the path and names the encoder to
    /// open. The caller reports the outcome with `mark_opened` or
    /// `fall_back_to_software`.
    pub fn open(&mut self, output_path: &str) -> (r: Result<EncodePath, String>)
        ensures
            old(self)@.is_opened ==> (r matches Err(m) && m@ == "Encoder is already opened"@),
            old(self)@.is_opened ==> final(self)@ == old(self)@,
            !old(self)@.is_opened ==> r == Ok::<EncodePath, String>(path_of(old(self)@.using_hardware)),
            !old(self)@.is_opened ==> final(self)@ == (HardwareEncoderView {
                output_path: Some(output_path@),
                ..old(self)@
            }),
    {
        if self.is_opened {
            return Err(String::from_str("Encoder is already opened"));
        }
        self.output_path = Some(String::from_str(output_path));
        if self.using_hardware {
            Ok(EncodePath::Hardware)
        } else {
            Ok(EncodePath::Software)
        }
    }

    /// Records that the chosen encoder opened.
    pub fn mark_opened(&mut self)
        ensures
            final(self)@ == (HardwareEncoderView { is_opened: true, ..old(self)@ }),
    {
        self.is_opened = true;
    }

    /// Switches from hardware to software encoding after the hardware
    /// encoder failed; the software encoder starts afresh, so the frame
    /// count restarts at zero.
    pub fn fall_back_to_software(&mut self)
        ensures
            final(self)@ == (HardwareEncoderView { using_hardware: false, frame_count: 0, ..old(self)@ }),
    {
        self.frame_count = 0;
        self.using_hardware = false;
    }

    /// The encoder that takes the next frame; refused before the encoder
    /// is opened.
    pub fn frame_path(&self) -> (r: Result<EncodePath, String>)
        ensures
            !self@.is_opened ==> (r matches Err(m) && m@ == "Encoder not opened yet"@),
            self@.is_opened ==> r == Ok::<EncodePath, String>(path_of(self@.using_hardware)),
    {
        if !self.is_opened {
            return Err(String::from_str("Encoder not opened yet"));
        }
        if self.using_hardware {
            Ok(EncodePath::Hardware)
        } else {
            Ok(EncodePath::Software)
        }
    }

    /// Records one more encoded frame.
    pub fn frame_encoded(&mut self)
        requires
            old(self)@.frame_count < u64::MAX,
        ensures
            final(self)@ == (HardwareEncoderView { frame_count: (old(self)@.frame_count + 1) as u64, ..old(self)@ }),
    {
        self.frame_count = self.frame_count + 1;
    }

    /// The encoder that finalizes the output; refused before the encoder
    /// is opened.
    pub fn finish_path(&self) -> (r: Result<EncodePath, String>)
        ensures
            !self@.is_opened ==> (r matches Err(m) && m@ == "Encoder not opened yet"@),
            self@.is_opened ==> r == Ok::<EncodePath, String>(path_of(self@.using_hardware)),
    {
        self.frame_path()
    }

    /// The encoder that a cancelled export cleans up.
    pub fn cancel_path(&self) -> (r: EncodePath)
        ensures
            r == path_of(self@.using_hardware),
    {
        if self.using_hardware {
            EncodePath::Hardware
        } else {
            EncodePath::Software
        }
    }

    /// Whether hardware encoding is in use (not after a fallback).
    pub fn is_hardware_accelerated(&self) -> (r: bool)
        ensures
            r == self@.using_hardware,
    {
        self.using_hardware
    }

    /// The number of frames encoded so far.
    pub fn frame_count(&self) -> (r: u64)
        ensures
            r == self@.frame_count,
    {
        self.frame_count
    }

    /// The detected hardware encoder type.
    pub fn encoder_type(&self) -> (r: HardwareEncoderType)
        ensures
            r == self@.encoder_type,
    {
        self.encoder_type
    }

    /// The detected hardware encoder capabilities.
    pub fn capabilities(&self) -> (r: &HardwareEncoderCapabilities)
        ensures
            *r == self@.capabilities,
    {
        &self.capabilities
    }

    /// The export settings in use.
    pub fn settings(&self) -> (r: &ExportSettings)
        ensures
            *r == self@.settings,
    {
        &self.settings
    }
}

} // verus!
