//! Project data: media assets, project metadata and the exchange formats.

pub mod clip;
pub mod format;
pub mod interop;
pub mod keyframes;
pub mod project;
pub mod timeline;
pub mod track;

use vstd::prelude::*;
use crate::project::timeline::Timeline;

verus! {

/// The file name of a path, as `Path::file_name` finds it: the last
/// component, or none when the path ends in `..` or has no normal last
/// component.
pub uninterp spec fn path_file_name(path: Seq<char>) -> Option<Seq<char>>;

/// `Path::file_name` on a path given as text, with the name returned as
/// text. The contract only names the result; the component rules of
/// `std::path` are not restated.
#[verifier::external_body]
pub(crate) fn file_name_of(path: &str) -> (r: Option<String>)
    ensures
        match r {
            Some(f) => path_file_name(path@) == Some(f@),
            None => path_file_name(path@) is None,
        },
{
    std::path::Path::new(path).file_name().map(|f| f.to_string_lossy().into_owned())
}

/// A lowercase hexadecimal digit character.
pub open spec fn is_lower_hex(c: char) -> bool {
    ('0' <= c && c <= '9') || ('a' <= c && c <= 'f')
}

/// The text of a random (version 4) UUID in hyphenated lowercase form:
/// 36 characters, hyphens at 8, 13, 18 and 23, lowercase hexadecimal
/// digits elsewhere, version digit `4` at 14 and a variant digit from
/// `8`, `9`, `a`, `b` at 19.
pub open spec fn is_uuid_v4_text(s: Seq<char>) -> bool {
    &&& s.len() == 36
    &&& forall|i: int| 0 <= i < 36 ==> (if i == 8 || i == 13 || i == 18 || i == 23 {
        #[trigger] s[i] == '-'
    } else {
        is_lower_hex(s[i])
    })
    &&& s[14] == '4'
    &&& (s[19] == '8' || s[19] == '9' || s[19] == 'a' || s[19] == 'b')
}

/// `uuid::Uuid::new_v4`, rendered by its `Display` impl (hyphenated,
/// lowercase). The value is random; the contract states the shape every
/// outcome has (the source masks in the version and variant bits). The
/// call panics when the operating system's random source fails.
#[verifier::external_body]
pub(crate) fn new_uuid_v4_text() -> (r: String)
    ensures
        is_uuid_v4_text(r@),
{
    uuid::Uuid::new_v4().to_string()
}

/// `chrono::Utc::now`, as milliseconds since the Unix epoch. It reads the
/// clock, so nothing is promised of it.
#[verifier::external_body]
pub(crate) fn now_millis() -> i64 {
    chrono::Utc::now().timestamp_millis()
}

/// Proxy quality for smooth editing on weak devices.
#[derive(Debug, Clone, Copy, PartialEq, Eq, Structural)]
pub enum ProxyQuality {
    Quarter,
    Half,
    ThreeQuarter,
}

/// Type of media.
#[derive(Debug, Clone, Copy, PartialEq, Eq, Structural)]
pub enum MediaType {
    Video,
    Audio,
    Image,
}

/// A media asset imported into the project.
#[derive(Debug, Clone)]
pub struct MediaAsset {
    pub id: String,
    pub file_path: String,
    pub file_name: String,
    pub media_type: MediaType,
    pub duration_ms: Option<u64>,
    pub width: Option<u32>,
    pub height: Option<u32>,
    pub file_size_bytes: u64,
    pub codec: Option<String>,
    pub bitrate: Option<u64>,
    pub import_date: i64,
    pub thumbnail_path: Option<String>,
}

/// The file name a media asset is listed under: the file name of its path,
/// or `unknown` when the path has none.
pub open spec fn asset_file_name(path: Seq<char>) -> Seq<char> {
    match path_file_name(path) {
        Some(f) => f,
        None => "unknown"@,
    }
}

impl MediaAsset {
    /// Creates a media asset for the file at `file_path`, of
    /// `file_size_bytes` bytes, with a fresh random id and the current time
    /// as import date.
    pub fn new(file_path: &str, media_type: MediaType, file_size_bytes: u64) -> (r: Self)
        ensures
            is_uuid_v4_text(r.id@),
            r.file_path@ == file_path@,
            r.file_name@ == asset_file_name(file_path@),
            r.media_type == media_type,
            r.duration_ms is None,
            r.width is None,
            r.height is None,
            r.file_size_bytes == file_size_bytes,
            r.codec is None,
            r.bitrate is None,
            r.thumbnail_path is None,
    {
        let file_name = match file_name_of(file_path) {
            Some(f) => f,
            None => String::from_str("unknown"),
        };
        MediaAsset {
            id: new_uuid_v4_text(),
            file_path: String::from_str(file_path),
            file_name,
            media_type,
            duration_ms: None,
            width: None,
            height: None,
            file_size_bytes,
            codec: None,
            bitrate: None,
            import_date: now_millis(),
            thumbnail_path: None,
        }
    }

    /// Checks if this asset is a video.
    pub fn is_video(&self) -> (r: bool)
        ensures
            r == (self.media_type == MediaType::Video),
    {
        match self.media_type {
            MediaType::Video => true,
            _ => false,
        }
    }

    /// Checks if this asset is audio.
    pub fn is_audio(&self) -> (r: bool)
        ensures
            r == (self.media_type == MediaType::Audio),
    {
        match self.media_type {
            MediaType::Audio => true,
            _ => false,
        }
    }

    /// Checks if this asset is an image.
    pub fn is_image(&self) -> (r: bool)
        ensures
            r == (self.media_type == MediaType::Image),
    {
        match self.media_type {
            MediaType::Image => true,
            _ => false,
        }
    }
}


/// The bits of `30.0_f32`: the default frame rate.
pub const DEFAULT_FPS_BITS: u32 = 0x41F0_0000;

/// Project-level settings.
#[derive(Debug, Clone)]
pub struct ProjectSettings {
    pub width: u32,
    pub height: u32,
    /// The bits of an `f32` frame rate.
    pub fps_bits: u32,
    pub sample_rate: u32,
    pub background_color: String,
    pub auto_save_interval_ms: u64,
    pub proxy_enabled: bool,
    pub proxy_quality: ProxyQuality,
}

impl Default for ProjectSettings {
    /// 1080p at 30 fps, 44.1 kHz, black background, auto-save every 30 s,
    /// half-size proxies.
    fn default() -> (r: Self)
        ensures
            r.width == 1920,
            r.height == 1080,
            r.fps_bits == DEFAULT_FPS_BITS,
            r.sample_rate == 44100,
            r.background_color@ == "#000000"@,
            r.auto_save_interval_ms == 30000,
            r.proxy_enabled,
            r.proxy_quality == ProxyQuality::Half,
    {
        ProjectSettings {
            width: 1920,
            height: 1080,
            fps_bits: DEFAULT_FPS_BITS,
            sample_rate: 44100,
            background_color: String::from_str("#000000"),
            auto_save_interval_ms: 30000,
            proxy_enabled: true,
            proxy_quality: ProxyQuality::Half,
        }
    }
}

/// A complete editing project.
#[derive(Debug, Clone)]
pub struct Project {
    /// A random version 4 UUID, hyphenated and lowercase.
    pub id: String,
    pub name: String,
    /// Creation time (Unix epoch ms).
    pub created_at: i64,
    /// Last change (Unix epoch ms).
    pub updated_at: i64,
    pub settings: ProjectSettings,
    pub timeline: Timeline,
    pub media_assets: Vec<MediaAsset>,
    pub thumbnail_path: Option<String>,
}

/// Whether asset `i` has the id.
pub open spec fn has_asset_id(s: Seq<MediaAsset>, i: int, id: Seq<char>) -> bool {
    s[i].id@ == id
}

/// The first asset with the id (the number of assets when there is none).
pub open spec fn asset_position(s: Seq<MediaAsset>, id: Seq<char>) -> int {
    crate::effects::first_where(s.len() as int, |i: int| has_asset_id(s, i, id))
}

impl Project {
    /// A new project with the given settings, an empty timeline, no media
    /// and no thumbnail, created and updated now.
    pub fn with_settings(name: &str, settings: ProjectSettings) -> (r: Self)
        ensures
            is_uuid_v4_text(r.id@),
            r.name@ == name@,
            r.created_at == r.updated_at,
            r.settings == settings,
            r.timeline.tracks@.len() == 0 && r.timeline.markers@.len() == 0,
            r.timeline.regions@.len() == 0 && r.timeline.timebase == 30,
            r.media_assets@.len() == 0,
            r.thumbnail_path is None,
    {
        let now = now_millis();
        Project {
            id: new_uuid_v4_text(),
            name: String::from_str(name),
            created_at: now,
            updated_at: now,
            settings,
            timeline: Timeline::new(),
            media_assets: Vec::new(),
            thumbnail_path: None,
        }
    }

    /// A new project with the default settings.
    pub fn new(name: &str) -> (r: Self)
        ensures
            is_uuid_v4_text(r.id@),
            r.name@ == name@,
            r.created_at == r.updated_at,
            r.settings.width == 1920 && r.settings.height == 1080 && r.settings.fps_bits == DEFAULT_FPS_BITS,
            r.settings.sample_rate == 44100 && r.settings.background_color@ == "#000000"@,
            r.settings.auto_save_interval_ms == 30000 && r.settings.proxy_enabled,
            r.settings.proxy_quality == ProxyQuality::Half,
            r.timeline.tracks@.len() == 0 && r.timeline.markers@.len() == 0,
            r.timeline.regions@.len() == 0 && r.timeline.timebase == 30,
            r.media_assets@.len() == 0,
            r.thumbnail_path is None,
    {
        Project::with_settings(name, ProjectSettings::default())
    }

    /// Adds a media asset at the end and marks the project as changed now.
    pub fn add_media_asset(&mut self, asset: MediaAsset)
        ensures
            final(self).media_assets@ == old(self).media_assets@.push(asset),
            *final(self) == (Project {
                media_assets: final(self).media_assets,
                updated_at: final(self).updated_at,
                ..*old(self)
            }),
    {
        self.updated_at = now_millis();
        self.media_assets.push(asset);
    }

    /// Removes the first asset with the id and returns it.
    pub fn remove_media_asset(&mut self, asset_id: &str) -> (r: Option<MediaAsset>)
        ensures
            *final(self) == (Project { media_assets: final(self).media_assets, ..*old(self) }),
            ({
                let i = asset_position(old(self).media_assets@, asset_id@);
                &&& r is Some <==> i < old(self).media_assets@.len()
                &&& r matches Some(a) ==> a == old(self).media_assets@[i]
                    && final(self).media_assets@ == old(self).media_assets@.remove(i)
                &&& r is None ==> final(self).media_assets@ == old(self).media_assets@
            }),
    {
        match self.asset_index(asset_id) {
            Some(i) => Some(self.media_assets.remove(i)),
            None => None,
        }
    }

    /// The first asset with the id, if any.
    pub fn find_media_asset(&self, asset_id: &str) -> (r: Option<&MediaAsset>)
        ensures
            ({
                let i = asset_position(self.media_assets@, asset_id@);
                &&& r is Some <==> i < self.media_assets@.len()
                &&& r matches Some(a) ==> *a == self.media_assets@[i]
            }),
    {
        match self.asset_index(asset_id) {
            Some(i) => Some(&self.media_assets[i]),
            None => None,
        }
    }

    /// The position of the first asset with the id, if any.
    fn asset_index(&self, asset_id: &str) -> (r: Option<usize>)
        ensures
            r is Some <==> asset_position(self.media_assets@, asset_id@) < self.media_assets@.len(),
            r matches Some(i) ==> i == asset_position(self.media_assets@, asset_id@) && i < self.media_assets@.len(),
    {
        let ghost s = self.media_assets@;
        let ghost p = |i: int| has_asset_id(s, i, asset_id@);
        let mut i: usize = 0;
        while i < self.media_assets.len()
            invariant
                s == self.media_assets@,
                p == (|i: int| has_asset_id(s, i, asset_id@)),
                i <= s.len(),
                forall|j: int| 0 <= j < i ==> !#[trigger] p(j),
            decreases s.len() - i,
        {
            if crate::text::str_equals(self.media_assets[i].id.as_str(), asset_id) {
                proof { crate::effects::lemma_first_where(s.len() as int, p, i as int); }
                return Some(i);
            }
            i = i + 1;
        }
        proof { crate::effects::lemma_first_where(s.len() as int, p, i as int); }
        None
    }

    /// Marks the project as changed now.
    pub fn touch(&mut self)
        ensures
            *final(self) == (Project { updated_at: final(self).updated_at, ..*old(self) }),
    {
        self.updated_at = now_millis();
    }
}

} // verus!
