//! The .epp project file: its format version and migration, its metadata,
//! and the CRC32 checksum of the project data.

use vstd::prelude::*;
use crate::project::{now_millis, Project};
use crate::text::{hex_digits, push_hex_digits};

verus! {

/// Metadata about the .epp file itself.
#[derive(Debug, Clone)]
pub struct EppMetadata {
    pub created_with: String,
    pub created_at: i64,
    /// CRC32 checksum of the project.json content, `None` for files that
    /// predate checksums.
    pub checksum: Option<String>,
    /// Modified timestamp (set on save).
    pub modified_at: Option<i64>,
}

/// The CRC-32 (ISO 3309 / ITU-T V.42 polynomial, as zip uses it) of a byte
/// sequence.
pub uninterp spec fn crc32_of(data: Seq<u8>) -> u32;

/// `crc32fast::hash`: the CRC-32 of `data`. The contract names the result;
/// the polynomial arithmetic is not restated.
#[verifier::external_body]
fn crc32_hash(data: &[u8]) -> (r: u32)
    ensures
        r == crc32_of(data@),
{
    crc32fast::hash(data)
}

/// Renders a checksum as 8 lowercase hexadecimal digits, zero-padded.
pub fn checksum_text(crc: u32) -> (r: String)
    ensures
        r@ == hex_digits(crc as nat, 8),
{
    let mut s = String::new();
    push_hex_digits(&mut s, crc as u64, 8);
    s
}

/// The CRC-32 checksum of `data` as a zero-padded 8-character lowercase hex
/// string (e.g. `cbf43926`).
pub fn compute_checksum(data: &[u8]) -> (r: String)
    ensures
        r@ == hex_digits(crc32_of(data@) as nat, 8),
{
    checksum_text(crc32_hash(data))
}

/// The version of the .epp format this engine writes.
pub const FORMAT_VERSION: u32 = 1;

/// A project as an .epp file holds it: the format version, the project and
/// the file's metadata.
#[derive(Debug, Clone)]
pub struct EppFormat {
    pub version: u32,
    pub project: Project,
    pub metadata: EppMetadata,
}

/// What migrating a file of a format version gives: the current version
/// for version 0 (the legacy format), the same version otherwise (the
/// current one, or a newer one loaded as it is).
pub open spec fn migrated_version(version: u32) -> u32 {
    if version == 0 {
        FORMAT_VERSION
    } else {
        version
    }
}

impl EppFormat {
    /// Wraps a copy of the project at the current format version, created
    /// now by this engine, with no checksum or modification time yet.
    pub fn from_project(project: &Project) -> (r: Self)
        ensures
            r.version == FORMAT_VERSION,
            r.metadata.created_with@ == "EDITORS-PRO Engine v0.1.0"@,
            r.metadata.checksum is None,
            r.metadata.modified_at is None,
    {
        let mut created_with = String::from_str("EDITORS-PRO Engine v");
        created_with.append(crate::engine_version());
        proof {
            reveal_strlit("EDITORS-PRO Engine v");
            reveal_strlit("0.1.0");
            reveal_strlit("EDITORS-PRO Engine v0.1.0");
            assert(created_with@ =~= "EDITORS-PRO Engine v0.1.0"@);
        }
        EppFormat {
            version: FORMAT_VERSION,
            project: project.clone(),
            metadata: EppMetadata {
                created_with,
                created_at: now_millis(),
                checksum: None,
                modified_at: None,
            },
        }
    }

    /// The project inside.
    pub fn to_project(self) -> (r: Project)
        ensures
            r == self.project,
    {
        self.project
    }

    /// Brings a loaded file to the current format: a legacy (version 0)
    /// file is relabelled with the current version; the current and newer
    /// versions are kept as they are. The project and metadata are kept.
    pub fn migrate(format: EppFormat) -> (r: Result<EppFormat, String>)
        ensures
            r matches Ok(f) && f.version == migrated_version(format.version) && f.project == format.project
                && f.metadata == format.metadata,
    {
        if format.version == 0 {
            Ok(EppFormat { version: FORMAT_VERSION, ..format })
        } else {
            Ok(format)
        }
    }

    /// The format version this engine writes.
    pub fn current_version() -> (r: u32)
        ensures
            r == FORMAT_VERSION,
    {
        FORMAT_VERSION
    }
}

} // verus!
