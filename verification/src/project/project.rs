//! Project file metadata.

use vstd::prelude::*;

verus! {

/// Project metadata stored alongside the project.
#[derive(Debug, Clone)]
pub struct ProjectMetadata {
    pub author: String,
    pub description: String,
    pub tags: Vec<String>,
    pub version: String,
}

impl Default for ProjectMetadata {
    /// Empty metadata stamped with the engine version.
    fn default() -> (r: Self)
        ensures
            r.author@.len() == 0,
            r.description@.len() == 0,
            r.tags@.len() == 0,
            r.version@ == "0.1.0"@,
    {
        ProjectMetadata {
            author: String::new(),
            description: String::new(),
            tags: Vec::new(),
            version: String::from_str(crate::engine_version()),
        }
    }
}

} // verus!
