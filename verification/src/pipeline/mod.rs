//! Preview and render pipelines: their quality settings.

pub mod preview_pipeline;
pub mod render_pipeline;
