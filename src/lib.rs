//! Terminal dashboard text layout: grapheme-aware width measurement,
//! truncation and alignment, column grids, and the pipeline/job overview
//! built on top of them.

pub mod text;
pub mod layout;
pub mod format;
pub mod model;
pub mod jobs;
pub mod overview;
pub mod origin;
pub mod poll;
