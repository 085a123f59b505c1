//! An in-memory font face database with CSS-like queries.
//!
//! Callers register faces by loading font binaries, then ask for the best
//! face for a family list, weight, stretch and style, and receive a stable
//! identifier that resolves back to the stored record and its bytes.

pub mod database;
pub mod laws;
pub mod load;
pub mod matching;
pub mod types;

pub use database::Database;
pub use matching::find_best_match;

pub use types::{
    FaceInfo, FaceProperties, Family, ID, LoadError, LoadReport, Query, SkippedFace, Source,
    Stretch, Style, Weight,
};
