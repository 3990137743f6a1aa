//! The in-memory schema of a project and the arithmetic of playback time.

pub mod instrument;
pub mod pattern;
pub mod position;
pub mod project;
pub mod sample;
