//! The rendering engine: samplers, voices, pattern walkers and the state of
//! a whole rendering.

pub mod channel;
pub mod effects;
pub mod headroom;
pub mod pattern;
pub mod samplers;
pub mod state;
