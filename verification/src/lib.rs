//! A tracker-style music renderer.
//!
//! A project (samples, instruments, patterns, tracks) is rendered into a pair
//! of stereo buffers, one block per call. Time, amplitudes, gains and pitches
//! are fixed-point integers, so that every step has an exact meaning: see
//! [`fixed`] for the units.

pub mod fixed;

pub mod common;
pub mod curves;
pub mod renderer;
pub mod resample;
pub mod stream;
