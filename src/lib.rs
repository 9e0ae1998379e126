//! Keyframe detection over grayscale video frames.
//!
//! The library computes, for each adjacent pair of fixed-size grayscale
//! frames, the mean absolute per-pixel difference, and selects as keyframes
//! the frames whose difference from their predecessor exceeds a threshold.
//! Every function is verified against a mathematical model of the pixel data.

pub mod capability;
pub mod engine;
pub mod error;
pub mod export;
pub mod extractor;
pub mod frame;
pub mod kernel;
mod parallel;
pub mod reader;
pub mod score;
pub mod select;
pub mod probe;
