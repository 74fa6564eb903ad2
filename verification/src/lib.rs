//! Core engines of an arcade survival game: a fixed-tick simulation of a
//! player dodging falling hazards, and a polyphonic audio engine that mixes
//! time-bounded voices into sample buffers.
//!
//! All coordinates, color intensities and audio times are bounded integers:
//! coordinates live in a square grid, color channels are hundredths of full
//! intensity, and the audio clock counts whole samples. Arithmetic on them
//! saturates at the representable bounds instead of wrapping.

pub mod audio;
pub mod color;
pub mod entity;
pub mod geometry;
pub mod input;
pub mod rng;
pub mod sim;
