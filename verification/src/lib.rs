//! The sampling engine and the light interface of a physically based
//! renderer, in exact arithmetic.
//!
//! Samples are rational numbers of the unit interval, positions are points of
//! an integer grid, and radiometric values keep their irrational factors
//! apart, so that every result is stated, and proved, without rounding.

pub mod geometry;
pub mod interaction;
pub mod light;
pub mod lights;
pub mod medium;
pub mod paramset;
pub mod rng;
pub mod sample;
pub mod sampler;
pub mod samplers;
pub mod sampling;
pub mod spectrum;
pub mod transform;
