//! A spatial audio mixer: sound sources that move in space are mixed into one
//! interleaved multi-channel stream, each source attenuated, and optionally
//! delayed, by its distance to the listener of each channel.
//!
//! The mixer is pulled: each call of `LocatedSources::next` produces one
//! sample, for each output channel in turn. Other threads reach it through
//! channels only, and what they send takes effect when the mixer next starts
//! with the first channel.
//!
//! All arithmetic is on whole numbers. Samples are signed 16-bit amplitudes,
//! positions lie on an integer grid, and gains and rates are fixed-point
//! numbers in units of `1 / 65536`.
//!
//! - `sample`: samples, gains, and where samples come from
//! - `geometry`: positions and the distance between them
//! - `propagation`: how distance weakens and delays a sound
//! - `delay_buffer`: what is due on each output channel
//! - `control`: the channels that requests arrive on
//! - `located_source`: the sources and the mixer
//! - `cycle`: what holds of the mixer over whole cycles

pub mod control;
pub mod cycle;
pub mod delay_buffer;
pub mod geometry;
pub mod located_source;
pub mod propagation;
pub mod sample;
