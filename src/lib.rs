//! A verified codec for 16-bit PCM WAV audio, an in-memory stereo sample
//! buffer with its combinators, and simple sample effects.

pub mod codec;
pub mod container;
pub mod effects;
pub mod error;
pub mod sample;
pub mod wave;
