//! A fixed-latency stereo delay line.
//!
//! The library buffers two synchronized channels of audio samples and
//! re-emits them after a configurable number of sample-frames, preserving
//! exact sample order and inter-channel synchronization.

pub mod buffer;
pub mod engine;
pub mod laws;
pub mod notify;
