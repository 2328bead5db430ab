//! A real-time audio loopback core: a fixed-capacity single-producer /
//! single-consumer ring buffer of samples, the capture and playback callback
//! bodies that feed and drain it, the stream-configuration policy, and the
//! lifecycle state machine that orders start-up and teardown.
//!
//! Samples are carried as the raw bit patterns of `f32` amplitudes, so the
//! buffer moves them bit for bit and silence is the pattern `0` (`+0.0`).

pub mod ring;
pub mod callbacks;
pub mod config;
pub mod lifecycle;
pub mod history;
