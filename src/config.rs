//! Stream configurations, the policy that picks one from what a device
//! advertises, the check that a capture and a playback configuration can
//! be looped into each other, and the sizing of the ring buffer.

use vstd::prelude::*;

verus! {

/// The sample format of a stream. The loopback moves `f32` samples only;
/// every other format a device may offer is `Other`.
#[derive(PartialEq, Eq, Structural, Debug, Clone, Copy)]
pub enum SampleFormat {
    F32,
    Other,
}

/// One range of configurations that a device supports.
#[derive(PartialEq, Eq, Structural, Debug, Clone, Copy)]
pub struct ConfigRange {
    pub channels: u16,
    pub min_sample_rate: u32,
    pub max_sample_rate: u32,
    pub sample_format: SampleFormat,
}

/// A concrete stream configuration.
#[derive(PartialEq, Eq, Structural, Debug, Clone, Copy)]
pub struct StreamConfig {
    pub sample_rate: u32,
    pub channels: u16,
    pub sample_format: SampleFormat,
}

/// Why the loopback could not be set up. Each of these is fatal to
/// start-up.
#[derive(PartialEq, Eq, Structural, Debug, Clone, Copy)]
pub enum SetupError {
    NoDeviceAvailable,
    NoSupportedConfig,
    UnsupportedSampleFormat,
    SampleRateMismatch,
    ChannelCountMismatch,
    BufferTooLarge,
    StreamStartFailed,
}

/// The configuration of `r` at its highest sample rate.
pub open spec fn at_max_rate(r: ConfigRange) -> StreamConfig {
    StreamConfig {
        sample_rate: r.max_sample_rate,
        channels: r.channels,
        sample_format: r.sample_format,
    }
}

/// The default-pick policy: the first advertised range, at its highest
/// sample rate.
pub open spec fn default_pick(ranges: Seq<ConfigRange>) -> Result<StreamConfig, SetupError> {
    if ranges.len() == 0 {
        Err(SetupError::NoSupportedConfig)
    } else {
        Ok(at_max_rate(ranges[0]))
    }
}

/// What is wrong with looping `input` into `output`, checked in this
/// order: a format other than `f32` on either side, then differing sample
/// rates, then differing channel counts.
pub open spec fn pairing_error(input: StreamConfig, output: StreamConfig) -> Option<SetupError> {
    if input.sample_format != SampleFormat::F32 || output.sample_format != SampleFormat::F32 {
        Some(SetupError::UnsupportedSampleFormat)
    } else if input.sample_rate != output.sample_rate {
        Some(SetupError::SampleRateMismatch)
    } else if input.channels != output.channels {
        Some(SetupError::ChannelCountMismatch)
    } else {
        None
    }
}

/// Frames that `latency_ms` milliseconds at `rate` Hz span, at least one.
pub open spec fn latency_frames(rate: u32, latency_ms: u32) -> int {
    let f = (rate as int * latency_ms as int) / 1000;
    if f == 0 {
        1
    } else {
        f
    }
}

/// Samples a ring buffer needs to absorb `latency_ms` milliseconds of
/// interleaved audio in configuration `c`.
pub open spec fn capacity_needed(c: StreamConfig, latency_ms: u32) -> int {
    latency_frames(c.sample_rate, latency_ms) * c.channels as int
}

impl ConfigRange {
    /// This range's configuration at its highest sample rate.
    pub fn with_max_sample_rate(&self) -> (r: StreamConfig)
        ensures
            r == at_max_rate(*self),
    {
        StreamConfig {
            sample_rate: self.max_sample_rate,
            channels: self.channels,
            sample_format: self.sample_format,
        }
    }
}

/// Picks a stream configuration from the ranges a device advertises, in
/// the order it advertises them: the first range, at its highest sample
/// rate. This is a fixed, deterministic policy, not a search for the best
/// configuration; a device advertising nothing is `NoSupportedConfig`.
pub fn default_config(ranges: &[ConfigRange]) -> (r: Result<StreamConfig, SetupError>)
    ensures
        r == default_pick(ranges@),
{
    if ranges.len() == 0 {
        Err(SetupError::NoSupportedConfig)
    } else {
        Ok(ranges[0].with_max_sample_rate())
    }
}

/// Accepts a capture and a playback configuration only when both carry
/// `f32` samples at the same rate and with the same channel count; there
/// is no resampling or remixing.
pub fn check_pairing(input: &StreamConfig, output: &StreamConfig) -> (r: Result<(), SetupError>)
    ensures
        r == match pairing_error(*input, *output) {
            None => Ok(()),
            Some(e) => Err(e),
        },
{
    if input.sample_format != SampleFormat::F32 || output.sample_format != SampleFormat::F32 {
        Err(SetupError::UnsupportedSampleFormat)
    } else if input.sample_rate != output.sample_rate {
        Err(SetupError::SampleRateMismatch)
    } else if input.channels != output.channels {
        Err(SetupError::ChannelCountMismatch)
    } else {
        Ok(())
    }
}

/// The ring-buffer capacity, in samples, that holds `latency_ms`
/// milliseconds of audio in configuration `c` (at least one frame), or
/// `None` when that does not fit in `usize`.
pub fn buffer_capacity(c: &StreamConfig, latency_ms: u32) -> (r: Option<usize>)
    ensures
        r == if capacity_needed(*c, latency_ms) <= usize::MAX {
            Some(capacity_needed(*c, latency_ms) as usize)
        } else {
            None::<usize>
        },
{
    let rate = c.sample_rate as u64;
    let ms = latency_ms as u64;
    assert(rate * ms <= u32::MAX as int * u32::MAX as int) by (nonlinear_arith)
        requires
            rate <= u32::MAX,
            ms <= u32::MAX,
    ;
    let mut frames: u64 = rate * ms / 1000;
    if frames == 0 {
        frames = 1;
    }
    if c.channels == 0 {
        return Some(0);
    }
    if frames > usize::MAX as u64 {
        assert(frames * c.channels >= frames) by (nonlinear_arith)
            requires
                c.channels >= 1,
        ;
        return None;
    }
    let f = frames as usize;
    let r = f.checked_mul(c.channels as usize);
    proof {
        if capacity_needed(*c, latency_ms) <= usize::MAX {
            assert(r.is_some());
        }
    }
    r
}

} // verus!
