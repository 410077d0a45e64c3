//! Audio plumbing between the sound devices and WebRTC's 10 ms frames,
//! through a lock-free ring of interleaved PCM16 samples.

use vstd::prelude::*;

pub mod audio_sink;
pub mod audio_source;
pub mod ring;

verus! {

/// `a * b`, or `u32::MAX` when that does not fit.
pub open spec fn saturating_product(a: int, b: int) -> int {
    if a * b > u32::MAX {
        u32::MAX as int
    } else {
        a * b
    }
}

/// Samples in about 200 ms of interleaved audio: the ring's capacity.
pub open spec fn spec_ring_capacity(sample_rate: u32, channels: u16) -> int {
    saturating_product(saturating_product(sample_rate as int, channels as int), 200) / 1000
}

fn saturating_mul(a: u32, b: u32) -> (product: u32)
    ensures
        product == saturating_product(a as int, b as int),
{
    match a.checked_mul(b) {
        Some(p) => p,
        None => u32::MAX,
    }
}

/// Slots for about 200 ms of interleaved samples, computed in `u32` with
/// saturation as the device callback sees it.
pub fn ring_capacity(sample_rate: u32, channels: u16) -> (capacity: usize)
    ensures
        capacity == spec_ring_capacity(sample_rate, channels),
{
    let per_second = saturating_mul(sample_rate, channels as u32);
    let slots = saturating_mul(per_second, 200) / 1000;
    slots as usize
}

/// Interleaved samples in one 10 ms frame, when that fits in a `u32`.
pub open spec fn frame_samples(sample_rate: u32, channels: u16) -> Option<int> {
    if (sample_rate / 100) * channels > u32::MAX {
        None
    } else {
        Some((sample_rate / 100) * channels)
    }
}

/// Samples per 10 ms frame, interleaved. Fixed for the life of a stream, so
/// the fallible arithmetic happens once.
pub fn frame_len(sample_rate: u32, channels: u16) -> (len: Result<usize, String>)
    ensures
        match len {
            Ok(n) => frame_samples(sample_rate, channels) == Some(n as int),
            Err(e) => frame_samples(sample_rate, channels) is None && e@
                == "Overflow in audio frame length calculation"@,
        },
{
    let per_channel = sample_rate / 100;
    match per_channel.checked_mul(channels as u32) {
        Some(samples) => Ok(samples as usize),
        None => Err(String::from_str("Overflow in audio frame length calculation")),
    }
}

/// Samples per channel in one 10 ms frame.
pub fn samples_per_channel(sample_rate: u32) -> (samples: u32)
    ensures
        samples == sample_rate / 100,
{
    sample_rate / 100
}

} // verus!
