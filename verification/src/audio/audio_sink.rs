//! Playback: decoded remote audio into the output ring.

use vstd::prelude::*;

use rtrb::Producer;

use super::ring::{free_slots, known_free, push_all, written};

verus! {

/// The writing end of the playback ring, with the device's format.
pub struct AudioSink {
    producer: Producer<i16>,
    sample_rate: u32,
    channels: u16,
}

impl AudioSink {
    pub closed spec fn spec_sample_rate(&self) -> u32 {
        self.sample_rate
    }

    pub fn sample_rate(&self) -> (sample_rate: u32)
        ensures
            sample_rate == self.spec_sample_rate(),
    {
        self.sample_rate
    }

    pub closed spec fn spec_channels(&self) -> u16 {
        self.channels
    }

    pub fn channels(&self) -> (channels: u16)
        ensures
            channels == self.spec_channels(),
    {
        self.channels
    }

    pub closed spec fn spec_written(&self) -> Seq<i16> {
        written(self.producer)
    }

    /// A sink writing into `producer` for a device running at `sample_rate`
    /// with `channels` interleaved channels.
    pub fn from_ring(producer: Producer<i16>, sample_rate: u32, channels: u16) -> (sink: Self)
        ensures
            sink.spec_written() == written(producer),
            sink.spec_sample_rate() == sample_rate,
            sink.spec_channels() == channels,
    {
        Self { producer, sample_rate, channels }
    }

    /// The free slots this sink knows of: at least that many are free.
    pub closed spec fn spec_known_free(&self) -> nat {
        known_free(self.producer)
    }

    /// Queues as much of `samples` as `free` slots hold, where `free` is at
    /// most what the sink knows to be free: the first
    /// `fill_len(samples.len(), free)` of them go into the ring, the rest is
    /// dropped. Returns how many were queued.
    pub(crate) fn push_within(&mut self, samples: &[i16], free: usize) -> (queued: usize)
        requires
            free <= old(self).spec_known_free(),
        ensures
            final(self).spec_sample_rate() == old(self).spec_sample_rate(),
            final(self).spec_channels() == old(self).spec_channels(),
            queued == spec_fill_len(samples@.len() as int, free as int),
            final(self).spec_written() == old(self).spec_written() + samples@.take(queued as int),
            final(self).spec_known_free() == old(self).spec_known_free() - queued,
    {
        let take = fill_len(samples.len(), free);
        let chunk = vstd::slice::slice_subrange(samples, 0, take);
        match push_all(&mut self.producer, chunk) {
            Ok(()) => {
                assert(samples@.subrange(0, take as int) =~= samples@.take(take as int));
                take
            },
            Err(_) => {
                assert(false);
                0
            },
        }
    }

    /// Queues as much of `samples` as the ring has room for right now (the
    /// free slots it reports at the call); the rest is dropped. Returns how
    /// many were queued, the first that many of `samples`: all of them, or
    /// as many as filled every slot the ring had free.
    pub fn push(&mut self, samples: &[i16]) -> (queued: usize)
        ensures
            final(self).spec_sample_rate() == old(self).spec_sample_rate(),
            final(self).spec_channels() == old(self).spec_channels(),
            queued <= samples@.len(),
            final(self).spec_written() == old(self).spec_written() + samples@.take(queued as int),
            queued < samples@.len() ==> final(self).spec_known_free() == 0,
    {
        let free = free_slots(&mut self.producer);
        self.push_within(samples, free)
    }
}

/// The smaller of `len` and `free`.
pub open spec fn spec_fill_len(len: int, free: int) -> int {
    if len < free {
        len
    } else {
        free
    }
}

/// How many of `len` samples fit into `free` slots.
pub fn fill_len(len: usize, free: usize) -> (n: usize)
    ensures
        n == spec_fill_len(len as int, free as int),
{
    if len < free {
        len
    } else {
        free
    }
}

} // verus!
