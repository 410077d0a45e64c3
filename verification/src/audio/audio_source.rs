//! Capture: the microphone's ring, drained one 10 ms frame at a time.

use vstd::prelude::*;

use rtrb::Consumer;

use super::ring::{pop_all, taken};

verus! {

/// The reading end of the capture ring, with the device's format and the
/// frame size WebRTC takes.
pub struct AudioSource {
    consumer: Consumer<i16>,
    sample_rate: u32,
    channels: u16,
    frame_len: usize,
}

impl AudioSource {
    pub closed spec fn spec_sample_rate(&self) -> u32 {
        self.sample_rate
    }

    pub fn sample_rate(&self) -> (sample_rate: u32)
        ensures
            sample_rate == self.spec_sample_rate(),
    {
        self.sample_rate
    }

    pub closed spec fn spec_channels(&self) -> u16 {
        self.channels
    }

    pub fn channels(&self) -> (channels: u16)
        ensures
            channels == self.spec_channels(),
    {
        self.channels
    }

    pub closed spec fn spec_frame_len(&self) -> usize {
        self.frame_len
    }

    pub fn frame_len(&self) -> (frame_len: usize)
        ensures
            frame_len == self.spec_frame_len(),
    {
        self.frame_len
    }

    pub closed spec fn spec_taken(&self) -> Seq<i16> {
        taken(self.consumer)
    }

    /// A source reading `frame_len`-sample frames out of `consumer`, for a
    /// device running at `sample_rate` with `channels` interleaved channels.
    pub fn from_ring(consumer: Consumer<i16>, sample_rate: u32, channels: u16, frame_len: usize) -> (source: Self)
        ensures
            source.spec_taken() == taken(consumer),
            source.spec_sample_rate() == sample_rate,
            source.spec_channels() == channels,
            source.spec_frame_len() == frame_len,
    {
        Self { consumer, sample_rate, channels, frame_len }
    }

    /// Fills `out` with one 10 ms frame. Returns `false` if the mic hasn't
    /// buffered a whole frame yet, leaving `out` untouched. A frame of no
    /// samples is always ready; whether a longer one is depends on the
    /// capture thread.
    pub fn pop_frame(&mut self, out: &mut Vec<i16>) -> (filled: bool)
        ensures
            final(self).spec_sample_rate() == old(self).spec_sample_rate(),
            final(self).spec_channels() == old(self).spec_channels(),
            final(self).spec_frame_len() == old(self).spec_frame_len(),
            old(self).spec_frame_len() == 0 ==> filled,
            filled ==> final(out)@.len() == old(self).spec_frame_len(),
            filled ==> final(self).spec_taken() == old(self).spec_taken() + final(out)@,
            !filled ==> final(out)@ == old(out)@,
            !filled ==> final(self).spec_taken() == old(self).spec_taken(),
    {
        let mut frame: Vec<i16> = vec![0i16; self.frame_len];
        match pop_all(&mut self.consumer, &mut frame) {
            Ok(()) => {
                out.clear();
                out.extend_from_slice(frame.as_slice());
                assert(out@ =~= frame@);
                true
            },
            Err(_) => false,
        }
    }
}

} // verus!
