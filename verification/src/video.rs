//! Decoded video frames as the UI passes them around. The pixel buffer is
//! carried through untouched; only its id and orientation are read here.

use vstd::prelude::*;

pub mod pipeline;
pub mod video_source;

verus! {

/// How a frame has to be turned to appear upright.
#[derive(Clone, Copy, Debug, PartialEq, Eq)]
pub enum VideoRotation {
    VideoRotation0,
    VideoRotation90,
    VideoRotation180,
    VideoRotation270,
}

/// One decoded frame, ready to hand to the GPU.
#[derive(Clone, Debug)]
pub struct Frame<B> {
    buffer: B,
    id: u64,
    rotation: VideoRotation,
}

impl<B> Frame<B> {
    pub fn new(buffer: B, id: u64, rotation: VideoRotation) -> (frame: Self)
        ensures
            frame.spec_buffer() == buffer,
            frame.spec_id() == id,
            frame.spec_rotation() == rotation,
    {
        Self { buffer, id, rotation }
    }

    pub closed spec fn spec_buffer(&self) -> B {
        self.buffer
    }

    pub closed spec fn spec_id(&self) -> u64 {
        self.id
    }

    pub closed spec fn spec_rotation(&self) -> VideoRotation {
        self.rotation
    }

    pub fn buffer(&self) -> (buffer: &B)
        ensures
            *buffer == self.spec_buffer(),
    {
        &self.buffer
    }

    pub fn id(&self) -> (id: u64)
        ensures
            id == self.spec_id(),
    {
        self.id
    }

    pub fn rotation(&self) -> (rotation: VideoRotation)
        ensures
            rotation == self.spec_rotation(),
    {
        self.rotation
    }
}

/// Clockwise quarter turns for a rotation.
pub open spec fn spec_quarter_turns(rotation: VideoRotation) -> u32 {
    match rotation {
        VideoRotation::VideoRotation0 => 0,
        VideoRotation::VideoRotation90 => 1,
        VideoRotation::VideoRotation180 => 2,
        VideoRotation::VideoRotation270 => 3,
    }
}

/// The rotation as clockwise quarter turns, as the shader takes it.
pub fn quarter_turns(rotation: VideoRotation) -> (turns: u32)
    ensures
        turns == spec_quarter_turns(rotation),
        turns < 4,
{
    match rotation {
        VideoRotation::VideoRotation0 => 0,
        VideoRotation::VideoRotation90 => 1,
        VideoRotation::VideoRotation180 => 2,
        VideoRotation::VideoRotation270 => 3,
    }
}

/// The extent that a frame with this rotation shows across and down:
/// a quarter turn swaps width and height.
pub fn displayed_size(width: u32, height: u32, turns: u32) -> (size: (u32, u32))
    ensures
        size == (if turns % 2 == 0 {
            (width, height)
        } else {
            (height, width)
        }),
{
    if turns % 2 == 0 {
        (width, height)
    } else {
        (height, width)
    }
}

} // verus!
