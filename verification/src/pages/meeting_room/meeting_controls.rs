//! The row of toggles under the stage: microphone, camera, chat panel.

use vstd::prelude::*;

verus! {

#[derive(Debug, Copy, Clone)]
pub struct MeetingControls {
    pub microphone_muted: bool,
    pub camera_off: bool,
    pub chat_hidden: bool,
}

#[derive(Clone, Copy, Debug)]
pub enum MeetingControlsMessage {
    ToggleMicrophone,
    ToggleCamera,
    ToggleChat,
}

/// The controls after `message`: exactly one switch flipped.
pub open spec fn toggled(c: MeetingControls, message: MeetingControlsMessage) -> MeetingControls {
    match message {
        MeetingControlsMessage::ToggleMicrophone => MeetingControls {
            microphone_muted: !c.microphone_muted,
            ..c
        },
        MeetingControlsMessage::ToggleCamera => MeetingControls { camera_off: !c.camera_off, ..c },
        MeetingControlsMessage::ToggleChat => MeetingControls { chat_hidden: !c.chat_hidden, ..c },
    }
}

/// Pressing the same toggle twice puts everything back.
pub proof fn lemma_toggle_twice(c: MeetingControls, message: MeetingControlsMessage)
    ensures
        toggled(toggled(c, message), message) == c,
{
}

/// Two different toggles can be pressed in either order.
pub proof fn lemma_toggles_commute(
    c: MeetingControls,
    a: MeetingControlsMessage,
    b: MeetingControlsMessage,
)
    ensures
        toggled(toggled(c, a), b) == toggled(toggled(c, b), a),
{
}

impl Default for MeetingControls {
    /// Everything off, chat panel shown.
    fn default() -> (controls: Self)
        ensures
            !controls.microphone_muted,
            !controls.camera_off,
            !controls.chat_hidden,
    {
        Self { microphone_muted: false, camera_off: false, chat_hidden: false }
    }
}

impl MeetingControls {
    /// Microphone and camera on, chat panel hidden.
    pub open spec fn spec_new() -> Self {
        MeetingControls { microphone_muted: false, camera_off: false, chat_hidden: true }
    }

    /// Microphone and camera on, chat panel hidden.
    pub fn new() -> (controls: Self)
        ensures
            controls == Self::spec_new(),
    {
        Self { microphone_muted: false, camera_off: false, chat_hidden: true }
    }

    pub fn update(&mut self, message: MeetingControlsMessage)
        ensures
            *final(self) == toggled(*old(self), message),
    {
        match message {
            MeetingControlsMessage::ToggleMicrophone => {
                self.microphone_muted = !self.microphone_muted;
            },
            MeetingControlsMessage::ToggleCamera => {
                self.camera_off = !self.camera_off;
            },
            MeetingControlsMessage::ToggleChat => {
                self.chat_hidden = !self.chat_hidden;
            },
        }
    }
}

} // verus!
