//! The decisions of the room loop: what each room event does to the loop's
//! state (who is here, which remote streams play, the camera, the frame
//! counter) and what the caller has to do about it — stop a stream, tell the
//! page, or leave. The caller owns the connection and performs the steps.

use vstd::prelude::*;

use super::data::{participant_label, spec_participant_label};
use super::meeting_chat::{
    has_key, roster_insert, roster_without, ChatEntry, ChatRequest, EntryView, Roster,
};
use super::meeting_room_page::{
    after_subscribe, chat_from_packet, delivers, is_current, streams, CameraStep, CameraSwitch, ChatDelivery,
    MeetingRoomMessage, Status, SubscriptionView, VideoSubscriptions,
};
use crate::video::{Frame, VideoRotation};

verus! {

/// What the room reported, as plain values.
pub enum RoomSignal<H> {
    /// A remote camera track was subscribed; `handle` stops its stream.
    VideoSubscribed { identity: String, sid: String, handle: H },
    VideoUnsubscribed { identity: String, sid: String },
    /// A remote muted its video: "camera off" in a browser.
    VideoMuted { identity: String },
    Reconnecting,
    /// Back online; `snapshot` is who the room says is here now.
    Reconnected { snapshot: Roster },
    ParticipantConnected { identity: String, name: String },
    ParticipantDisconnected { identity: String },
    ParticipantNameChanged { identity: String, name: String },
    /// The room closed, for the reason given.
    Disconnected { reason: String },
}

/// Something the page has to hear.
#[derive(Debug)]
pub enum RoomNote {
    Status(Status),
    VideoEnded(String),
    /// Who is here: send `RoomLoop::participants`.
    Participants,
}

/// A note as plain data.
pub enum NoteView {
    Status(Status),
    VideoEnded(Seq<char>),
    Participants,
}

pub open spec fn note_view(note: RoomNote) -> NoteView {
    match note {
        RoomNote::Status(s) => NoteView::Status(s),
        RoomNote::VideoEnded(identity) => NoteView::VideoEnded(identity@),
        RoomNote::Participants => NoteView::Participants,
    }
}

pub open spec fn note_views(notes: Seq<RoomNote>) -> Seq<NoteView> {
    notes.map_values(|n: RoomNote| note_view(n))
}

/// What the caller does after an event: stop a stream, tell the page (in
/// order), and whether the loop is over.
pub struct RoomStep<H> {
    pub stop: Option<H>,
    pub notes: Vec<RoomNote>,
    pub leave: bool,
}

/// The remotes after an event. The roster only ever holds remotes: a rename
/// of someone not in it (ourselves) changes nothing here.
pub open spec fn roster_after<H>(roster: Seq<EntryView>, signal: RoomSignal<H>) -> Seq<EntryView> {
    match signal {
        RoomSignal::Reconnected { snapshot } => snapshot@,
        RoomSignal::ParticipantConnected { identity, name } => roster_insert(
            roster,
            identity@,
            spec_participant_label(name@, identity@),
        ),
        RoomSignal::ParticipantDisconnected { identity } => roster_without(roster, identity@),
        RoomSignal::ParticipantNameChanged { identity, name } => if has_key(roster, identity@) {
            roster_insert(roster, identity@, spec_participant_label(name@, identity@))
        } else {
            roster
        },
        _ => roster,
    }
}

/// What the page hears after an event, given the streams before it.
pub open spec fn notes_after<H>(streams_before: SubscriptionView<H>, signal: RoomSignal<H>) -> Seq<NoteView> {
    match signal {
        RoomSignal::VideoSubscribed { .. } => Seq::empty(),
        RoomSignal::VideoUnsubscribed { identity, sid } => if is_current(
            streams_before,
            identity@,
            sid@,
        ) {
            seq![NoteView::VideoEnded(identity@)]
        } else {
            Seq::empty()
        },
        RoomSignal::VideoMuted { identity } => seq![NoteView::VideoEnded(identity@)],
        RoomSignal::Reconnecting => seq![NoteView::Status(Status::Reconnecting)],
        // Joins and leaves while we were down produced no events: the page
        // hears the room's own list.
        RoomSignal::Reconnected { .. } => seq![NoteView::Status(Status::Live), NoteView::Participants],
        RoomSignal::ParticipantConnected { .. } => seq![NoteView::Participants],
        RoomSignal::ParticipantDisconnected { .. } => seq![NoteView::Participants],
        RoomSignal::ParticipantNameChanged { .. } => seq![NoteView::Participants],
        RoomSignal::Disconnected { reason } => seq![NoteView::Status(Status::Ended(Some(reason)))],
    }
}

/// The page always hears when the remotes change: every join, leave,
/// rename or reconnect is followed by a `Participants` note, so an event
/// after which the loop's roster differs never goes untold.
pub proof fn lemma_roster_changes_are_told<H>(
    streams_before: SubscriptionView<H>,
    roster: Seq<EntryView>,
    signal: RoomSignal<H>,
)
    ensures
        (signal is ParticipantConnected || signal is ParticipantDisconnected
            || signal is ParticipantNameChanged || signal is Reconnected) ==> notes_after(
            streams_before,
            signal,
        ).contains(NoteView::Participants),
        roster_after(roster, signal) != roster ==> notes_after(streams_before, signal).contains(
            NoteView::Participants,
        ),
{
    let notes = notes_after(streams_before, signal);
    match signal {
        RoomSignal::Reconnected { .. } => {
            assert(notes[1] == NoteView::Participants);
        },
        RoomSignal::ParticipantConnected { .. } => {
            assert(notes[0] == NoteView::Participants);
        },
        RoomSignal::ParticipantDisconnected { .. } => {
            assert(notes[0] == NoteView::Participants);
        },
        RoomSignal::ParticipantNameChanged { .. } => {
            assert(notes[0] == NoteView::Participants);
        },
        _ => {},
    }
}

/// The frame id after `id`, wrapping.
pub open spec fn next_id(id: u64) -> u64 {
    if id == u64::MAX {
        0
    } else {
        (id + 1) as u64
    }
}

/// The room loop's state.
pub struct RoomLoop<H> {
    local_identity: String,
    roster: Roster,
    subscriptions: VideoSubscriptions<H>,
    camera: CameraSwitch,
    frame_id: u64,
}

/// The state as plain data: our identity, the remotes, the remote streams,
/// the camera, and the last frame id handed out.
pub type RoomLoopView<H> = (Seq<char>, Seq<EntryView>, SubscriptionView<H>, CameraSwitch, u64);

impl<H> View for RoomLoop<H> {
    type V = RoomLoopView<H>;

    closed spec fn view(&self) -> RoomLoopView<H> {
        (self.local_identity@, self.roster@, self.subscriptions@, self.camera, self.frame_id)
    }
}

impl<H> RoomLoop<H> {
    /// Remotes and streams are keyed by identity, each at most once; the
    /// camera is never open while an open is under way.
    pub open spec fn wf(&self) -> bool {
        &&& super::meeting_chat::keys_distinct(self@.1)
        &&& super::meeting_room_page::one_stream_each(self@.2)
        &&& !(self@.3.open && self@.3.opening)
    }

    /// The loop as a connection starts: the remotes already here (anyone
    /// present fires no join event), no streams, the camera wanted and open
    /// when the first attempt succeeded.
    pub fn new(local_identity: String, snapshot: Roster, camera_open: bool) -> (room: Self)
        requires
            snapshot.wf(),
        ensures
            room.wf(),
            room@ == (
                local_identity@,
                snapshot@,
                Seq::<(Seq<char>, Seq<char>, H)>::empty(),
                CameraSwitch { wanted: true, open: camera_open, opening: false },
                0u64,
            ),
    {
        RoomLoop {
            local_identity,
            roster: snapshot,
            subscriptions: VideoSubscriptions::new(),
            camera: CameraSwitch::new(camera_open),
            frame_id: 0,
        }
    }

    /// What the page hears once the room is joined: the call is live, and
    /// who is here already.
    pub fn greeting(&self) -> (notes: Vec<RoomNote>)
        ensures
            note_views(notes@) == seq![NoteView::Status(Status::Live), NoteView::Participants],
    {
        let mut notes: Vec<RoomNote> = Vec::new();
        notes.push(RoomNote::Status(Status::Live));
        notes.push(RoomNote::Participants);
        assert(note_views(notes@) =~= seq![NoteView::Status(Status::Live), NoteView::Participants]);
        notes
    }

    pub fn local_identity(&self) -> (identity: &String)
        ensures
            identity@ == self@.0,
    {
        &self.local_identity
    }

    pub fn roster(&self) -> (roster: &Roster)
        ensures
            roster@ == self@.1,
    {
        &self.roster
    }

    /// Who is here, for the page: ourselves under `local_name` (read off the
    /// room each time, so a rename of ours shows), and the remotes.
    pub fn participants<B>(&self, local_name: String) -> (message: MeetingRoomMessage<B>)
        requires
            self.wf(),
        ensures
            message matches MeetingRoomMessage::Participants { local, remote } && local.0@ == self@.0
                && local.1@ == spec_participant_label(local_name@, self@.0) && remote@ == self@.1
                && remote.wf(),
    {
        let identity = self.local_identity.clone();
        MeetingRoomMessage::Participants {
            local: (identity.clone(), participant_label(local_name, identity)),
            remote: self.roster.clone(),
        }
    }

    /// Applies a room event and says what the caller has to do.
    pub fn handle(&mut self, signal: RoomSignal<H>) -> (step: RoomStep<H>)
        requires
            old(self).wf(),
            signal matches RoomSignal::Reconnected { snapshot } ==> snapshot.wf(),
        ensures
            final(self).wf(),
            final(self)@.0 == old(self)@.0,
            final(self)@.1 == roster_after(old(self)@.1, signal),
            final(self)@.3 == old(self)@.3,
            final(self)@.4 == old(self)@.4,
            step.leave == (signal is Disconnected),
            note_views(step.notes@) == notes_after(old(self)@.2, signal),
            match signal {
                // Latest wins: a reconnect can re-subscribe without an
                // unsubscribe for the old track, whose stream then stops.
                RoomSignal::VideoSubscribed { identity, sid, handle } => {
                    &&& streams(old(self)@.2, identity@) ==> exists|i: int|
                        0 <= i < old(self)@.2.len() && old(self)@.2[i].0 == identity@ && step.stop
                            == Some(old(self)@.2[i].2) && final(self)@.2 == old(self)@.2.update(
                            i,
                            (identity@, sid@, handle),
                        )
                    &&& !streams(old(self)@.2, identity@) ==> step.stop is None && final(self)@.2
                        == old(self)@.2.push((identity@, sid@, handle))
                    &&& final(self)@.2 == after_subscribe(old(self)@.2, identity@, sid@, handle)
                },
                // A late unsubscribe for a replaced track leaves the
                // replacement playing.
                RoomSignal::VideoUnsubscribed { identity, sid } => {
                    &&& is_current(old(self)@.2, identity@, sid@) ==> exists|i: int|
                        0 <= i < old(self)@.2.len() && old(self)@.2[i].0 == identity@ && step.stop
                            == Some(old(self)@.2[i].2) && final(self)@.2 == old(self)@.2.remove(i)
                    &&& !is_current(old(self)@.2, identity@, sid@) ==> step.stop is None
                        && final(self)@.2 == old(self)@.2
                },
                RoomSignal::ParticipantDisconnected { identity } => {
                    &&& streams(old(self)@.2, identity@) ==> exists|i: int|
                        0 <= i < old(self)@.2.len() && old(self)@.2[i].0 == identity@ && step.stop
                            == Some(old(self)@.2[i].2) && final(self)@.2 == old(self)@.2.remove(i)
                    &&& !streams(old(self)@.2, identity@) ==> step.stop is None && final(self)@.2
                        == old(self)@.2
                },
                _ => step.stop is None && final(self)@.2 == old(self)@.2,
            },
    {
        let mut notes: Vec<RoomNote> = Vec::new();
        let mut stop: Option<H> = None;
        let mut leave = false;
        let ghost before = self@;
        match signal {
            RoomSignal::VideoSubscribed { identity, sid, handle } => {
                stop = self.subscriptions.subscribed(identity, sid, handle);
            },
            RoomSignal::VideoUnsubscribed { identity, sid } => {
                stop = self.subscriptions.unsubscribed(identity.as_str(), sid.as_str());
                if stop.is_some() {
                    notes.push(RoomNote::VideoEnded(identity));
                }
            },
            RoomSignal::VideoMuted { identity } => {
                notes.push(RoomNote::VideoEnded(identity));
            },
            RoomSignal::Reconnecting => {
                notes.push(RoomNote::Status(Status::Reconnecting));
            },
            RoomSignal::Reconnected { snapshot } => {
                self.roster = snapshot;
                notes.push(RoomNote::Status(Status::Live));
                notes.push(RoomNote::Participants);
            },
            RoomSignal::ParticipantConnected { identity, name } => {
                let label = participant_label(name, identity.clone());
                self.roster.insert(identity, label);
                notes.push(RoomNote::Participants);
            },
            RoomSignal::ParticipantDisconnected { identity } => {
                self.roster.remove(identity.as_str());
                stop = self.subscriptions.left(identity.as_str());
                notes.push(RoomNote::Participants);
            },
            RoomSignal::ParticipantNameChanged { identity, name } => {
                if self.roster.contains_key(identity.as_str()) {
                    let label = participant_label(name, identity.clone());
                    self.roster.insert(identity, label);
                }
                notes.push(RoomNote::Participants);
            },
            RoomSignal::Disconnected { reason } => {
                notes.push(RoomNote::Status(Status::Ended(Some(reason))));
                leave = true;
            },
        }
        assert(note_views(notes@) =~= notes_after(before.2, signal));
        RoomStep { stop, notes, leave }
    }

    /// The frame message for `identity`'s next frame, stamped with a fresh
    /// id (ids wrap).
    pub fn frame<B>(&mut self, identity: String, buffer: B, rotation: VideoRotation) -> (message:
        MeetingRoomMessage<B>)
        ensures
            final(self)@ == (old(self)@.0, old(self)@.1, old(self)@.2, old(self)@.3, next_id(
                old(self)@.4,
            )),
            message matches MeetingRoomMessage::Frame { identity: who, frame } && who@ == identity@
                && frame.spec_buffer() == buffer && frame.spec_id() == next_id(old(self)@.4)
                && frame.spec_rotation() == rotation,
    {
        self.frame_id = self.frame_id.wrapping_add(1);
        MeetingRoomMessage::Frame { identity, frame: Frame::new(buffer, self.frame_id, rotation) }
    }

    /// The frame message for our own camera's next frame, upright.
    pub fn local_frame<B>(&mut self, buffer: B) -> (message: MeetingRoomMessage<B>)
        ensures
            final(self)@ == (old(self)@.0, old(self)@.1, old(self)@.2, old(self)@.3, next_id(
                old(self)@.4,
            )),
            message matches MeetingRoomMessage::Frame { identity: who, frame } && who@ == old(
                self,
            )@.0 && frame.spec_buffer() == buffer && frame.spec_id() == next_id(old(self)@.4)
                && frame.spec_rotation() == VideoRotation::VideoRotation0,
    {
        let identity = self.local_identity.clone();
        self.frame(identity, buffer, VideoRotation::VideoRotation0)
    }

    /// The user switched the camera on or off.
    pub fn camera_toggled(&mut self, wanted: bool) -> (step: CameraStep)
        requires
            old(self).wf(),
        ensures
            final(self).wf(),
            final(self)@.0 == old(self)@.0,
            final(self)@.1 == old(self)@.1,
            final(self)@.2 == old(self)@.2,
            final(self)@.4 == old(self)@.4,
            final(self)@.3.wanted == wanted,
            wanted && !old(self)@.3.open && !old(self)@.3.opening ==> step == CameraStep::StartOpen
                && final(self)@.3.opening && !final(self)@.3.open,
            wanted && (old(self)@.3.open || old(self)@.3.opening) ==> step == CameraStep::Nothing
                && final(self)@.3.open == old(self)@.3.open && final(self)@.3.opening == old(
                self,
            )@.3.opening,
            !wanted && old(self)@.3.open ==> step == CameraStep::Close && !final(self)@.3.open
                && final(self)@.3.opening == old(self)@.3.opening,
            !wanted && !old(self)@.3.open ==> step == CameraStep::Nothing && final(self)@.3.open
                == old(self)@.3.open && final(self)@.3.opening == old(self)@.3.opening,
    {
        self.camera.toggled(wanted)
    }

    /// An open of the camera finished.
    pub fn camera_opened(&mut self, success: bool) -> (step: CameraStep)
        requires
            old(self).wf(),
        ensures
            final(self).wf(),
            final(self)@.0 == old(self)@.0,
            final(self)@.1 == old(self)@.1,
            final(self)@.2 == old(self)@.2,
            final(self)@.4 == old(self)@.4,
            !final(self)@.3.opening,
            final(self)@.3.wanted == old(self)@.3.wanted,
            !success ==> step == CameraStep::Nothing && final(self)@.3.open == old(self)@.3.open,
            success && !old(self)@.3.wanted ==> step == CameraStep::Discard && final(self)@.3.open
                == old(self)@.3.open,
            success && old(self)@.3.wanted ==> step == CameraStep::Publish && final(self)@.3.open,
    {
        self.camera.opened(success)
    }

    /// Reads a received data packet, as addressed to us.
    pub fn chat_received(
        &self,
        topic: Option<&str>,
        payload: &[u8],
        sender: Option<(String, String)>,
        local_name: String,
        everyone_label: String,
    ) -> (delivery: ChatDelivery)
        ensures
            delivers(topic, payload@, sender, self@.0, local_name, everyone_label, delivery),
    {
        chat_from_packet(topic, payload, sender, self.local_identity.as_str(), local_name, everyone_label)
    }

    /// The log entry for a message the server accepted from us: LiveKit does
    /// not echo our own packet back.
    pub fn chat_sent<B>(&self, request: ChatRequest, local_name: String) -> (message: MeetingRoomMessage<B>)
        ensures
            message matches MeetingRoomMessage::ChatReceived(entry) && entry.sender@
                == spec_participant_label(local_name@, self@.0) && entry.recipient@
                == request.recipient@ && entry.body@ == request.body@,
    {
        let sender = participant_label(local_name, self.local_identity.clone());
        MeetingRoomMessage::ChatReceived(ChatEntry { sender, recipient: request.recipient, body: request.body })
    }
}

/// What the page hears when the loop ends: the call is over, with the
/// error that ended it when it never got going, or plainly once the room is
/// left.
pub fn farewell(error: Option<String>) -> (note: RoomNote)
    ensures
        note_view(note) == NoteView::Status(Status::Ended(error)),
{
    RoomNote::Status(Status::Ended(error))
}

/// The format to decode remote audio to: the output device's own rate and
/// channels, so playback never resamples. Nothing when a stream already
/// plays (one is enough), when there is no output device, or when its rate
/// does not fit WebRTC's `i32`.
pub fn audio_decode_format(already_playing: bool, device: Option<(u32, u16)>) -> (format: Option<
    (i32, i32),
>)
    ensures
        match device {
            Some((rate, channels)) => if !already_playing && rate <= i32::MAX {
                format == Some((rate as i32, channels as i32))
            } else {
                format is None
            },
            None => format is None,
        },
{
    if already_playing {
        return None;
    }
    match device {
        Some((rate, channels)) => if rate <= i32::MAX as u32 {
            Some((rate as i32, channels as i32))
        } else {
            None
        },
        None => None,
    }
}

} // verus!
