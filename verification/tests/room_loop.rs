use iced_pv_meet::pages::meeting_room::meeting_chat::{ChatRequest, Recipient, Roster};
use iced_pv_meet::pages::meeting_room::meeting_room_page::{
    CameraStep, CameraSwitch, MeetingRoomMessage, VideoSubscriptions,
};
use iced_pv_meet::pages::meeting_room::room_loop::{
    audio_decode_format, farewell, RoomLoop, RoomNote, RoomSignal, RoomStep,
};
use iced_pv_meet::video::VideoRotation;

#[test]
fn a_resubscribe_replaces_the_old_stream() {
    let mut subs: VideoSubscriptions<u32> = VideoSubscriptions::new();
    assert_eq!(subs.subscribed("a".to_owned(), "TR_1".to_owned(), 1), None);
    assert_eq!(subs.subscribed("b".to_owned(), "TR_2".to_owned(), 2), None);
    assert_eq!(subs.subscribed("a".to_owned(), "TR_3".to_owned(), 3), Some(1));
}

#[test]
fn a_late_unsubscribe_keeps_the_replacement() {
    let mut subs: VideoSubscriptions<u32> = VideoSubscriptions::new();
    subs.subscribed("a".to_owned(), "TR_1".to_owned(), 1);
    subs.subscribed("a".to_owned(), "TR_3".to_owned(), 3);
    assert_eq!(subs.unsubscribed("a", "TR_1"), None);
    assert_eq!(subs.unsubscribed("a", "TR_3"), Some(3));
    assert_eq!(subs.unsubscribed("a", "TR_3"), None);
}

#[test]
fn leaving_ends_the_stream() {
    let mut subs: VideoSubscriptions<u32> = VideoSubscriptions::new();
    subs.subscribed("a".to_owned(), "TR_1".to_owned(), 1);
    subs.subscribed("b".to_owned(), "TR_2".to_owned(), 2);
    assert_eq!(subs.left("a"), Some(1));
    assert_eq!(subs.left("a"), None);
    assert_eq!(subs.left("c"), None);
    assert_eq!(subs.left("b"), Some(2));
}

#[test]
fn the_camera_starts_wanted() {
    assert_eq!(
        CameraSwitch::new(true),
        CameraSwitch { wanted: true, open: true, opening: false }
    );
    assert_eq!(
        CameraSwitch::new(false),
        CameraSwitch { wanted: true, open: false, opening: false }
    );
}

#[test]
fn switching_off_closes_an_open_camera() {
    let mut camera = CameraSwitch::new(true);
    assert_eq!(camera.toggled(false), CameraStep::Close);
    assert_eq!(camera, CameraSwitch { wanted: false, open: false, opening: false });
    assert_eq!(camera.toggled(false), CameraStep::Nothing);
}

#[test]
fn switching_on_starts_one_open_only() {
    let mut camera = CameraSwitch::new(false);
    assert_eq!(camera.toggled(true), CameraStep::StartOpen);
    assert_eq!(camera.toggled(true), CameraStep::Nothing);
    assert_eq!(camera.opened(true), CameraStep::Publish);
    assert_eq!(camera, CameraSwitch { wanted: true, open: true, opening: false });
}

#[test]
fn a_device_that_comes_up_too_late_is_discarded() {
    let mut camera = CameraSwitch::new(false);
    camera.toggled(true);
    assert_eq!(camera.toggled(false), CameraStep::Nothing);
    assert_eq!(camera.opened(true), CameraStep::Discard);
    assert_eq!(camera, CameraSwitch { wanted: false, open: false, opening: false });
}

#[test]
fn a_failed_open_can_be_retried() {
    let mut camera = CameraSwitch::new(false);
    camera.toggled(true);
    assert_eq!(camera.opened(false), CameraStep::Nothing);
    assert_eq!(camera.toggled(true), CameraStep::StartOpen);
}

fn snapshot(entries: &[(&str, &str)]) -> Roster {
    let mut roster = Roster::new();
    for (identity, label) in entries {
        roster.insert((*identity).to_owned(), (*label).to_owned());
    }
    roster
}

fn labels(roster: &Roster) -> Vec<(String, String)> {
    (0..roster.len())
        .map(|i| {
            let (identity, label) = roster.entry(i);
            (identity.clone(), label.clone())
        })
        .collect()
}

fn notes(step: &RoomStep<u32>) -> Vec<String> {
    step.notes
        .iter()
        .map(|note| match note {
            RoomNote::Status(status) => format!("status:{}", status.label()),
            RoomNote::VideoEnded(identity) => format!("ended:{identity}"),
            RoomNote::Participants => "participants".to_owned(),
        })
        .collect()
}

fn room() -> RoomLoop<u32> {
    RoomLoop::new("me".to_owned(), snapshot(&[("a", "Ann")]), false)
}

#[test]
fn joins_renames_and_leaves_update_the_remotes() {
    let mut room = room();
    let step = room.handle(RoomSignal::ParticipantConnected { identity: "b".to_owned(), name: String::new() });
    assert_eq!(notes(&step), ["participants"]);
    assert_eq!(
        labels(room.roster()),
        [("a".to_owned(), "Ann".to_owned()), ("b".to_owned(), "b".to_owned())]
    );

    room.handle(RoomSignal::ParticipantNameChanged { identity: "b".to_owned(), name: "Bo".to_owned() });
    // Our own rename is not a remote.
    let step = room.handle(RoomSignal::ParticipantNameChanged { identity: "me".to_owned(), name: "Me".to_owned() });
    assert_eq!(notes(&step), ["participants"]);
    assert_eq!(
        labels(room.roster()),
        [("a".to_owned(), "Ann".to_owned()), ("b".to_owned(), "Bo".to_owned())]
    );

    room.handle(RoomSignal::VideoSubscribed { identity: "a".to_owned(), sid: "TR_1".to_owned(), handle: 7 });
    let step = room.handle(RoomSignal::ParticipantDisconnected { identity: "a".to_owned() });
    assert_eq!(step.stop, Some(7));
    assert!(!step.leave);
    assert_eq!(labels(room.roster()), [("b".to_owned(), "Bo".to_owned())]);
}

#[test]
fn the_current_track_ending_tells_the_page() {
    let mut room = room();
    let step = room.handle(RoomSignal::VideoSubscribed { identity: "a".to_owned(), sid: "TR_1".to_owned(), handle: 1 });
    assert_eq!(step.stop, None);
    assert!(step.notes.is_empty());
    let step = room.handle(RoomSignal::VideoSubscribed { identity: "a".to_owned(), sid: "TR_2".to_owned(), handle: 2 });
    assert_eq!(step.stop, Some(1));

    let step = room.handle(RoomSignal::VideoUnsubscribed { identity: "a".to_owned(), sid: "TR_1".to_owned() });
    assert_eq!(step.stop, None);
    assert!(step.notes.is_empty());

    let step = room.handle(RoomSignal::VideoUnsubscribed { identity: "a".to_owned(), sid: "TR_2".to_owned() });
    assert_eq!(step.stop, Some(2));
    assert_eq!(notes(&step), ["ended:a"]);
}

#[test]
fn a_muted_camera_ends_the_tile() {
    let mut room = room();
    let step = room.handle(RoomSignal::VideoMuted { identity: "a".to_owned() });
    assert_eq!(notes(&step), ["ended:a"]);
    assert_eq!(step.stop, None);
}

#[test]
fn connection_changes_reach_the_page() {
    let mut room = room();
    assert_eq!(notes(&room.handle(RoomSignal::Reconnecting)), ["status:Reconnecting…"]);

    let step = room.handle(RoomSignal::Reconnected { snapshot: snapshot(&[("c", "Cy")]) });
    assert_eq!(notes(&step), ["status:Waiting for someone to publish video…", "participants"]);
    assert_eq!(labels(room.roster()), [("c".to_owned(), "Cy".to_owned())]);

    let step = room.handle(RoomSignal::Disconnected { reason: "ServerShutdown".to_owned() });
    assert!(step.leave);
    assert_eq!(notes(&step), ["status:ServerShutdown"]);
}

#[test]
fn participants_name_us_and_the_remotes() {
    let room = room();
    match room.participants::<u32>(String::new()) {
        MeetingRoomMessage::Participants { local, remote } => {
            assert_eq!(local, ("me".to_owned(), "me".to_owned()));
            assert_eq!(labels(&remote), [("a".to_owned(), "Ann".to_owned())]);
        }
        other => panic!("expected participants, got {other:?}"),
    }
}

#[test]
fn frames_get_fresh_ids() {
    let mut room = room();
    match room.frame("a".to_owned(), 10u32, VideoRotation::VideoRotation90) {
        MeetingRoomMessage::Frame { identity, frame } => {
            assert_eq!(identity, "a");
            assert_eq!(frame.id(), 1);
            assert_eq!(*frame.buffer(), 10);
            assert_eq!(frame.rotation(), VideoRotation::VideoRotation90);
        }
        other => panic!("expected a frame, got {other:?}"),
    }
    match room.local_frame(11u32) {
        MeetingRoomMessage::Frame { identity, frame } => {
            assert_eq!(identity, "me");
            assert_eq!(frame.id(), 2);
            assert_eq!(frame.rotation(), VideoRotation::VideoRotation0);
        }
        other => panic!("expected a frame, got {other:?}"),
    }
}

#[test]
fn the_first_camera_open_publishes() {
    let mut room = room();
    assert_eq!(room.camera_opened(true), CameraStep::Publish);
    assert_eq!(room.camera_toggled(false), CameraStep::Close);
    assert_eq!(room.camera_toggled(true), CameraStep::StartOpen);
}

#[test]
fn our_sent_message_is_logged_under_our_name() {
    let room = room();
    let request = ChatRequest { body: "hi".to_owned(), recipient: Recipient::everyone() };
    match room.chat_sent::<u32>(request, "Me".to_owned()) {
        MeetingRoomMessage::ChatReceived(entry) => {
            assert_eq!(entry.sender, "Me");
            assert_eq!(entry.body, "hi");
            assert!(entry.recipient.is_everyone());
        }
        other => panic!("expected a log entry, got {other:?}"),
    }
}

#[test]
fn audio_decodes_to_the_device_format_once() {
    assert_eq!(audio_decode_format(false, Some((48_000, 2))), Some((48_000, 2)));
    assert_eq!(audio_decode_format(true, Some((48_000, 2))), None);
    assert_eq!(audio_decode_format(false, None), None);
    assert_eq!(audio_decode_format(false, Some((u32::MAX, 2))), None);
}

#[test]
fn the_page_hears_live_then_who_is_here_then_the_end() {
    let room = room();
    let greeting: Vec<String> = room
        .greeting()
        .iter()
        .map(|note| match note {
            RoomNote::Status(status) => format!("status:{}", status.label()),
            RoomNote::VideoEnded(identity) => format!("ended:{identity}"),
            RoomNote::Participants => "participants".to_owned(),
        })
        .collect();
    assert_eq!(greeting, ["status:Waiting for someone to publish video…", "participants"]);
    match farewell(None) {
        RoomNote::Status(status) => assert_eq!(status.label(), "Disconnected."),
        other => panic!("expected a status, got {other:?}"),
    }
    match farewell(Some("refused".to_owned())) {
        RoomNote::Status(status) => assert!(status.is_error() && status.label() == "refused"),
        other => panic!("expected a status, got {other:?}"),
    }
}
