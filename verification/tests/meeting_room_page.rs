use iced_pv_meet::common::ApiKey;
use iced_pv_meet::pages::login::LoginPageMessage;
use iced_pv_meet::pages::meeting_room::chat_notification::ChatNotificationMessage;
use iced_pv_meet::pages::meeting_room::meeting_chat::{
    ChatEntry, ChatRequest, MeetingChatMessage, Recipient, Roster, EVERYONE_ID,
};
use iced_pv_meet::pages::meeting_room::meeting_controls::MeetingControlsMessage;
use iced_pv_meet::pages::meeting_room::meeting_room_page::{
    chat_from_packet, chat_packet, ChatDelivery, MeetingRoomEffect, MeetingRoomMessage,
    MeetingRoomPage, Status,
};
use iced_pv_meet::pages::meeting_room::mosaic_view::ordered_tiles;
use iced_pv_meet::screen::{update, Message, Screen};
use iced_pv_meet::video::{Frame, VideoRotation};

type Page = MeetingRoomPage<u32>;

fn frame(n: u32) -> Frame<u32> {
    Frame::new(n, u64::from(n), VideoRotation::VideoRotation0)
}

fn roster(entries: &[(&str, &str)]) -> Roster {
    let mut roster = Roster::new();
    for (identity, label) in entries {
        roster.insert((*identity).to_owned(), (*label).to_owned());
    }
    roster
}

fn frame_owners(page: &Page) -> Vec<&str> {
    page.frames().iter().map(|(id, _)| id.as_str()).collect()
}

fn joined() -> Page {
    let mut page = Page::new("token".to_owned(), "wss://x".to_owned());
    page.update(MeetingRoomMessage::Participants {
        local: ("me".to_owned(), "Me".to_owned()),
        remote: roster(&[("a", "Ann"), ("b", "Bo")]),
    });
    page
}

fn entry(body: &str) -> ChatEntry {
    ChatEntry {
        sender: "Ann".to_owned(),
        recipient: Recipient::everyone(),
        body: body.to_owned(),
    }
}

#[test]
fn frames_are_kept_per_participant() {
    let mut page = joined();
    page.update(MeetingRoomMessage::Frame { identity: "a".to_owned(), frame: frame(1) });
    page.update(MeetingRoomMessage::Frame { identity: "me".to_owned(), frame: frame(2) });
    page.update(MeetingRoomMessage::Frame { identity: "a".to_owned(), frame: frame(3) });
    assert_eq!(frame_owners(&page), ["a", "me"]);
    assert_eq!(*page.frames()[0].1.buffer(), 3);

    page.update(MeetingRoomMessage::VideoEnded("a".to_owned()));
    assert_eq!(frame_owners(&page), ["me"]);
}

#[test]
fn a_departed_participant_loses_its_frame() {
    let mut page = joined();
    page.update(MeetingRoomMessage::Frame { identity: "a".to_owned(), frame: frame(1) });
    page.update(MeetingRoomMessage::Frame { identity: "b".to_owned(), frame: frame(2) });
    page.update(MeetingRoomMessage::Frame { identity: "me".to_owned(), frame: frame(3) });
    page.update(MeetingRoomMessage::Participants {
        local: ("me".to_owned(), "Me".to_owned()),
        remote: roster(&[("b", "Bo")]),
    });
    assert_eq!(frame_owners(&page), ["b", "me"]);
    assert_eq!(page.roster().len(), 1);
    let recipients: Vec<&str> = page.chat().recipients().iter().map(|r| r.label.as_str()).collect();
    assert_eq!(recipients, ["Send to Everyone", "Bo"]);
}

#[test]
fn switching_the_camera_off_drops_our_tile_and_late_frames() {
    let mut page = joined();
    page.update(MeetingRoomMessage::Frame { identity: "me".to_owned(), frame: frame(1) });
    assert!(matches!(
        page.update(MeetingRoomMessage::MeetingControls(MeetingControlsMessage::ToggleCamera)),
        MeetingRoomEffect::ApplyControls
    ));
    assert!(page.frames().is_empty());

    page.update(MeetingRoomMessage::Frame { identity: "me".to_owned(), frame: frame(2) });
    assert!(page.frames().is_empty());
    page.update(MeetingRoomMessage::Frame { identity: "a".to_owned(), frame: frame(3) });
    assert_eq!(frame_owners(&page), ["a"]);
}

#[test]
fn chat_while_hidden_shows_a_toast_that_opens_the_panel() {
    let mut page = joined();
    assert!(page.controls().chat_hidden);
    let id = match page.update(MeetingRoomMessage::ChatReceived(entry("hi"))) {
        MeetingRoomEffect::ScheduleDismiss(id) => id,
        other => panic!("expected a countdown, got {other:?}"),
    };
    assert_eq!(page.chat().messages().len(), 1);
    assert!(page.notification().showing().is_some());

    page.update(MeetingRoomMessage::ChatNotification(ChatNotificationMessage::Pressed));
    assert!(!page.controls().chat_hidden);
    assert!(page.notification().showing().is_none());

    assert!(matches!(
        page.update(MeetingRoomMessage::ChatReceived(entry("again"))),
        MeetingRoomEffect::Nothing
    ));
    assert!(page.notification().showing().is_none());
    page.update(MeetingRoomMessage::ChatNotification(ChatNotificationMessage::Dismiss(id)));
    assert_eq!(page.chat().messages().len(), 2);
}

#[test]
fn opening_the_chat_takes_the_toast_down() {
    let mut page = joined();
    page.update(MeetingRoomMessage::ChatReceived(entry("hi")));
    page.update(MeetingRoomMessage::MeetingControls(MeetingControlsMessage::ToggleChat));
    assert!(page.notification().showing().is_none());
}

#[test]
fn sending_hands_the_request_on() {
    let mut page = joined();
    page.update(MeetingRoomMessage::MeetingChat(MeetingChatMessage::DraftChanged(" yo ".to_owned())));
    match page.update(MeetingRoomMessage::MeetingChat(MeetingChatMessage::Send)) {
        MeetingRoomEffect::SendChat(request) => assert_eq!(request.body, "yo"),
        other => panic!("expected a send, got {other:?}"),
    }
}

#[test]
fn the_stage_sees_everyone_ourselves_included() {
    let mut page = joined();
    page.update(MeetingRoomMessage::Frame { identity: "b".to_owned(), frame: frame(5) });
    let members = page.participants();
    let tiles = ordered_tiles(&members, page.frames());
    let shown: Vec<(&str, bool, Option<u32>)> = tiles
        .iter()
        .map(|t| (t.identity, t.is_local, t.frame.map(|f| *f.buffer())))
        .collect();
    assert_eq!(shown, [("a", false, None), ("b", false, Some(5)), ("me", true, None)]);
}

#[test]
fn status_updates_are_recorded() {
    let mut page = joined();
    assert!(matches!(page.status(), Status::Connecting));
    page.update(MeetingRoomMessage::Status(Status::Live));
    assert!(matches!(page.status(), Status::Live));
    assert_eq!(page.token(), "token");
    assert_eq!(page.url(), "wss://x");
    assert_eq!(page.local().map(|l| l.1.as_str()), Some("Me"));
}

#[test]
fn a_chat_packet_round_trips() {
    let request = ChatRequest {
        body: "hello \"there\"".to_owned(),
        recipient: Recipient { id: "me".to_owned(), label: "Me".to_owned() },
    };
    let packet = chat_packet(&request);
    assert_eq!(packet.destinations, ["me"]);
    assert_eq!(
        String::from_utf8(packet.payload.clone()).unwrap(),
        r#"{"message":"hello \"there\"","to":"me"}"#
    );

    match chat_from_packet(
        Some("chat"),
        &packet.payload,
        Some(("Ann".to_owned(), "a".to_owned())),
        "me",
        String::new(),
        "Everyone".to_owned(),
    ) {
        ChatDelivery::Show(entry) => {
            assert_eq!(entry.body, "hello \"there\"");
            assert_eq!(entry.sender, "Ann");
            assert_eq!(entry.recipient.id, "me");
            assert_eq!(entry.recipient.label, "me");
        }
        other => panic!("expected an entry, got {other:?}"),
    }
}

#[test]
fn a_room_message_goes_to_everyone() {
    let request = ChatRequest { body: "all".to_owned(), recipient: Recipient::everyone() };
    let packet = chat_packet(&request);
    assert!(packet.destinations.is_empty());
    match chat_from_packet(Some("chat"), &packet.payload, None, "me", "Me".to_owned(), "Everyone".to_owned()) {
        ChatDelivery::Show(entry) => {
            assert_eq!(entry.sender, "Unknown");
            assert_eq!(entry.recipient.id, EVERYONE_ID);
            assert_eq!(entry.recipient.label, "Everyone");
        }
        other => panic!("expected an entry, got {other:?}"),
    }
}

#[test]
fn packets_for_others_or_elsewhere_are_not_shown() {
    let to_bo = br#"{"message":"psst","to":"bo"}"#;
    assert!(matches!(
        chat_from_packet(Some("chat"), to_bo, None, "me", "Me".to_owned(), "E".to_owned()),
        ChatDelivery::NotForUs
    ));
    assert!(matches!(
        chat_from_packet(Some("other"), to_bo, None, "me", "Me".to_owned(), "E".to_owned()),
        ChatDelivery::Ignored
    ));
    assert!(matches!(
        chat_from_packet(None, to_bo, None, "me", "Me".to_owned(), "E".to_owned()),
        ChatDelivery::Ignored
    ));
    assert!(matches!(
        chat_from_packet(Some("chat"), b"not json", None, "me", "Me".to_owned(), "E".to_owned()),
        ChatDelivery::Unrecognized
    ));
    assert!(matches!(
        chat_from_packet(Some("chat"), br#"{"message":3}"#, None, "me", "Me".to_owned(), "E".to_owned()),
        ChatDelivery::Unrecognized
    ));
    match chat_from_packet(Some("chat"), br#"{"message":"hey","to":""}"#, None, "me", "Me".to_owned(), "E".to_owned()) {
        ChatDelivery::Show(entry) => assert_eq!(entry.recipient.id, EVERYONE_ID),
        other => panic!("an empty `to` means the room, got {other:?}"),
    }
}

#[test]
fn a_login_opens_the_meeting_room() {
    let mut screen: Screen<u32> = Screen::new(ApiKey {
        api_key: "key".to_owned(),
        api_secret: "secret".to_owned(),
        api_url: "wss://x".to_owned(),
        identity: "me".to_owned(),
        room: "r".to_owned(),
    });
    update(&mut screen, Message::MeetingRoom(MeetingRoomMessage::Status(Status::Live)));
    assert!(matches!(screen, Screen::Login(_)));
    update(&mut screen, Message::Login(LoginPageMessage::ConnectButtonPressed));
    match &screen {
        Screen::MeetingRoom(page) => {
            assert_eq!(page.url(), "wss://x");
            assert!(matches!(page.status(), Status::Connecting));
        }
        Screen::Login(page) => panic!("login failed: {:?}", page.error()),
    }
    update(&mut screen, Message::Login(LoginPageMessage::ConnectButtonPressed));
    update(&mut screen, Message::MeetingRoom(MeetingRoomMessage::Status(Status::Live)));
    match &screen {
        Screen::MeetingRoom(page) => assert!(matches!(page.status(), Status::Live)),
        Screen::Login(_) => panic!("still on the login screen"),
    }
}

#[test]
fn login_edits_and_refusals_stay_on_the_login_screen() {
    let mut screen: Screen<u32> = Screen::new(ApiKey {
        api_key: String::new(),
        api_secret: "secret".to_owned(),
        api_url: "wss://x".to_owned(),
        identity: "me".to_owned(),
        room: "r".to_owned(),
    });
    update(&mut screen, Message::Login(LoginPageMessage::RoomIDContentChanged("r2".to_owned())));
    update(&mut screen, Message::Login(LoginPageMessage::ConnectButtonPressed));
    match &screen {
        Screen::Login(page) => {
            assert_eq!(page.room_id(), "r2");
            assert_eq!(page.error().map(String::as_str), Some("Invalid API Key or Secret Key"));
        }
        Screen::MeetingRoom(_) => panic!("a refused login opened the room"),
    }
    update(&mut screen, Message::Login(LoginPageMessage::APIKeyContentChanged("key".to_owned())));
    update(&mut screen, Message::Login(LoginPageMessage::ConnectButtonPressed));
    match &screen {
        Screen::MeetingRoom(page) => assert_eq!(page.url(), "wss://x"),
        Screen::Login(page) => panic!("login failed: {:?}", page.error()),
    }
}

#[test]
fn the_payload_escapes_as_json_does() {
    let request = ChatRequest {
        body: "\"\\\n\t\u{1}\u{7f}é€😀".to_owned(),
        recipient: Recipient { id: "b\u{8}\u{c}\r".to_owned(), label: "B".to_owned() },
    };
    let packet = chat_packet(&request);
    assert_eq!(
        String::from_utf8(packet.payload).unwrap(),
        "{\"message\":\"\\\"\\\\\\n\\t\\u0001\u{7f}é€😀\",\"to\":\"b\\b\\f\\r\"}"
    );
}
