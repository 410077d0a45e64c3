use iced_pv_meet::common::ApiKey;
use iced_pv_meet::connector_page::{ConnectorPage, ConnectorPageAction, ConnectorPageMessage};
use iced_pv_meet::pages::login::plain;
use iced_pv_meet::pages::login::{LoginPage, LoginPageAction, LoginPageMessage};
use iced_pv_meet::pages::meeting_room::chat_notification::{
    ChatNotification, ChatNotificationAction, ChatNotificationMessage,
};
use iced_pv_meet::pages::meeting_room::meeting_chat::{ChatEntry, Recipient};
use iced_pv_meet::pages::meeting_room::meeting_controls::{MeetingControls, MeetingControlsMessage};
use iced_pv_meet::pages::meeting_room::{self, Status};
use iced_pv_meet::video::{Frame, VideoRotation};

fn settings(key: &str, secret: &str, url: &str, identity: &str, room: &str) -> ApiKey {
    ApiKey {
        api_key: key.to_owned(),
        api_secret: secret.to_owned(),
        api_url: url.to_owned(),
        identity: identity.to_owned(),
        room: room.to_owned(),
    }
}

#[test]
fn login_is_prefilled_and_edits_one_field_at_a_time() {
    let mut page = LoginPage::default(settings("k", "s", "wss://x", "me", "room"));
    assert_eq!(page.api_key(), "k");
    assert_eq!(page.username(), "me");
    assert!(page.error().is_none());

    assert!(matches!(
        page.update(LoginPageMessage::RoomIDContentChanged("other".to_owned())),
        LoginPageAction::Nothing
    ));
    assert_eq!(page.room_id(), "other");
    assert_eq!(page.api_secret(), "s");
    assert_eq!(page.api_url(), "wss://x");
}

#[test]
fn login_with_missing_keys_shows_why() {
    let mut page = LoginPage::default(settings("", "s", "wss://x", "me", "room"));
    assert!(matches!(
        page.update(LoginPageMessage::ConnectButtonPressed),
        LoginPageAction::Nothing
    ));
    assert_eq!(
        page.error().map(String::as_str),
        Some("Invalid API Key or Secret Key")
    );
}

#[test]
fn login_without_a_room_shows_why() {
    let mut page = LoginPage::default(settings("k", "s", "wss://x", "me", ""));
    assert!(matches!(
        page.update(LoginPageMessage::ConnectButtonPressed),
        LoginPageAction::Nothing
    ));
    assert_eq!(
        page.error().map(String::as_str),
        Some("invalid claims: token grants room_join but doesn't have an identity or room")
    );
}

#[test]
fn login_with_everything_set_mints_a_token() {
    let mut page = LoginPage::default(settings("", "s", "wss://x", "me", "room"));
    page.update(LoginPageMessage::ConnectButtonPressed);
    assert!(page.error().is_some());
    page.update(LoginPageMessage::APIKeyContentChanged("devkey".to_owned()));
    match page.update(LoginPageMessage::ConnectButtonPressed) {
        LoginPageAction::Login { token, api_url } => {
            assert_eq!(api_url, "wss://x");
            assert_eq!(token.split('.').count(), 3, "a JWT has three parts");
        }
        LoginPageAction::Nothing => panic!("the token service refused: {:?}", page.error()),
    }
    assert!(page.error().is_none());
}

#[test]
fn finishing_a_login_records_the_outcome() {
    let mut page = LoginPage::default(settings("k", "s", "wss://x", "me", "room"));
    assert!(matches!(
        page.finish_login("wss://x".to_owned(), Err("nope".to_owned())),
        LoginPageAction::Nothing
    ));
    assert_eq!(page.error().map(String::as_str), Some("nope"));
    match page.finish_login("wss://y".to_owned(), Ok("t".to_owned())) {
        LoginPageAction::Login { token, api_url } => {
            assert_eq!(token, "t");
            assert_eq!(api_url, "wss://y");
        }
        LoginPageAction::Nothing => panic!("expected a login"),
    }
    assert!(page.error().is_none());
}

#[test]
fn the_plain_form_hands_on_its_settings() {
    let mut page = plain::LoginPage::default(settings("k", "s", "u", "me", "r"));
    page.update(plain::LoginPageMessage::UsernameContentChanged("you".to_owned()));
    match page.update(plain::LoginPageMessage::ConnectButtonPressed) {
        plain::LoginPageAction::Connect(key) => {
            assert_eq!(key.identity, "you");
            assert_eq!(key.api_url, "u");
            assert_eq!(key.room, "r");
        }
        plain::LoginPageAction::Nothing => panic!("expected connect"),
    }
}

#[test]
fn the_connector_form_hands_on_its_settings() {
    let mut page = ConnectorPage::default();
    page.update(ConnectorPageMessage::APIKeyContentChanged("k".to_owned()));
    page.update(ConnectorPageMessage::UsernameContentChanged("me".to_owned()));
    page.update(ConnectorPageMessage::RoomIDContentChanged("r".to_owned()));
    match page.update(ConnectorPageMessage::ConnectButtonPressed) {
        ConnectorPageAction::Connect(key) => {
            assert_eq!(key.api_key, "k");
            assert_eq!(key.identity, "me");
            assert_eq!(key.room, "r");
            assert_eq!(key.api_secret, "");
        }
        ConnectorPageAction::Nothing => panic!("expected connect"),
    }
}

#[test]
fn controls_start_live_with_chat_hidden_and_toggle_back() {
    let mut controls = MeetingControls::new();
    assert!(!controls.microphone_muted && !controls.camera_off && controls.chat_hidden);
    controls.update(MeetingControlsMessage::ToggleCamera);
    assert!(controls.camera_off);
    controls.update(MeetingControlsMessage::ToggleCamera);
    assert!(!controls.camera_off);
    controls.update(MeetingControlsMessage::ToggleMicrophone);
    controls.update(MeetingControlsMessage::ToggleChat);
    assert!(controls.microphone_muted && !controls.chat_hidden);
    let default = MeetingControls::default();
    assert!(!default.chat_hidden);
}

fn entry(body: &str) -> ChatEntry {
    ChatEntry {
        sender: "Ann".to_owned(),
        recipient: Recipient::everyone(),
        body: body.to_owned(),
    }
}

#[test]
fn a_stale_countdown_leaves_the_newer_toast_up() {
    let mut toast = ChatNotification::new();
    let first = match toast.update(ChatNotificationMessage::Show(entry("one"))) {
        ChatNotificationAction::ScheduleDismiss(id) => id,
        _ => panic!("showing schedules a dismissal"),
    };
    let second = match toast.update(ChatNotificationMessage::Show(entry("two"))) {
        ChatNotificationAction::ScheduleDismiss(id) => id,
        _ => panic!("showing schedules a dismissal"),
    };
    assert_ne!(first, second);

    toast.update(ChatNotificationMessage::Dismiss(first));
    assert_eq!(toast.showing().map(|e| e.body.as_str()), Some("two"));

    toast.update(ChatNotificationMessage::Dismiss(second));
    assert!(toast.showing().is_none());
}

#[test]
fn pressing_the_toast_opens_the_chat() {
    let mut toast = ChatNotification::new();
    toast.update(ChatNotificationMessage::Show(entry("hi")));
    assert!(matches!(
        toast.update(ChatNotificationMessage::Pressed),
        ChatNotificationAction::OpenChat
    ));
    toast.dismiss();
    assert!(toast.showing().is_none());
}

#[test]
fn status_lines() {
    assert_eq!(Status::Connecting.label(), "Connecting…");
    assert_eq!(Status::Live.label(), "Waiting for someone to publish video…");
    assert_eq!(Status::Reconnecting.label(), "Reconnecting…");
    assert_eq!(Status::Ended(None).label(), "Disconnected.");
    assert_eq!(Status::Ended(Some("boom".to_owned())).label(), "boom");
    assert!(Status::Ended(Some("boom".to_owned())).is_error());
    assert!(!Status::Ended(None).is_error());
    assert!(!Status::Live.is_error());
}

#[test]
fn the_single_stream_room_hides_video_behind_an_error() {
    let mut page: meeting_room::MeetingRoomPage<u8> =
        meeting_room::MeetingRoomPage::new("t".to_owned(), "u".to_owned());
    assert!(page.shown_frame().is_none());
    page.update(meeting_room::MeetingRoomMessage::Frame(Frame::new(
        3,
        1,
        VideoRotation::VideoRotation0,
    )));
    assert_eq!(page.shown_frame().map(|f| *f.buffer()), Some(3));
    page.update(meeting_room::MeetingRoomMessage::Status(Status::Ended(Some(
        "gone".to_owned(),
    ))));
    assert!(page.shown_frame().is_none());
    assert_eq!(page.status().label(), "gone");
    assert_eq!(page.token(), "t");
    assert_eq!(page.url(), "u");
}

#[test]
fn the_login_key_is_what_the_fields_hold() {
    let page = LoginPage::default(settings("k", "s", "wss://x", "ann", "room-1"));
    let key = page.login_key();
    assert_eq!(
        (key.api_key, key.api_secret, key.api_url, key.identity, key.room),
        (
            "k".to_owned(),
            "s".to_owned(),
            "wss://x".to_owned(),
            "ann".to_owned(),
            "room-1".to_owned()
        )
    );
}
