use iced_pv_meet::pages::meeting_room::meeting_chat::{
    recipients_of, ChatEntry, MeetingChat, MeetingChatAction, MeetingChatMessage, Recipient,
    Roster, EVERYONE_ID,
};

fn roster(entries: &[(&str, &str)]) -> Roster {
    let mut roster = Roster::new();
    for (identity, label) in entries {
        roster.insert((*identity).to_owned(), (*label).to_owned());
    }
    roster
}

fn labels(recipients: &[Recipient]) -> Vec<String> {
    recipients.iter().map(|r| r.label.clone()).collect()
}

#[test]
fn the_room_comes_first_then_everyone_by_name() {
    let options = recipients_of(&roster(&[("z", "zed"), ("a", "Ann"), ("b", "bob")]));
    assert_eq!(labels(&options), ["Send to Everyone", "Ann", "bob", "zed"]);
    assert_eq!(options[0].id, EVERYONE_ID);
    assert_eq!(options[1].id, "a");
}

#[test]
fn shared_labels_name_the_identity() {
    let options = recipients_of(&roster(&[("id-1", "Sam"), ("id-2", "Sam"), ("id-3", "Al")]));
    assert_eq!(
        labels(&options),
        ["Send to Everyone", "Al", "Sam (id-1)", "Sam (id-2)"]
    );
}

#[test]
fn the_room_identity_is_never_a_participant() {
    let options = recipients_of(&roster(&[(EVERYONE_ID, "Impostor"), ("a", "Ann")]));
    assert_eq!(labels(&options), ["Send to Everyone", "Ann"]);
}

#[test]
fn roster_insert_replaces_and_remove_forgets() {
    let mut r = roster(&[("a", "Ann"), ("b", "Bo")]);
    r.insert("a".to_owned(), "Anna".to_owned());
    assert_eq!(r.len(), 2);
    assert_eq!(r.get("a").map(String::as_str), Some("Anna"));
    r.remove("a");
    assert!(!r.contains_key("a"));
    assert!(r.contains_key("b"));
    assert_eq!(r.len(), 1);
}

#[test]
fn send_trims_the_draft_and_clears_it() {
    let mut chat = MeetingChat::new();
    assert!(matches!(
        chat.update(MeetingChatMessage::DraftChanged("  hello there \n".to_owned())),
        MeetingChatAction::Nothing
    ));
    match chat.update(MeetingChatMessage::Send) {
        MeetingChatAction::Send(request) => {
            assert_eq!(request.body, "hello there");
            assert!(request.recipient.is_everyone());
        }
        MeetingChatAction::Nothing => panic!("a non-empty draft is sent"),
    }
    assert_eq!(chat.draft(), "");
}

#[test]
fn a_blank_draft_is_not_sent() {
    let mut chat = MeetingChat::new();
    chat.update(MeetingChatMessage::DraftChanged("   \t ".to_owned()));
    assert!(matches!(
        chat.update(MeetingChatMessage::Send),
        MeetingChatAction::Nothing
    ));
    assert_eq!(chat.draft(), "   \t ");
}

#[test]
fn the_pick_falls_back_to_the_room_when_it_leaves() {
    let mut chat = MeetingChat::new();
    chat.update(MeetingChatMessage::ParticipantsChanged(roster(&[("a", "Ann"), ("b", "Bo")])));
    assert_eq!(labels(chat.recipients()), ["Send to Everyone", "Ann", "Bo"]);

    chat.update(MeetingChatMessage::RecipientSelected(Recipient {
        id: "b".to_owned(),
        label: "Bo".to_owned(),
    }));
    chat.update(MeetingChatMessage::ParticipantsChanged(roster(&[("b", "Bo"), ("c", "Cy")])));
    assert_eq!(chat.recipient().id, "b");

    chat.update(MeetingChatMessage::ParticipantsChanged(roster(&[("c", "Cy")])));
    assert!(chat.recipient().is_everyone());
    assert_eq!(labels(chat.recipients()), ["Send to Everyone", "Cy"]);
}

#[test]
fn a_private_message_keeps_its_recipient() {
    let mut chat = MeetingChat::new();
    chat.update(MeetingChatMessage::RecipientSelected(Recipient {
        id: "b".to_owned(),
        label: "Bo".to_owned(),
    }));
    chat.update(MeetingChatMessage::DraftChanged("psst".to_owned()));
    match chat.update(MeetingChatMessage::Send) {
        MeetingChatAction::Send(request) => {
            assert_eq!(request.recipient.id, "b");
            assert_eq!(request.body, "psst");
        }
        MeetingChatAction::Nothing => panic!("expected a send"),
    }
}

#[test]
fn entries_are_logged_in_order_with_a_header() {
    let mut chat = MeetingChat::new();
    let entry = ChatEntry {
        sender: "Ann".to_owned(),
        recipient: Recipient::everyone(),
        body: "hi".to_owned(),
    };
    assert_eq!(entry.header(), "Ann → Send to Everyone: ");
    chat.push(entry.clone());
    chat.push(ChatEntry {
        body: "again".to_owned(),
        ..entry
    });
    let bodies: Vec<&str> = chat.messages().iter().map(|e| e.body.as_str()).collect();
    assert_eq!(bodies, ["hi", "again"]);
}
