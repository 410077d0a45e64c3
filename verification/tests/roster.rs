use iced_pv_meet::pages::meeting_room::data::{
    participant_label, Member, Recipient, Roster, EVERYONE_ID,
};

fn member(identity: &str, label: &str) -> Member {
    Member {
        identity: identity.to_owned(),
        label: label.to_owned(),
    }
}

fn identities(roster: &Roster) -> Vec<String> {
    roster.iter().into_iter().map(|m| m.identity.clone()).collect()
}

#[test]
fn a_label_falls_back_to_the_identity() {
    assert_eq!(participant_label("Ann".to_owned(), "id-1".to_owned()), "Ann");
    assert_eq!(participant_label(String::new(), "id-1".to_owned()), "id-1");
    let m = Member::new(String::new(), "id-9".to_owned());
    assert_eq!(m, member("id-9", "id-9"));
}

#[test]
fn upsert_adds_then_renames_in_place() {
    let mut roster = Roster::new();
    roster.upsert(member("a", "Ann"));
    roster.upsert(member("b", "Bo"));
    roster.upsert(member("a", "Anna"));

    assert_eq!(identities(&roster), ["a", "b"]);
    assert_eq!(roster.remotes()[0].label, "Anna");
    assert!(roster.contains("a"));
    assert!(roster.contains("b"));
    assert!(!roster.contains("c"));
}

#[test]
fn upserting_the_same_member_twice_changes_nothing() {
    let mut once = Roster::new();
    once.upsert(member("a", "Ann"));
    let mut twice = Roster::new();
    twice.upsert(member("a", "Ann"));
    twice.upsert(member("a", "Ann"));
    assert_eq!(once, twice);
}

#[test]
fn set_local_claims_the_identity_from_the_remotes() {
    let mut roster = Roster::from_members(vec![member("me", "Me (remote)"), member("b", "Bo")]);
    roster.set_local(member("me", "Me"));

    assert!(roster.is_local("me"));
    assert!(!roster.is_local("b"));
    assert_eq!(roster.local(), Some(&member("me", "Me")));
    assert_eq!(roster.remotes(), &[member("b", "Bo")]);
    assert_eq!(identities(&roster), ["me", "b"]);
}

#[test]
fn upserting_ourselves_renames_us() {
    let mut roster = Roster::new();
    roster.set_local(member("me", "Me"));
    roster.upsert(member("me", "Renamed"));
    assert_eq!(roster.local(), Some(&member("me", "Renamed")));
    assert!(roster.remotes().is_empty());
}

#[test]
fn remove_forgets_remotes_but_never_us() {
    let mut roster = Roster::from_members(vec![member("a", "Ann"), member("b", "Bo")]);
    roster.set_local(member("me", "Me"));

    roster.remove("a");
    assert!(!roster.contains("a"));
    assert!(roster.contains("b"));

    roster.remove("me");
    assert!(roster.contains("me"));
    assert!(roster.is_local("me"));

    roster.remove("nobody");
    assert_eq!(identities(&roster), ["me", "b"]);
}

#[test]
fn from_members_keeps_the_last_label_of_a_repeated_identity() {
    let roster = Roster::from_members(vec![member("a", "one"), member("b", "two"), member("a", "three")]);
    assert_eq!(roster.remotes(), &[member("a", "three"), member("b", "two")]);
    assert!(roster.local().is_none());
}

#[test]
fn everyone_is_the_room() {
    let everyone = Recipient::everyone("Everyone".to_owned());
    assert_eq!(everyone.id, EVERYONE_ID);
    assert_eq!(everyone.label, "Everyone");
    assert!(everyone.is_everyone());
    let ann = Recipient {
        id: "a".to_owned(),
        label: "Ann".to_owned(),
    };
    assert!(!ann.is_everyone());
}

#[test]
fn a_snapshot_lists_the_remotes_and_keeps_us_apart() {
    let remotes = vec![
        ("Ann".to_owned(), "a".to_owned()),
        (String::new(), "b".to_owned()),
        ("Me".to_owned(), "me".to_owned()),
        ("Annie".to_owned(), "a".to_owned()),
    ];
    let roster = Roster::snapshot(remotes, ("Me".to_owned(), "me".to_owned()));
    assert_eq!(identities(&roster), ["me", "a", "b"]);
    let labels: Vec<&str> = roster.remotes().iter().map(|m| m.label.as_str()).collect();
    assert_eq!(labels, ["Annie", "b"]);
    assert!(roster.is_local("me"));
    assert_eq!(roster.local().map(|m| m.label.as_str()), Some("Me"));
}
