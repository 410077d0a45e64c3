//! The meeting room: who is here, their latest frames, the controls, the chat
//! panel and its toast, and the chat wire format.

use vstd::prelude::*;

use super::chat_notification::{
    ChatNotification, ChatNotificationAction, ChatNotificationMessage, NotificationView,
    spec_notification_update, spec_show,
};
use super::data::{participant_label, spec_participant_label, Member, MemberView, Roster as Members};
use super::meeting_chat::{
    spec_chat_update, chat_with_options, spec_recipients_of, ChatEntry, ChatRequest, ChatView,
    EntryView, MeetingChat, MeetingChatAction, MeetingChatMessage, Recipient, Roster,
    EVERYONE_ID,
};
use super::meeting_controls::{toggled, MeetingControls, MeetingControlsMessage};
use crate::text::{seq_lt, str_eq};
use crate::video::Frame;

verus! {

/// The data-packet topic that OpenVidu Meet chat travels on.
pub const OPENVIDU_CHAT_TOPIC: &'static str = "chat";

/// The chat payload's member holding the text.
pub const CHAT_MESSAGE_KEY: &'static str = "message";

/// The chat payload's member naming a private recipient.
pub const CHAT_TO_KEY: &'static str = "to";

/// The string member `key` of the JSON object that `payload` encodes, as
/// `serde_json` reads it; `None` when the bytes are not a JSON object with a
/// string under `key`.
pub uninterp spec fn json_string_member(payload: Seq<u8>, key: Seq<char>) -> Option<Seq<char>>;

/// The UTF-8 encoding of `c`.
pub open spec fn utf8(c: char) -> Seq<u8> {
    let n = c as int;
    if n < 0x80 {
        seq![n as u8]
    } else if n < 0x800 {
        seq![(0xC0 + n / 64) as u8, (0x80 + n % 64) as u8]
    } else if n < 0x10000 {
        seq![(0xE0 + n / 4096) as u8, (0x80 + (n / 64) % 64) as u8, (0x80 + n % 64) as u8]
    } else {
        seq![
            (0xF0 + n / 262144) as u8,
            (0x80 + (n / 4096) % 64) as u8,
            (0x80 + (n / 64) % 64) as u8,
            (0x80 + n % 64) as u8,
        ]
    }
}

/// A lowercase hexadecimal digit, as ASCII.
pub open spec fn hex_digit(d: int) -> u8 {
    if d < 10 {
        (48 + d) as u8
    } else {
        (87 + d) as u8
    }
}

/// `c` inside a JSON string as `serde_json` writes it: the quote and the
/// backslash escaped by a backslash, backspace, tab, line feed, form feed
/// and carriage return as `\b \t \n \f \r`, the other controls below
/// U+0020 as `\u00XX` in lowercase hex, anything else as its UTF-8 bytes.
pub open spec fn json_char(c: char) -> Seq<u8> {
    let n = c as int;
    if n == 0x22 {
        seq![92u8, 34u8]
    } else if n == 0x5C {
        seq![92u8, 92u8]
    } else if n == 0x08 {
        seq![92u8, 98u8]
    } else if n == 0x09 {
        seq![92u8, 116u8]
    } else if n == 0x0A {
        seq![92u8, 110u8]
    } else if n == 0x0C {
        seq![92u8, 102u8]
    } else if n == 0x0D {
        seq![92u8, 114u8]
    } else if n < 0x20 {
        seq![92u8, 117u8, 48u8, 48u8, hex_digit(n / 16), hex_digit(n % 16)]
    } else {
        utf8(c)
    }
}

/// The characters of `s`, each as `json_char` writes it.
pub open spec fn json_chars(s: Seq<char>) -> Seq<u8>
    decreases s.len(),
{
    if s.len() == 0 {
        Seq::empty()
    } else {
        json_chars(s.drop_last()) + json_char(s.last())
    }
}

/// `s` as a JSON string: quoted, its characters escaped.
pub open spec fn json_string(s: Seq<char>) -> Seq<u8> {
    seq![34u8] + json_chars(s) + seq![34u8]
}

/// One object member, `"key":"value"`.
pub open spec fn json_member(key: Seq<char>, value: Seq<char>) -> Seq<u8> {
    json_string(key) + seq![58u8] + json_string(value)
}

/// The compact JSON text, as bytes, of an object with string members `k1: v1`
/// and `k2: v2`, as `serde_json` writes it: its map keeps keys sorted (by
/// code point, the order of `String`), and a second insert under the same
/// key replaces the first.
pub open spec fn json_object_bytes(k1: Seq<char>, v1: Seq<char>, k2: Seq<char>, v2: Seq<char>) -> Seq<u8> {
    if k1 == k2 {
        seq![123u8] + json_member(k1, v2) + seq![125u8]
    } else if seq_lt(k1, k2) {
        seq![123u8] + json_member(k1, v1) + seq![44u8] + json_member(k2, v2) + seq![125u8]
    } else {
        seq![123u8] + json_member(k2, v2) + seq![44u8] + json_member(k1, v1) + seq![125u8]
    }
}

/// `serde_json::from_slice::<Value>`, then `Value::get(key)` and
/// `Value::as_str`: the string under `key`, a function of the bytes and the
/// key alone. Nothing more of JSON parsing is claimed.
#[verifier::external_body]
fn read_string_member(payload: &[u8], key: &str) -> (member: Option<String>)
    ensures
        match member {
            Some(s) => json_string_member(payload@, key@) == Some(s@),
            None => json_string_member(payload@, key@) is None,
        },
{
    serde_json::from_slice::<serde_json::Value>(payload).ok()?.get(key)?.as_str().map(
        |s| s.to_owned(),
    )
}

/// `serde_json::Value::Object` of two string members written with
/// `to_string`: compact JSON, as `json_object_bytes` spells out, which with
/// two distinct keys reads back as written: each key holds its string.
#[verifier::external_body]
fn write_string_pair(k1: &str, v1: &str, k2: &str, v2: &str) -> (bytes: Vec<u8>)
    ensures
        bytes@ == json_object_bytes(k1@, v1@, k2@, v2@),
        k1@ != k2@ ==> json_string_member(bytes@, k1@) == Some(v1@),
        k1@ != k2@ ==> json_string_member(bytes@, k2@) == Some(v2@),
{
    let mut object = serde_json::Map::new();
    object.insert(k1.to_owned(), serde_json::Value::String(v1.to_owned()));
    object.insert(k2.to_owned(), serde_json::Value::String(v2.to_owned()));
    serde_json::Value::Object(object).to_string().into_bytes()
}

/// A chat message ready for the wire: the payload, and who the server should
/// route it to (nobody named means the whole room).
#[derive(Debug)]
pub struct ChatPacket {
    pub payload: Vec<u8>,
    pub destinations: Vec<String>,
}

/// The packet for a request: `{"message": <body>, "to": <recipient id>}`,
/// routed to the recipient alone unless it is the room. `to` rides in the
/// payload because the receiver never sees the routing, and it has to know
/// whether the message was private to label it. It reads back as sent: its
/// message is the body, and it is addressed to the recipient.
pub fn chat_packet(request: &ChatRequest) -> (packet: ChatPacket)
    ensures
        packet.payload@ == json_object_bytes(
            CHAT_MESSAGE_KEY@,
            request.body@,
            CHAT_TO_KEY@,
            request.recipient.id@,
        ),
        json_string_member(packet.payload@, CHAT_MESSAGE_KEY@) == Some(request.body@),
        json_string_member(packet.payload@, CHAT_TO_KEY@) == Some(request.recipient.id@),
        request.recipient.id@.len() > 0 ==> addressee(packet.payload@) == request.recipient.id@,
        request.recipient.id@ == EVERYONE_ID@ ==> packet.destinations@.len() == 0,
        request.recipient.id@ != EVERYONE_ID@ ==> packet.destinations@.len() == 1
            && packet.destinations@[0]@ == request.recipient.id@,
{
    proof {
        reveal_strlit("message");
        reveal_strlit("to");
    }
    assert(CHAT_MESSAGE_KEY@ != CHAT_TO_KEY@) by {
        assert(CHAT_MESSAGE_KEY@.len() != CHAT_TO_KEY@.len());
    }
    let payload = write_string_pair(
        CHAT_MESSAGE_KEY,
        request.body.as_str(),
        CHAT_TO_KEY,
        request.recipient.id.as_str(),
    );
    let mut destinations: Vec<String> = Vec::new();
    if !request.recipient.is_everyone() {
        destinations.push(request.recipient.id.clone());
    }
    ChatPacket { payload, destinations }
}

/// What becomes of a received data packet.
#[derive(Debug)]
pub enum ChatDelivery {
    /// Not on the chat topic: someone else's business.
    Ignored,
    /// On the chat topic, but without a string `message`.
    Unrecognized,
    /// Addressed to someone else: a client that set `to` but still broadcast.
    NotForUs,
    /// Goes into the log.
    Show(ChatEntry),
}

/// Who a received message is for: the `to` member when it is a non-empty
/// string, otherwise the room.
pub open spec fn addressee(payload: Seq<u8>) -> Seq<char> {
    match json_string_member(payload, CHAT_TO_KEY@) {
        Some(to) => if to.len() > 0 {
            to
        } else {
            EVERYONE_ID@
        },
        None => EVERYONE_ID@,
    }
}

/// What becomes of a received packet, as `chat_from_packet` reads it for
/// `local_identity`.
pub open spec fn delivers(
    topic: Option<&str>,
    payload: Seq<u8>,
    sender: Option<(String, String)>,
    local_identity: Seq<char>,
    local_name: String,
    everyone_label: String,
    delivery: ChatDelivery,
) -> bool {
    match topic {
        None => delivery is Ignored,
        Some(t) => if t@ != OPENVIDU_CHAT_TOPIC@ {
            delivery is Ignored
        } else if json_string_member(payload, CHAT_MESSAGE_KEY@) is None {
            delivery is Unrecognized
        } else if addressee(payload) != EVERYONE_ID@ && addressee(payload)
            != local_identity {
            delivery is NotForUs
        } else {
            &&& delivery matches ChatDelivery::Show(entry)
            &&& Some(entry.body@) == json_string_member(payload, CHAT_MESSAGE_KEY@)
            &&& entry.sender@ == match sender {
                Some((name, identity)) => spec_participant_label(name@, identity@),
                None => "Unknown"@,
            }
            &&& if addressee(payload) == local_identity {
                entry.recipient@ == (local_identity, spec_participant_label(
                    local_name@,
                    local_identity,
                ))
            } else {
                entry.recipient@ == (EVERYONE_ID@, everyone_label@)
            }
        },
    }
}

/// Reads a received data packet. On the chat topic, a payload with a string
/// `message` becomes a log entry when it is for the room or for us; the
/// sender is shown by name, or identity, or as "Unknown" when the server did
/// not say; a private message is labelled with our own name.
pub fn chat_from_packet(
    topic: Option<&str>,
    payload: &[u8],
    sender: Option<(String, String)>,
    local_identity: &str,
    local_name: String,
    everyone_label: String,
) -> (delivery: ChatDelivery)
    ensures
        delivers(topic, payload@, sender, local_identity@, local_name, everyone_label, delivery),
{
    let topic = match topic {
        Some(t) => t,
        None => return ChatDelivery::Ignored,
    };
    if !str_eq(topic, OPENVIDU_CHAT_TOPIC) {
        return ChatDelivery::Ignored;
    }
    let body = match read_string_member(payload, CHAT_MESSAGE_KEY) {
        Some(body) => body,
        None => return ChatDelivery::Unrecognized,
    };
    let to = match read_string_member(payload, CHAT_TO_KEY) {
        Some(to) => if to.as_str().is_empty() {
            String::from_str(EVERYONE_ID)
        } else {
            to
        },
        None => String::from_str(EVERYONE_ID),
    };
    let addressed_to_us = str_eq(to.as_str(), local_identity);
    if !str_eq(to.as_str(), EVERYONE_ID) && !addressed_to_us {
        return ChatDelivery::NotForUs;
    }
    let recipient = if addressed_to_us {
        let id = String::from_str(local_identity);
        Recipient {
            id: id.clone(),
            label: participant_label(local_name, id),
        }
    } else {
        Recipient { id: String::from_str(EVERYONE_ID), label: everyone_label }
    };
    let sender = match sender {
        Some((name, identity)) => participant_label(name, identity),
        None => String::from_str("Unknown"),
    };
    ChatDelivery::Show(ChatEntry { sender, recipient, body })
}

/// A chat packet that names no one — no `to` member, or an empty one, as
/// plain OpenVidu Meet clients send — is for the whole room: it is shown,
/// with its text, addressed to the room.
pub proof fn lemma_unaddressed_chat_is_for_the_room(
    payload: Seq<u8>,
    body: Seq<char>,
    sender: Option<(String, String)>,
    local_identity: Seq<char>,
    local_name: String,
    everyone_label: String,
    delivery: ChatDelivery,
)
    requires
        json_string_member(payload, CHAT_MESSAGE_KEY@) == Some(body),
        json_string_member(payload, CHAT_TO_KEY@) is None || json_string_member(
            payload,
            CHAT_TO_KEY@,
        ) == Some(Seq::<char>::empty()),
        local_identity != EVERYONE_ID@,
        delivers(
            Some(OPENVIDU_CHAT_TOPIC),
            payload,
            sender,
            local_identity,
            local_name,
            everyone_label,
            delivery,
        ),
    ensures
        delivery matches ChatDelivery::Show(entry) && entry.body@ == body && entry.recipient@ == (
            EVERYONE_ID@,
            everyone_label@,
        ),
{
}

#[derive(Debug, Clone)]
pub enum Status {
    Connecting,
    Live,
    Reconnecting,
    Ended(Option<String>),
}

/// The status line the stage shows.
pub open spec fn spec_status_label(status: Status) -> Seq<char> {
    match status {
        Status::Connecting => "Connecting…"@,
        Status::Live => "Waiting for someone to publish video…"@,
        Status::Reconnecting => "Reconnecting…"@,
        Status::Ended(None) => "Disconnected."@,
        Status::Ended(Some(error)) => error@,
    }
}

/// The call ended with an error.
pub open spec fn spec_status_is_error(status: Status) -> bool {
    status matches Status::Ended(Some(_))
}

impl Status {
    pub fn label(&self) -> (label: String)
        ensures
            label@ == spec_status_label(*self),
    {
        match self {
            Status::Connecting => String::from_str("Connecting…"),
            Status::Live => String::from_str("Waiting for someone to publish video…"),
            Status::Reconnecting => String::from_str("Reconnecting…"),
            Status::Ended(None) => String::from_str("Disconnected."),
            Status::Ended(Some(error)) => error.clone(),
        }
    }

    pub fn is_error(&self) -> (error: bool)
        ensures
            error == spec_status_is_error(*self),
    {
        match self {
            Status::Ended(Some(_)) => true,
            _ => false,
        }
    }
}

/// Latest frames by identity, as plain data.
pub type FrameSlots<B> = Seq<(Seq<char>, Frame<B>)>;

/// The slots of a frame list.
pub open spec fn slot_views<B>(s: Seq<(String, Frame<B>)>) -> FrameSlots<B> {
    s.map_values(|e: (String, Frame<B>)| (e.0@, e.1))
}

/// Some slot belongs to `identity`.
pub open spec fn has_slot<B>(s: FrameSlots<B>, identity: Seq<char>) -> bool {
    exists|i: int| 0 <= i < s.len() && #[trigger] s[i].0 == identity
}

/// No identity has two slots.
pub open spec fn slots_distinct<B>(s: FrameSlots<B>) -> bool {
    forall|i: int, j: int| 0 <= i < j < s.len() ==> #[trigger] s[i].0 != #[trigger] s[j].0
}

/// `identity`'s frame replaced, or added when it had none.
pub open spec fn slots_insert<B>(s: FrameSlots<B>, identity: Seq<char>, frame: Frame<B>) -> FrameSlots<B> {
    if has_slot(s, identity) {
        s.update(choose|i: int| 0 <= i < s.len() && s[i].0 == identity, (identity, frame))
    } else {
        s.push((identity, frame))
    }
}

/// `identity`'s frame dropped.
pub open spec fn slots_without<B>(s: FrameSlots<B>, identity: Seq<char>) -> FrameSlots<B>
    decreases s.len(),
{
    if s.len() == 0 {
        s
    } else {
        let rest = slots_without(s.drop_last(), identity);
        if s.last().0 == identity {
            rest
        } else {
            rest.push(s.last())
        }
    }
}

/// Only the frames of `local` and of the remotes in `remote`.
pub open spec fn slots_kept<B>(s: FrameSlots<B>, local: Seq<char>, remote: Seq<EntryView>) -> FrameSlots<B>
    decreases s.len(),
{
    if s.len() == 0 {
        s
    } else {
        let rest = slots_kept(s.drop_last(), local, remote);
        if s.last().0 == local || super::meeting_chat::has_key(remote, s.last().0) {
            rest.push(s.last())
        } else {
            rest
        }
    }
}

proof fn lemma_slots_without<B>(s: FrameSlots<B>, identity: Seq<char>, i: int)
    requires
        slots_distinct(s),
        0 <= i < s.len(),
        s[i].0 == identity,
    ensures
        slots_without(s, identity) == s.remove(i),
    decreases s.len(),
{
    let rest = s.drop_last();
    if i == s.len() - 1 {
        assert(!has_slot(rest, identity)) by {
            if has_slot(rest, identity) {
                let k = choose|k: int| 0 <= k < rest.len() && #[trigger] rest[k].0 == identity;
                assert(s[k].0 == s[i].0);
            }
        }
        lemma_slots_without_absent(rest, identity);
        assert(s.remove(i) =~= rest);
    } else {
        assert(slots_distinct(rest));
        lemma_slots_without(rest, identity, i);
        assert(s.last().0 != identity) by {
            assert(s[s.len() - 1].0 != s[i].0);
        }
        assert(s.remove(i) =~= rest.remove(i).push(s.last()));
    }
}

proof fn lemma_slots_without_absent<B>(s: FrameSlots<B>, identity: Seq<char>)
    requires
        !has_slot(s, identity),
    ensures
        slots_without(s, identity) == s,
    decreases s.len(),
{
    if s.len() > 0 {
        let rest = s.drop_last();
        assert(!has_slot(rest, identity)) by {
            if has_slot(rest, identity) {
                let k = choose|k: int| 0 <= k < rest.len() && #[trigger] rest[k].0 == identity;
                assert(s[k].0 == identity);
            }
        }
        lemma_slots_without_absent(rest, identity);
        assert(s[s.len() - 1].0 != identity);
        assert(rest.push(s.last()) =~= s);
    }
}

proof fn lemma_slots_kept_has<B>(s: FrameSlots<B>, local: Seq<char>, remote: Seq<EntryView>, id: Seq<char>)
    ensures
        has_slot(slots_kept(s, local, remote), id) ==> has_slot(s, id),
    decreases s.len(),
{
    if s.len() > 0 {
        let rest = s.drop_last();
        lemma_slots_kept_has(rest, local, remote, id);
        let k = slots_kept(rest, local, remote);
        let full = slots_kept(s, local, remote);
        if has_slot(full, id) {
            let q = choose|q: int| 0 <= q < full.len() && #[trigger] full[q].0 == id;
            if q < k.len() {
                assert(k[q].0 == id);
                assert(has_slot(k, id));
                let r = choose|r: int| 0 <= r < rest.len() && #[trigger] rest[r].0 == id;
                assert(s[r].0 == id);
            } else {
                assert(s[s.len() - 1].0 == id);
            }
        }
    }
}

proof fn lemma_slots_kept_distinct<B>(s: FrameSlots<B>, local: Seq<char>, remote: Seq<EntryView>)
    requires
        slots_distinct(s),
    ensures
        slots_distinct(slots_kept(s, local, remote)),
    decreases s.len(),
{
    if s.len() > 0 {
        let rest = s.drop_last();
        assert(slots_distinct(rest));
        lemma_slots_kept_distinct(rest, local, remote);
        lemma_slots_kept_has(rest, local, remote, s.last().0);
        let k = slots_kept(rest, local, remote);
        let full = slots_kept(s, local, remote);
        if s.last().0 == local || super::meeting_chat::has_key(remote, s.last().0) {
            assert(full == k.push(s.last()));
            assert forall|a: int, b: int| 0 <= a < b < full.len() implies #[trigger] full[a].0
                != #[trigger] full[b].0 by {
                if b == k.len() {
                    if k[a].0 == s.last().0 {
                        assert(has_slot(k, s.last().0));
                        let r = choose|r: int| 0 <= r < rest.len() && #[trigger] rest[r].0 == s.last().0;
                        assert(s[r].0 == s[s.len() - 1].0);
                    }
                } else {
                    assert(full[a] == k[a] && full[b] == k[b]);
                }
            }
        }
    }
}

/// Where `identity`'s frame is kept, if anywhere.
fn slot_index<B>(frames: &Vec<(String, Frame<B>)>, identity: &str) -> (found: Option<usize>)
    ensures
        found matches Some(i) ==> i < frames@.len() && slot_views(frames@)[i as int].0
            == identity@,
        found is None ==> !has_slot(slot_views(frames@), identity@),
{
    let mut i: usize = 0;
    while i < frames.len()
        invariant
            i <= frames@.len(),
            forall|j: int| 0 <= j < i ==> slot_views(frames@)[j].0 != identity@,
        decreases frames@.len() - i,
    {
        if str_eq(frames[i].0.as_str(), identity) {
            return Some(i);
        }
        i = i + 1;
    }
    None
}

/// Stores `frame` as `identity`'s latest.
fn insert_frame<B>(frames: &mut Vec<(String, Frame<B>)>, identity: String, frame: Frame<B>)
    requires
        slots_distinct(slot_views(old(frames)@)),
    ensures
        slots_distinct(slot_views(final(frames)@)),
        slot_views(final(frames)@) == slots_insert(slot_views(old(frames)@), identity@, frame),
{
    let ghost before = slot_views(frames@);
    let ghost entry = (identity@, frame);
    match slot_index(frames, identity.as_str()) {
        Some(i) => {
            frames.set(i, (identity, frame));
            proof {
                let k = choose|k: int| 0 <= k < before.len() && before[k].0 == entry.0;
                assert(k == i as int);
                assert(slot_views(frames@) =~= before.update(i as int, entry));
                let u = before.update(i as int, entry);
                assert forall|a: int, b: int| 0 <= a < b < u.len() implies #[trigger] u[a].0
                    != #[trigger] u[b].0 by {
                    assert(u[a].0 == before[a].0 && u[b].0 == before[b].0);
                }
            }
        },
        None => {
            frames.push((identity, frame));
            proof {
                assert(slot_views(frames@) =~= before.push(entry));
                let u = before.push(entry);
                assert forall|a: int, b: int| 0 <= a < b < u.len() implies #[trigger] u[a].0
                    != #[trigger] u[b].0 by {
                    if b == before.len() {
                        assert(before[a].0 != entry.0);
                    }
                }
            }
        },
    }
}

/// Drops `identity`'s frame.
fn remove_frame<B>(frames: &mut Vec<(String, Frame<B>)>, identity: &str)
    requires
        slots_distinct(slot_views(old(frames)@)),
    ensures
        slots_distinct(slot_views(final(frames)@)),
        slot_views(final(frames)@) == slots_without(slot_views(old(frames)@), identity@),
{
    let ghost before = slot_views(frames@);
    match slot_index(frames, identity) {
        Some(i) => {
            proof {
                lemma_slots_without(before, identity@, i as int);
            }
            let _ = frames.remove(i);
            proof {
                assert(slot_views(frames@) =~= before.remove(i as int));
                let u = before.remove(i as int);
                assert forall|a: int, b: int| 0 <= a < b < u.len() implies #[trigger] u[a].0
                    != #[trigger] u[b].0 by {
                    let a0 = if a < i { a } else { a + 1 };
                    let b0 = if b < i { b } else { b + 1 };
                    assert(u[a] == before[a0] && u[b] == before[b0]);
                }
            }
        },
        None => {
            proof {
                lemma_slots_without_absent(before, identity@);
            }
        },
    }
}

/// Keeps only the frames of `local` and of `remote`'s participants.
fn keep_frames<B>(frames: Vec<(String, Frame<B>)>, local: &str, remote: &Roster) -> (kept: Vec<
    (String, Frame<B>),
>)
    requires
        slots_distinct(slot_views(frames@)),
    ensures
        slots_distinct(slot_views(kept@)),
        slot_views(kept@) == slots_kept(slot_views(frames@), local@, remote@),
{
    let ghost all = slot_views(frames@);
    let count = frames.len();
    let mut rest = frames;
    let mut kept: Vec<(String, Frame<B>)> = Vec::new();
    let mut taken: usize = 0;
    proof {
        lemma_slots_kept_distinct(all, local@, remote@);
    }
    while rest.len() > 0
        invariant
            all.len() == count,
            taken + rest.len() == count,
            slot_views(rest@) == all.skip(taken as int),
            slot_views(kept@) == slots_kept(all.take(taken as int), local@, remote@),
        decreases rest.len(),
    {
        let ghost before = rest@;
        let entry = rest.remove(0);
        assert(slot_views(before)[0] == all.skip(taken as int)[0]);
        assert(rest@ =~= before.subrange(1, before.len() as int));
        assert(slot_views(rest@) =~= slot_views(before).subrange(1, before.len() as int));
        assert(slot_views(rest@) =~= all.skip(taken + 1));
        assert(all.take(taken + 1).drop_last() =~= all.take(taken as int));
        assert((entry.0@, entry.1) == all[taken as int]);
        if str_eq(entry.0.as_str(), local) || remote.contains_key(entry.0.as_str()) {
            let ghost k = kept@;
            kept.push(entry);
            assert(slot_views(kept@) =~= slot_views(k).push(all[taken as int]));
        }
        taken = taken + 1;
    }
    assert(all.take(taken as int) =~= all);
    proof {
        lemma_slots_kept_distinct(all, local@, remote@);
    }
    kept
}

#[derive(Debug)]
pub enum MeetingRoomMessage<B> {
    Status(Status),
    Frame { identity: String, frame: Frame<B> },
    VideoEnded(String),
    Participants { local: (String, String), remote: Roster },
    MeetingControls(MeetingControlsMessage),
    MeetingChat(MeetingChatMessage),
    ChatNotification(ChatNotificationMessage),
    ChatReceived(ChatEntry),
}

/// What the caller has to do after an update.
#[derive(Debug)]
pub enum MeetingRoomEffect {
    Nothing,
    /// Bring the microphone's mute and the camera's on/off in line with the
    /// controls.
    ApplyControls,
    /// Hand this message to the room loop for sending.
    SendChat(ChatRequest),
    /// Send the toast a `Dismiss` with this id after its timeout.
    ScheduleDismiss(u64),
}

/// The meeting room's state as plain data: status, ourselves, the remotes,
/// the latest frames, the controls, the chat panel and the toast.
pub type PageView<B> = (
    Status,
    Option<MemberView>,
    Seq<EntryView>,
    FrameSlots<B>,
    MeetingControls,
    ChatView,
    NotificationView,
);

/// `identity` is ours.
pub open spec fn is_ours(local: Option<MemberView>, identity: Seq<char>) -> bool {
    local matches Some(l) && l.0 == identity
}

/// The page after `message`, and what the caller has to do.
pub open spec fn spec_page_update<B>(v: PageView<B>, message: MeetingRoomMessage<B>) -> (
    PageView<B>,
    Option<MeetingRoomEffect>,
) {
    match message {
        MeetingRoomMessage::Status(status) => ((status, v.1, v.2, v.3, v.4, v.5, v.6), Some(
            MeetingRoomEffect::Nothing,
        )),
        MeetingRoomMessage::Frame { identity, frame } => (
            (
                v.0,
                v.1,
                v.2,
                // A frame already in flight when the camera was switched off
                // must not resurrect our tile.
                if is_ours(v.1, identity@) && v.4.camera_off {
                    v.3
                } else {
                    slots_insert(v.3, identity@, frame)
                },
                v.4,
                v.5,
                v.6,
            ),
            Some(MeetingRoomEffect::Nothing),
        ),
        MeetingRoomMessage::VideoEnded(identity) => (
            (v.0, v.1, v.2, slots_without(v.3, identity@), v.4, v.5, v.6),
            Some(MeetingRoomEffect::Nothing),
        ),
        MeetingRoomMessage::Participants { local, remote } => (
            (
                v.0,
                Some((local.0@, local.1@)),
                remote@,
                slots_kept(v.3, local.0@, remote@),
                v.4,
                chat_with_options(v.5, spec_recipients_of(remote@)),
                v.6,
            ),
            Some(MeetingRoomEffect::Nothing),
        ),
        MeetingRoomMessage::MeetingControls(m) => {
            let c = toggled(v.4, m);
            (
                (
                    v.0,
                    v.1,
                    v.2,
                    match v.1 {
                        Some(l) => if c.camera_off {
                            slots_without(v.3, l.0)
                        } else {
                            v.3
                        },
                        None => v.3,
                    },
                    c,
                    v.5,
                    if !c.chat_hidden {
                        (None, v.6.1)
                    } else {
                        v.6
                    },
                ),
                Some(MeetingRoomEffect::ApplyControls),
            )
        },
        MeetingRoomMessage::MeetingChat(m) => (
            (v.0, v.1, v.2, v.3, v.4, spec_chat_update(v.5, m).0, v.6),
            // A message to send is reported below, with its text.
            None,
        ),
        MeetingRoomMessage::ChatNotification(m) => {
            let (n, action) = spec_notification_update(v.6, m);
            match action {
                ChatNotificationAction::OpenChat => (
                    (
                        v.0,
                        v.1,
                        v.2,
                        v.3,
                        toggled(v.4, MeetingControlsMessage::ToggleChat),
                        v.5,
                        (None, n.1),
                    ),
                    Some(MeetingRoomEffect::Nothing),
                ),
                ChatNotificationAction::ScheduleDismiss(id) => (
                    (v.0, v.1, v.2, v.3, v.4, v.5, n),
                    Some(MeetingRoomEffect::ScheduleDismiss(id)),
                ),
                ChatNotificationAction::Nothing => (
                    (v.0, v.1, v.2, v.3, v.4, v.5, n),
                    Some(MeetingRoomEffect::Nothing),
                ),
            }
        },
        MeetingRoomMessage::ChatReceived(entry) => {
            let chat = (v.5.0.push(entry@), v.5.1, v.5.2, v.5.3);
            if v.4.chat_hidden {
                (
                    (v.0, v.1, v.2, v.3, v.4, chat, spec_show(v.6, entry@)),
                    Some(MeetingRoomEffect::ScheduleDismiss(v.6.1)),
                )
            } else {
                ((v.0, v.1, v.2, v.3, v.4, chat, v.6), Some(MeetingRoomEffect::Nothing))
            }
        },
    }
}

/// Whether `effect` is what the page asks for after `message`: the effect
/// `spec_page_update` names, or for a chat-panel message, the send of the
/// message the panel hands on (its text and recipient), or nothing.
pub open spec fn page_effect<B>(v: PageView<B>, message: MeetingRoomMessage<B>, effect: MeetingRoomEffect) -> bool {
    match spec_page_update(v, message).1 {
        Some(e) => effect == e,
        None => match message {
            MeetingRoomMessage::MeetingChat(m) => match spec_chat_update(v.5, m).1 {
                Some((body, recipient)) => {
                    &&& effect matches MeetingRoomEffect::SendChat(request)
                    &&& request.body@ == body
                    &&& request.recipient@ == recipient
                },
                None => effect is Nothing,
            },
            _ => true,
        },
    }
}

/// The microphone has nothing to do with video: with the camera on,
/// toggling it leaves every tile's frame as it was and the camera as it is,
/// and whatever the microphone's state, a new frame — ours included — is
/// what the page then holds for its sender.
pub proof fn lemma_microphone_leaves_video<B>(v: PageView<B>, identity: String, frame: Frame<B>)
    ensures
        spec_page_update(
            v,
            MeetingRoomMessage::MeetingControls(MeetingControlsMessage::ToggleMicrophone),
        ).0.4.camera_off == v.4.camera_off,
        !v.4.camera_off ==> spec_page_update(
            v,
            MeetingRoomMessage::MeetingControls(MeetingControlsMessage::ToggleMicrophone),
        ).0.3 == v.3,
        !v.4.camera_off ==> exists|i: int|
            0 <= i < spec_page_update(v, MeetingRoomMessage::Frame { identity, frame }).0.3.len()
                && #[trigger] spec_page_update(
                v,
                MeetingRoomMessage::Frame { identity, frame },
            ).0.3[i] == (identity@, frame),
{
    let after = spec_page_update(v, MeetingRoomMessage::Frame { identity, frame }).0.3;
    if !v.4.camera_off {
        if has_slot(v.3, identity@) {
            let i = choose|i: int| 0 <= i < v.3.len() && v.3[i].0 == identity@;
            assert(after[i] == (identity@, frame));
        } else {
            assert(after[v.3.len() as int] == (identity@, frame));
        }
    }
}

/// The meeting room with everyone in it.
pub struct MeetingRoomPage<B> {
    token: String,
    url: String,
    status: Status,
    /// Our own (identity, label); `None` until the room loop reports in.
    local: Option<(String, String)>,
    roster: Roster,
    /// Latest frame per participant identity, ours included.
    frames: Vec<(String, Frame<B>)>,
    meeting_controls: MeetingControls,
    meeting_chat: MeetingChat,
    chat_notification: ChatNotification,
}

impl<B> View for MeetingRoomPage<B> {
    type V = PageView<B>;

    closed spec fn view(&self) -> PageView<B> {
        (
            self.status,
            match self.local {
                Some(l) => Some((l.0@, l.1@)),
                None => None,
            },
            self.roster@,
            slot_views(self.frames@),
            self.meeting_controls,
            self.meeting_chat@,
            self.chat_notification@,
        )
    }
}

impl<B> MeetingRoomPage<B> {
    /// The remotes have distinct identities, and nobody has two frames.
    pub closed spec fn wf(&self) -> bool {
        &&& self.roster.wf()
        &&& slots_distinct(slot_views(self.frames@))
    }

    pub closed spec fn spec_token(&self) -> Seq<char> {
        self.token@
    }

    pub closed spec fn spec_url(&self) -> Seq<char> {
        self.url@
    }

    pub fn new(token: String, url: String) -> (page: Self)
        ensures
            page.wf(),
            page.spec_token() == token@,
            page.spec_url() == url@,
            page@.0 is Connecting,
            page@.1 is None,
            page@.2.len() == 0,
            page@.3.len() == 0,
            page@.4 == MeetingControls::spec_new(),
    {
        let page = Self {
            token,
            url,
            status: Status::Connecting,
            local: None,
            roster: Roster::new(),
            frames: Vec::new(),
            meeting_controls: MeetingControls::new(),
            meeting_chat: MeetingChat::new(),
            chat_notification: ChatNotification::new(),
        };
        assert(slot_views(page.frames@) =~= Seq::<(Seq<char>, Frame<B>)>::empty());
        page
    }

    pub fn status(&self) -> (status: &Status)
        ensures
            *status == self@.0,
    {
        &self.status
    }

    pub fn token(&self) -> (token: &String)
        ensures
            token@ == self.spec_token(),
    {
        &self.token
    }

    pub fn url(&self) -> (url: &String)
        ensures
            url@ == self.spec_url(),
    {
        &self.url
    }

    /// Our own `(identity, label)`, once the room loop has reported in.
    pub fn local(&self) -> (local: Option<&(String, String)>)
        ensures
            local is None <==> self@.1 is None,
            local matches Some(l) ==> self@.1 == Some((l.0@, l.1@)),
    {
        self.local.as_ref()
    }

    pub fn roster(&self) -> (roster: &Roster)
        ensures
            roster@ == self@.2,
    {
        &self.roster
    }

    /// The latest frame of everyone who has one, ours included.
    pub fn frames(&self) -> (frames: &[(String, Frame<B>)])
        ensures
            slot_views(frames@) == self@.3,
    {
        self.frames.as_slice()
    }

    pub fn controls(&self) -> (controls: MeetingControls)
        ensures
            controls == self@.4,
    {
        self.meeting_controls
    }

    pub fn chat(&self) -> (chat: &MeetingChat)
        ensures
            chat@ == self@.5,
    {
        &self.meeting_chat
    }

    pub fn notification(&self) -> (notification: &ChatNotification)
        ensures
            notification@ == self@.6,
    {
        &self.chat_notification
    }

    /// Everyone in the call as one roster, for the stage: ourselves (once
    /// known) and the remotes in arrival order.
    pub fn participants(&self) -> (members: Members)
        requires
            self.wf(),
        ensures
            members.wf(),
            members@ == (match self@.1 {
                Some(l) => super::data::roster_set_local(
                    super::data::roster_upsert_all(
                        (None::<MemberView>, Seq::<MemberView>::empty()),
                        self@.2,
                    ),
                    l,
                ),
                None => super::data::roster_upsert_all(
                    (None::<MemberView>, Seq::<MemberView>::empty()),
                    self@.2,
                ),
            }),
    {
        let mut remotes: Vec<Member> = Vec::new();
        let mut i: usize = 0;
        while i < self.roster.len()
            invariant
                i <= self.roster@.len(),
                remotes@.len() == i,
                super::data::views_of(remotes@) == self.roster@.take(i as int),
            decreases self.roster@.len() - i,
        {
            let (identity, label) = self.roster.entry(i);
            let ghost before = remotes@;
            remotes.push(Member { identity: identity.clone(), label: label.clone() });
            assert(super::data::views_of(remotes@) =~= self.roster@.take(i + 1)) by {
                assert(super::data::views_of(remotes@)[i as int] == self.roster@[i as int]);
                assert(super::data::views_of(before) =~= self.roster@.take(i as int));
            }
            i = i + 1;
        }
        assert(self.roster@.take(i as int) =~= self.roster@);
        let mut members = Members::from_members(remotes);
        if let Some(local) = &self.local {
            members.set_local(Member { identity: local.0.clone(), label: local.1.clone() });
        }
        members
    }

    fn is_local(&self, identity: &str) -> (ours: bool)
        ensures
            ours == is_ours(self@.1, identity@),
    {
        match &self.local {
            Some(local) => str_eq(local.0.as_str(), identity),
            None => false,
        }
    }

    pub fn update(&mut self, message: MeetingRoomMessage<B>) -> (effect: MeetingRoomEffect)
        requires
            old(self).wf(),
            message matches MeetingRoomMessage::Participants { remote, .. } ==> remote.wf(),
        ensures
            final(self).wf(),
            final(self).spec_token() == old(self).spec_token(),
            final(self).spec_url() == old(self).spec_url(),
            final(self)@ == spec_page_update(old(self)@, message).0,
            page_effect(old(self)@, message, effect),
    {
        match message {
            MeetingRoomMessage::Status(status) => {
                self.status = status;
                MeetingRoomEffect::Nothing
            },
            MeetingRoomMessage::Frame { identity, frame } => {
                let ours = self.is_local(identity.as_str());
                if !(ours && self.meeting_controls.camera_off) {
                    insert_frame(&mut self.frames, identity, frame);
                }
                MeetingRoomEffect::Nothing
            },
            MeetingRoomMessage::VideoEnded(identity) => {
                remove_frame(&mut self.frames, identity.as_str());
                MeetingRoomEffect::Nothing
            },
            MeetingRoomMessage::Participants { local, remote } => {
                let mut frames: Vec<(String, Frame<B>)> = Vec::new();
                std::mem::swap(&mut frames, &mut self.frames);
                self.frames = keep_frames(frames, local.0.as_str(), &remote);
                self.local = Some(local);
                let _ = self.meeting_chat.update(MeetingChatMessage::ParticipantsChanged(remote.clone()));
                self.roster = remote;
                MeetingRoomEffect::Nothing
            },
            MeetingRoomMessage::MeetingControls(message) => {
                self.meeting_controls.update(message);
                if self.meeting_controls.camera_off {
                    if let Some(local) = &self.local {
                        remove_frame(&mut self.frames, local.0.as_str());
                    }
                }
                if !self.meeting_controls.chat_hidden {
                    self.chat_notification.dismiss();
                }
                MeetingRoomEffect::ApplyControls
            },
            MeetingRoomMessage::MeetingChat(message) => {
                match self.meeting_chat.update(message) {
                    MeetingChatAction::Send(request) => MeetingRoomEffect::SendChat(request),
                    MeetingChatAction::Nothing => MeetingRoomEffect::Nothing,
                }
            },
            MeetingRoomMessage::ChatNotification(message) => {
                match self.chat_notification.update(message) {
                    ChatNotificationAction::OpenChat => {
                        self.meeting_controls.update(MeetingControlsMessage::ToggleChat);
                        self.chat_notification.dismiss();
                        MeetingRoomEffect::Nothing
                    },
                    ChatNotificationAction::ScheduleDismiss(id) => MeetingRoomEffect::ScheduleDismiss(
                        id,
                    ),
                    ChatNotificationAction::Nothing => MeetingRoomEffect::Nothing,
                }
            },
            MeetingRoomMessage::ChatReceived(entry) => {
                self.meeting_chat.push(entry.clone());
                if self.meeting_controls.chat_hidden {
                    match self.chat_notification.update(ChatNotificationMessage::Show(entry)) {
                        ChatNotificationAction::ScheduleDismiss(id) => MeetingRoomEffect::ScheduleDismiss(
                            id,
                        ),
                        _ => MeetingRoomEffect::Nothing,
                    }
                } else {
                    MeetingRoomEffect::Nothing
                }
            },
        }
    }
}

/// One remote video stream per participant: which track it plays, and the
/// handle that stops it.
pub struct VideoSubscriptions<H> {
    entries: Vec<(String, String, H)>,
}

/// The streams as plain data: `(identity, track sid, handle)`.
pub type SubscriptionView<H> = Seq<(Seq<char>, Seq<char>, H)>;

/// The streams of a list.
pub open spec fn subscription_views<H>(s: Seq<(String, String, H)>) -> SubscriptionView<H> {
    s.map_values(|e: (String, String, H)| (e.0@, e.1@, e.2))
}

/// Some stream plays `identity`.
pub open spec fn streams<H>(s: SubscriptionView<H>, identity: Seq<char>) -> bool {
    exists|i: int| 0 <= i < s.len() && #[trigger] s[i].0 == identity
}

/// Nobody has two streams.
pub open spec fn one_stream_each<H>(s: SubscriptionView<H>) -> bool {
    forall|i: int, j: int| 0 <= i < j < s.len() ==> #[trigger] s[i].0 != #[trigger] s[j].0
}

/// The stream of `identity` plays track `sid`.
pub open spec fn is_current<H>(s: SubscriptionView<H>, identity: Seq<char>, sid: Seq<char>) -> bool {
    exists|i: int| 0 <= i < s.len() && s[i].0 == identity && s[i].1 == sid
}

/// The streams after `identity` subscribed track `sid`: their stream
/// replaced in place, or a new one at the end.
pub open spec fn after_subscribe<H>(
    s: SubscriptionView<H>,
    identity: Seq<char>,
    sid: Seq<char>,
    handle: H,
) -> SubscriptionView<H> {
    if streams(s, identity) {
        s.update(choose|i: int| 0 <= i < s.len() && s[i].0 == identity, (identity, sid, handle))
    } else {
        s.push((identity, sid, handle))
    }
}

/// Latest wins, and a late unsubscribe cannot undo it: once `identity`
/// subscribed track `sid`, that track is what plays for them, and any other
/// track of theirs — the one it replaced among them — is no longer current,
/// so an unsubscribe naming it leaves the stream alone.
pub proof fn lemma_latest_subscription_wins<H>(
    s: SubscriptionView<H>,
    identity: Seq<char>,
    sid: Seq<char>,
    handle: H,
    stale_sid: Seq<char>,
)
    requires
        one_stream_each(s),
        stale_sid != sid,
    ensures
        one_stream_each(after_subscribe(s, identity, sid, handle)),
        is_current(after_subscribe(s, identity, sid, handle), identity, sid),
        !is_current(after_subscribe(s, identity, sid, handle), identity, stale_sid),
{
    let u = after_subscribe(s, identity, sid, handle);
    let i: int = if streams(s, identity) {
        choose|i: int| 0 <= i < s.len() && s[i].0 == identity
    } else {
        s.len() as int
    };
    assert(u[i] == (identity, sid, handle));
    assert forall|a: int, b: int| 0 <= a < b < u.len() implies #[trigger] u[a].0 != #[trigger] u[b].0 by {
        if a != i && b != i {
            assert(u[a] == s[a] && u[b] == s[b]);
        } else if a == i {
            assert(u[b] == s[b]);
            if streams(s, identity) {
                assert(s[a].0 == identity);
            }
        } else {
            assert(u[a] == s[a]);
            if streams(s, identity) {
                assert(s[b].0 == identity);
            }
        }
    }
    if is_current(u, identity, stale_sid) {
        let j = choose|j: int| 0 <= j < u.len() && u[j].0 == identity && u[j].1 == stale_sid;
        assert(j != i);
        assert(u[j].0 != u[i].0);
    }
}

impl<H> View for VideoSubscriptions<H> {
    type V = SubscriptionView<H>;

    closed spec fn view(&self) -> SubscriptionView<H> {
        subscription_views(self.entries@)
    }
}

impl<H> VideoSubscriptions<H> {
    pub open spec fn wf(&self) -> bool {
        one_stream_each(self@)
    }

    pub fn new() -> (subscriptions: Self)
        ensures
            subscriptions.wf(),
            subscriptions@.len() == 0,
    {
        let subscriptions = Self { entries: Vec::new() };
        assert(subscriptions@ =~= Seq::<(Seq<char>, Seq<char>, H)>::empty());
        subscriptions
    }

    fn index_of(&self, identity: &str) -> (found: Option<usize>)
        ensures
            found matches Some(i) ==> i < self@.len() && self@[i as int].0 == identity@,
            found is None ==> !streams(self@, identity@),
    {
        let mut i: usize = 0;
        while i < self.entries.len()
            invariant
                i <= self.entries@.len(),
                forall|j: int| 0 <= j < i ==> self@[j].0 != identity@,
            decreases self.entries@.len() - i,
        {
            if str_eq(self.entries[i].0.as_str(), identity) {
                return Some(i);
            }
            i = i + 1;
        }
        None
    }

    /// A video track of `identity` was subscribed. Latest wins: a reconnect
    /// can re-subscribe without an unsubscribe for the old track, so the
    /// replaced stream's handle comes back for the caller to stop.
    pub fn subscribed(&mut self, identity: String, sid: String, handle: H) -> (replaced: Option<H>)
        requires
            old(self).wf(),
        ensures
            final(self).wf(),
            streams(old(self)@, identity@) ==> exists|i: int|
                0 <= i < old(self)@.len() && old(self)@[i].0 == identity@ && replaced == Some(
                    old(self)@[i].2,
                ) && final(self)@ == old(self)@.update(i, (identity@, sid@, handle)),
            !streams(old(self)@, identity@) ==> replaced is None && final(self)@ == old(
                self,
            )@.push((identity@, sid@, handle)),
            final(self)@ == after_subscribe(old(self)@, identity@, sid@, handle),
    {
        let ghost before = self@;
        let ghost entry = (identity@, sid@, handle);
        match self.index_of(identity.as_str()) {
            Some(i) => {
                let mut slot = (identity, sid, handle);
                self.entries.set_and_swap(i, &mut slot);
                proof {
                    assert(self@ =~= before.update(i as int, entry));
                    let u = before.update(i as int, entry);
                    assert forall|a: int, b: int| 0 <= a < b < u.len() implies #[trigger] u[a].0
                        != #[trigger] u[b].0 by {
                        assert(u[a].0 == before[a].0 && u[b].0 == before[b].0);
                    }
                }
                Some(slot.2)
            },
            None => {
                self.entries.push((identity, sid, handle));
                proof {
                    assert(self@ =~= before.push(entry));
                    let u = before.push(entry);
                    assert forall|a: int, b: int| 0 <= a < b < u.len() implies #[trigger] u[a].0
                        != #[trigger] u[b].0 by {
                        if b == before.len() {
                            assert(before[a].0 != entry.0);
                        }
                    }
                }
                None
            },
        }
    }

    fn take_at(&mut self, i: usize) -> (removed: H)
        requires
            old(self).wf(),
            i < old(self)@.len(),
        ensures
            final(self).wf(),
            removed == old(self)@[i as int].2,
            final(self)@ == old(self)@.remove(i as int),
    {
        let ghost before = self@;
        let entry = self.entries.remove(i);
        proof {
            assert(self@ =~= before.remove(i as int));
            let u = before.remove(i as int);
            assert forall|a: int, b: int| 0 <= a < b < u.len() implies #[trigger] u[a].0
                != #[trigger] u[b].0 by {
                let a0 = if a < i { a } else { a + 1 };
                let b0 = if b < i { b } else { b + 1 };
                assert(u[a] == before[a0] && u[b] == before[b0]);
            }
        }
        entry.2
    }

    /// A video track of `identity` was unsubscribed. A late unsubscribe for a
    /// track already replaced must not kill its replacement: only the
    /// current track's stream is dropped, and its handle comes back for the
    /// caller to stop (and to clear the tile).
    pub fn unsubscribed(&mut self, identity: &str, sid: &str) -> (ended: Option<H>)
        requires
            old(self).wf(),
        ensures
            final(self).wf(),
            (exists|i: int|
                0 <= i < old(self)@.len() && old(self)@[i].0 == identity@ && old(self)@[i].1
                    == sid@) ==> exists|i: int|
                0 <= i < old(self)@.len() && old(self)@[i].0 == identity@ && ended == Some(
                    old(self)@[i].2,
                ) && final(self)@ == old(self)@.remove(i),
            !(exists|i: int|
                0 <= i < old(self)@.len() && old(self)@[i].0 == identity@ && old(self)@[i].1
                    == sid@) ==> ended is None && final(self)@ == old(self)@,
    {
        match self.index_of(identity) {
            Some(i) => {
                if str_eq(self.entries[i].1.as_str(), sid) {
                    Some(self.take_at(i))
                } else {
                    proof {
                        assert forall|j: int|
                            0 <= j < self@.len() && self@[j].0 == identity@ implies self@[j].1
                            != sid@ by {
                            if j != i {
                                assert(self@[j].0 != self@[i as int].0);
                            }
                        }
                    }
                    None
                }
            },
            None => None,
        }
    }

    /// `identity` left the call: its stream, if any, is dropped and its
    /// handle comes back for the caller to stop.
    pub fn left(&mut self, identity: &str) -> (ended: Option<H>)
        requires
            old(self).wf(),
        ensures
            final(self).wf(),
            streams(old(self)@, identity@) ==> exists|i: int|
                0 <= i < old(self)@.len() && old(self)@[i].0 == identity@ && ended == Some(
                    old(self)@[i].2,
                ) && final(self)@ == old(self)@.remove(i),
            !streams(old(self)@, identity@) ==> ended is None && final(self)@ == old(self)@,
    {
        match self.index_of(identity) {
            Some(i) => Some(self.take_at(i)),
            None => None,
        }
    }
}

/// What the room loop knows of the local camera: whether the user wants it
/// on, whether a device is open and feeding the room, and whether an open is
/// under way.
#[derive(Debug, Clone, Copy, PartialEq, Eq)]
pub struct CameraSwitch {
    pub wanted: bool,
    pub open: bool,
    pub opening: bool,
}

/// What the room loop has to do with the camera.
#[derive(Debug, Clone, Copy, PartialEq, Eq)]
pub enum CameraStep {
    Nothing,
    /// Open the device on a blocking thread.
    StartOpen,
    /// Unpublish the track, stop feeding it, and close the device.
    Close,
    /// Publish the freshly opened device and start feeding its frames.
    Publish,
    /// The device came up after the switch flipped back: close it unused.
    Discard,
}

impl CameraSwitch {
    /// The camera as the room loop starts: wanted, and open when the first
    /// attempt to open it succeeded.
    pub fn new(open: bool) -> (switch: Self)
        ensures
            switch == (CameraSwitch { wanted: true, open, opening: false }),
            !(switch.open && switch.opening),
    {
        CameraSwitch { wanted: true, open, opening: false }
    }

    /// The user switched the camera on or off. An open already in flight
    /// covers an "on"; a second one would fight it for the device.
    pub fn toggled(&mut self, wanted: bool) -> (step: CameraStep)
        ensures
            !(old(self).open && old(self).opening) ==> !(final(self).open && final(self).opening),
            final(self).wanted == wanted,
            wanted && !old(self).open && !old(self).opening ==> step == CameraStep::StartOpen
                && final(self).opening && !final(self).open,
            wanted && (old(self).open || old(self).opening) ==> step == CameraStep::Nothing
                && final(self).open == old(self).open && final(self).opening == old(self).opening,
            !wanted && old(self).open ==> step == CameraStep::Close && !final(self).open
                && final(self).opening == old(self).opening,
            !wanted && !old(self).open ==> step == CameraStep::Nothing && final(self).open
                == old(self).open && final(self).opening == old(self).opening,
    {
        self.wanted = wanted;
        if wanted {
            if !self.open && !self.opening {
                self.opening = true;
                return CameraStep::StartOpen;
            }
            CameraStep::Nothing
        } else if self.open {
            self.open = false;
            CameraStep::Close
        } else {
            CameraStep::Nothing
        }
    }

    /// An open finished, successfully or not. Seconds pass while a device
    /// comes up, long enough for the switch to have flipped back.
    pub fn opened(&mut self, success: bool) -> (step: CameraStep)
        ensures
            !(final(self).open && final(self).opening),
            !final(self).opening,
            final(self).wanted == old(self).wanted,
            !success ==> step == CameraStep::Nothing && final(self).open == old(self).open,
            success && !old(self).wanted ==> step == CameraStep::Discard && final(self).open
                == old(self).open,
            success && old(self).wanted ==> step == CameraStep::Publish && final(self).open,
    {
        self.opening = false;
        if !success {
            return CameraStep::Nothing;
        }
        if !self.wanted {
            return CameraStep::Discard;
        }
        self.open = true;
        CameraStep::Publish
    }
}

} // verus!
