//! The chat panel: the message log, the draft, and who it goes to.

use vstd::prelude::*;

use crate::sorting::{lemma_insert_at, lemma_sort_by, sort_by, sorted_by, strict_order};
use crate::text::{
    lemma_seq_lt_order, lowercase, seq_lt, str_eq, str_less, to_lowercase, trim, trimmed,
};

verus! {

/// Stands in for a participant identity on a message addressed to the room.
pub const EVERYONE_ID: &'static str = "__everyone__";

/// A recipient as plain text: `(id, label)`.
pub type RecipientView = (Seq<char>, Seq<char>);

/// Who a chat message is addressed to: one participant, or the whole room.
#[derive(Debug, PartialEq, Eq)]
pub struct Recipient {
    pub id: String,
    pub label: String,
}

impl View for Recipient {
    type V = RecipientView;

    open spec fn view(&self) -> RecipientView {
        (self.id@, self.label@)
    }
}

impl Clone for Recipient {
    fn clone(&self) -> (copy: Self)
        ensures
            copy@ == self@,
    {
        Recipient { id: self.id.clone(), label: self.label.clone() }
    }
}

/// The whole room, as the picker shows it.
pub open spec fn everyone_view() -> RecipientView {
    (EVERYONE_ID@, "Send to Everyone"@)
}

impl Recipient {
    pub fn everyone() -> (everyone: Self)
        ensures
            everyone@ == everyone_view(),
    {
        Self { id: String::from_str(EVERYONE_ID), label: String::from_str("Send to Everyone") }
    }

    pub fn is_everyone(&self) -> (room: bool)
        ensures
            room == (self.id@ == EVERYONE_ID@),
    {
        str_eq(self.id.as_str(), EVERYONE_ID)
    }
}

/// One line of the chat log.
#[derive(Debug)]
pub struct ChatEntry {
    pub sender: String,
    pub recipient: Recipient,
    pub body: String,
}

/// A chat entry as plain text: `(sender, recipient, body)`.
pub type ChatEntryView = (Seq<char>, RecipientView, Seq<char>);

impl View for ChatEntry {
    type V = ChatEntryView;

    open spec fn view(&self) -> ChatEntryView {
        (self.sender@, self.recipient@, self.body@)
    }
}

impl Clone for ChatEntry {
    fn clone(&self) -> (copy: Self)
        ensures
            copy@ == self@,
    {
        ChatEntry {
            sender: self.sender.clone(),
            recipient: self.recipient.clone(),
            body: self.body.clone(),
        }
    }
}

impl ChatEntry {
    /// `"<sender> → <recipient>: "`, shown in bold before the body.
    pub fn header(&self) -> (header: String)
        ensures
            header@ == self.sender@ + " → "@ + self.recipient.label@ + ": "@,
    {
        let mut header = self.sender.clone();
        header.append(" → ");
        header.append(self.recipient.label.as_str());
        header.append(": ");
        header
    }
}

/// A message the user asked to send.
#[derive(Debug)]
pub struct ChatRequest {
    pub body: String,
    pub recipient: Recipient,
}

impl Clone for ChatRequest {
    fn clone(&self) -> (copy: Self)
        ensures
            copy.body@ == self.body@,
            copy.recipient@ == self.recipient@,
    {
        ChatRequest { body: self.body.clone(), recipient: self.recipient.clone() }
    }
}

/// The remote participants, identity to label, in the order they arrived.
#[derive(Debug)]
pub struct Roster {
    entries: Vec<(String, String)>,
}

/// An entry as plain text: `(identity, label)`.
pub type EntryView = (Seq<char>, Seq<char>);

/// The entries of `s` as plain text.
pub open spec fn entry_views(s: Seq<(String, String)>) -> Seq<EntryView> {
    s.map_values(|e: (String, String)| (e.0@, e.1@))
}

/// Some entry has `identity`.
pub open spec fn has_key(s: Seq<EntryView>, identity: Seq<char>) -> bool {
    exists|i: int| 0 <= i < s.len() && #[trigger] s[i].0 == identity
}

/// No identity occurs twice.
pub open spec fn keys_distinct(s: Seq<EntryView>) -> bool {
    forall|i: int, j: int| 0 <= i < j < s.len() ==> #[trigger] s[i].0 != #[trigger] s[j].0
}

/// The entries with `identity` replaced in place, or appended when absent.
pub open spec fn roster_insert(s: Seq<EntryView>, identity: Seq<char>, label: Seq<char>) -> Seq<
    EntryView,
> {
    if has_key(s, identity) {
        s.update(choose|i: int| 0 <= i < s.len() && s[i].0 == identity, (identity, label))
    } else {
        s.push((identity, label))
    }
}

/// The entries without `identity`, order kept.
pub open spec fn roster_without(s: Seq<EntryView>, identity: Seq<char>) -> Seq<EntryView>
    decreases s.len(),
{
    if s.len() == 0 {
        s
    } else {
        let rest = roster_without(s.drop_last(), identity);
        if s.last().0 == identity {
            rest
        } else {
            rest.push(s.last())
        }
    }
}

proof fn lemma_roster_without(s: Seq<EntryView>, identity: Seq<char>, other: Seq<char>)
    ensures
        !has_key(roster_without(s, identity), identity),
        other != identity ==> (has_key(roster_without(s, identity), other) <==> has_key(s, other)),
        keys_distinct(s) ==> keys_distinct(roster_without(s, identity)),
    decreases s.len(),
{
    if s.len() > 0 {
        let rest = s.drop_last();
        let w = roster_without(rest, identity);
        let full = roster_without(s, identity);
        lemma_roster_without(rest, identity, other);
        lemma_roster_without(rest, identity, s.last().0);
        if has_key(full, identity) {
            let i = choose|i: int| 0 <= i < full.len() && #[trigger] full[i].0 == identity;
            if i < w.len() {
                assert(w[i].0 == identity);
            }
        }
        if other != identity {
            if has_key(s, other) {
                let i = choose|i: int| 0 <= i < s.len() && #[trigger] s[i].0 == other;
                if i < s.len() - 1 {
                    assert(rest[i].0 == other);
                    assert(has_key(rest, other));
                    let k = choose|k: int| 0 <= k < w.len() && #[trigger] w[k].0 == other;
                    assert(full[k].0 == other);
                } else {
                    assert(full[full.len() - 1].0 == other);
                }
            }
            if has_key(full, other) {
                let i = choose|i: int| 0 <= i < full.len() && #[trigger] full[i].0 == other;
                if i < w.len() {
                    assert(w[i].0 == other);
                    assert(has_key(w, other));
                    let k = choose|k: int| 0 <= k < rest.len() && #[trigger] rest[k].0 == other;
                    assert(s[k].0 == other);
                } else {
                    assert(s[s.len() - 1].0 == other);
                }
            }
        }
        if keys_distinct(s) {
            assert(keys_distinct(rest));
            if s.last().0 != identity {
                assert forall|i: int, j: int|
                    0 <= i < j < full.len() implies #[trigger] full[i].0 != #[trigger] full[j].0 by {
                    if j == w.len() {
                        if w[i].0 == s.last().0 {
                            assert(has_key(w, s.last().0));
                            let k = choose|k: int|
                                0 <= k < rest.len() && #[trigger] rest[k].0 == s.last().0;
                            assert(s[k].0 == s[s.len() - 1].0);
                        }
                    } else {
                        assert(full[i] == w[i] && full[j] == w[j]);
                    }
                }
            }
        }
    }
}

impl View for Roster {
    type V = Seq<EntryView>;

    closed spec fn view(&self) -> Seq<EntryView> {
        entry_views(self.entries@)
    }
}

impl Clone for Roster {
    fn clone(&self) -> (copy: Self)
        ensures
            copy@ == self@,
    {
        let mut entries: Vec<(String, String)> = Vec::new();
        let mut i: usize = 0;
        while i < self.entries.len()
            invariant
                i <= self.entries.len(),
                entries@.len() == i,
                entry_views(entries@) == entry_views(self.entries@).take(i as int),
            decreases self.entries.len() - i,
        {
            let e = (self.entries[i].0.clone(), self.entries[i].1.clone());
            let ghost before = entries@;
            entries.push(e);
            assert(entries@ == before.push(e));
            assert(before.len() == i);
            assert(entries@.len() == i + 1);
            assert(entries@[i as int].0@ == self.entries@[i as int].0@);
            assert(entries@[i as int].1@ == self.entries@[i as int].1@);
            assert(entry_views(entries@) =~= entry_views(self.entries@).take(i + 1));
            i = i + 1;
        }
        assert(entry_views(self.entries@).take(i as int) =~= entry_views(self.entries@));
        Roster { entries }
    }
}

impl Roster {
    /// No identity occurs twice.
    pub open spec fn wf(&self) -> bool {
        keys_distinct(self@)
    }

    pub fn new() -> (roster: Self)
        ensures
            roster.wf(),
            roster@ == Seq::<EntryView>::empty(),
    {
        let roster = Roster { entries: Vec::new() };
        assert(roster@ =~= Seq::<EntryView>::empty());
        roster
    }

    pub fn len(&self) -> (n: usize)
        ensures
            n == self@.len(),
    {
        self.entries.len()
    }

    /// The `i`-th entry, in arrival order.
    pub fn entry(&self, i: usize) -> (entry: (&String, &String))
        requires
            i < self@.len(),
        ensures
            entry.0@ == self@[i as int].0,
            entry.1@ == self@[i as int].1,
    {
        (&self.entries[i].0, &self.entries[i].1)
    }

    fn index_of(&self, identity: &str) -> (found: Option<usize>)
        ensures
            found matches Some(i) ==> i < self@.len() && self@[i as int].0 == identity@,
            found is None ==> !has_key(self@, identity@),
    {
        let mut i: usize = 0;
        while i < self.entries.len()
            invariant
                i <= self.entries.len(),
                forall|j: int| 0 <= j < i ==> self@[j].0 != identity@,
            decreases self.entries.len() - i,
        {
            if str_eq(self.entries[i].0.as_str(), identity) {
                return Some(i);
            }
            i = i + 1;
        }
        None
    }

    pub fn contains_key(&self, identity: &str) -> (present: bool)
        ensures
            present == has_key(self@, identity@),
    {
        self.index_of(identity).is_some()
    }

    /// The label of `identity`, if present.
    pub fn get(&self, identity: &str) -> (label: Option<&String>)
        requires
            self.wf(),
        ensures
            label is None <==> !has_key(self@, identity@),
            label matches Some(l) ==> exists|i: int|
                0 <= i < self@.len() && self@[i].0 == identity@ && l@ == self@[i].1,
    {
        match self.index_of(identity) {
            Some(i) => Some(&self.entries[i].1),
            None => None,
        }
    }

    /// Sets the label of `identity`, adding it when absent.
    pub fn insert(&mut self, identity: String, label: String)
        requires
            old(self).wf(),
        ensures
            final(self).wf(),
            final(self)@ == roster_insert(old(self)@, identity@, label@),
    {
        let ghost before = self@;
        let ghost entry = (identity@, label@);
        match self.index_of(identity.as_str()) {
            Some(i) => {
                self.entries.set(i, (identity, label));
                proof {
                    let k = choose|k: int| 0 <= k < before.len() && before[k].0 == entry.0;
                    assert(k == i as int);
                    assert(self@ =~= before.update(i as int, entry));
                    let u = before.update(i as int, entry);
                    assert forall|a: int, b: int|
                        0 <= a < b < u.len() implies #[trigger] u[a].0 != #[trigger] u[b].0 by {
                        assert(u[a].0 == before[a].0 && u[b].0 == before[b].0);
                    }
                }
            },
            None => {
                self.entries.push((identity, label));
                proof {
                    assert(self@ =~= before.push(entry));
                    let u = before.push(entry);
                    assert forall|a: int, b: int|
                        0 <= a < b < u.len() implies #[trigger] u[a].0 != #[trigger] u[b].0 by {
                        if b == before.len() {
                            assert(before[a].0 != entry.0);
                        }
                    }
                }
            },
        }
    }

    /// Forgets `identity`.
    pub fn remove(&mut self, identity: &str)
        requires
            old(self).wf(),
        ensures
            final(self).wf(),
            final(self)@ == roster_without(old(self)@, identity@),
    {
        proof {
            lemma_roster_without(self@, identity@, identity@);
        }
        let mut kept: Vec<(String, String)> = Vec::new();
        let mut i: usize = 0;
        while i < self.entries.len()
            invariant
                i <= self.entries.len(),
                entry_views(kept@) == roster_without(self@.take(i as int), identity@),
            decreases self.entries.len() - i,
        {
            assert(self@.take(i + 1).drop_last() =~= self@.take(i as int));
            if !str_eq(self.entries[i].0.as_str(), identity) {
                let e = (self.entries[i].0.clone(), self.entries[i].1.clone());
                kept.push(e);
                assert(entry_views(kept@) =~= roster_without(self@.take(i as int), identity@).push(
                    self@[i as int],
                ));
            }
            i = i + 1;
        }
        assert(self@.take(i as int) =~= self@);
        self.entries = kept;
    }
}

/// The picker lists the room first and then every participant ordered by
/// the Unicode lowercase of its label: no option, lowercased, sorts
/// strictly before one shown above it.
pub proof fn lemma_recipients_in_lowercase_order(roster: Seq<EntryView>)
    ensures
        spec_recipients_of(roster)[0] == (EVERYONE_ID@, "Send to Everyone"@),
        forall|i: int, j: int|
            1 <= i < j < spec_recipients_of(roster).len() ==> !seq_lt(
                lowercase(#[trigger] spec_recipients_of(roster)[j].1),
                lowercase(#[trigger] spec_recipients_of(roster)[i].1),
            ),
{
    lemma_recipients_sorted(roster);
    let all = spec_recipients_of(roster);
    let rest = all.drop_first();
    assert forall|i: int, j: int| 1 <= i < j < all.len() implies !seq_lt(
        lowercase(#[trigger] all[j].1),
        lowercase(#[trigger] all[i].1),
    ) by {
        assert(rest[i - 1] == all[i] && rest[j - 1] == all[j]);
        assert(!(label_less())(rest[j - 1], rest[i - 1]));
    }
}

/// Sending changes only the draft: the log, the options and the picked
/// recipient stay as they were, and what goes out goes to that recipient —
/// so a run of private replies all reach the same person.
pub proof fn lemma_send_keeps_recipient(c: ChatView)
    ensures
        spec_chat_update(c, MeetingChatMessage::Send).0.0 == c.0,
        spec_chat_update(c, MeetingChatMessage::Send).0.2 == c.2,
        spec_chat_update(c, MeetingChatMessage::Send).0.3 == c.3,
        spec_chat_update(c, MeetingChatMessage::Send).1 matches Some((_, to)) ==> to == c.3,
{
}

/// How many entries carry `label`.
pub open spec fn label_count(s: Seq<EntryView>, label: Seq<char>) -> nat
    decreases s.len(),
{
    if s.len() == 0 {
        0
    } else {
        label_count(s.drop_last(), label) + if s.last().1 == label {
            1nat
        } else {
            0nat
        }
    }
}

/// The label a participant gets in the picker: their own, or, when someone
/// else shares it, `"<label> (<identity>)"`.
pub open spec fn picker_label(all: Seq<EntryView>, e: EntryView) -> Seq<char> {
    if label_count(all, e.1) > 1 {
        e.1 + " ("@ + e.0 + ")"@
    } else {
        e.1
    }
}

/// One recipient per entry of `s` whose identity is not the room's, in
/// order, labelled against `all`.
pub open spec fn named_recipients(s: Seq<EntryView>, all: Seq<EntryView>) -> Seq<RecipientView>
    decreases s.len(),
{
    if s.len() == 0 {
        Seq::empty()
    } else {
        let rest = named_recipients(s.drop_last(), all);
        if s.last().0 == EVERYONE_ID@ {
            rest
        } else {
            rest.push((s.last().0, picker_label(all, s.last())))
        }
    }
}

/// Sorts by lowercase label.
pub open spec fn label_less() -> spec_fn(RecipientView, RecipientView) -> bool {
    |a: RecipientView, b: RecipientView| seq_lt(lowercase(a.1), lowercase(b.1))
}

/// The picker's options: the room first, then everyone else sorted by
/// lowercase label, ties in roster order.
pub open spec fn spec_recipients_of(roster: Seq<EntryView>) -> Seq<RecipientView> {
    seq![everyone_view()] + sort_by(named_recipients(roster, roster), label_less())
}

proof fn lemma_label_less_order()
    ensures
        strict_order(label_less()),
{
    assert forall|a: RecipientView| !#[trigger] (label_less())(a, a) by {
        lemma_seq_lt_order(lowercase(a.1), lowercase(a.1), lowercase(a.1));
    }
    assert forall|a: RecipientView, b: RecipientView, c: RecipientView|
        #[trigger] (label_less())(a, b) && #[trigger] (label_less())(b, c) implies (label_less())(
        a,
        c,
    ) by {
        lemma_seq_lt_order(lowercase(a.1), lowercase(b.1), lowercase(c.1));
    }
}

/// The picker after the room comes sorted by lowercase label and holds one
/// entry per participant other than the room itself.
pub proof fn lemma_recipients_sorted(roster: Seq<EntryView>)
    ensures
        spec_recipients_of(roster)[0] == everyone_view(),
        sorted_by(spec_recipients_of(roster).drop_first(), label_less()),
        spec_recipients_of(roster).drop_first().to_multiset() == named_recipients(
            roster,
            roster,
        ).to_multiset(),
{
    lemma_label_less_order();
    lemma_sort_by(named_recipients(roster, roster), label_less());
    assert(spec_recipients_of(roster).drop_first() =~= sort_by(
        named_recipients(roster, roster),
        label_less(),
    ));
}

/// How many entries carry `label`.
fn count_label(roster: &Roster, label: &str) -> (count: usize)
    ensures
        count == label_count(roster@, label@),
{
    let mut count: usize = 0;
    let mut i: usize = 0;
    while i < roster.len()
        invariant
            i <= roster@.len(),
            count == label_count(roster@.take(i as int), label@),
            count <= i,
        decreases roster@.len() - i,
    {
        let (_, l) = roster.entry(i);
        assert(roster@.take(i + 1).drop_last() =~= roster@.take(i as int));
        if str_eq(l.as_str(), label) {
            count = count + 1;
        }
        i = i + 1;
    }
    assert(roster@.take(i as int) =~= roster@);
    count
}

/// The options for the recipient picker: the room first, then every
/// participant sorted case-insensitively by label, with the identity added to
/// labels that more than one participant shares.
pub fn recipients_of(roster: &Roster) -> (recipients: Vec<Recipient>)
    ensures
        recipients@.map_values(|r: Recipient| r@) == spec_recipients_of(roster@),
{
    let ghost all = roster@;
    let ghost less = label_less();
    // Sorted so far, and each one's lowercase label.
    let mut sorted: Vec<Recipient> = Vec::new();
    let mut keys: Vec<String> = Vec::new();
    let mut i: usize = 0;
    while i < roster.len()
        invariant
            all == roster@,
            less == label_less(),
            i <= all.len(),
            sorted@.len() == keys@.len(),
            sorted@.map_values(|r: Recipient| r@) == sort_by(
                named_recipients(all.take(i as int), all),
                less,
            ),
            forall|j: int| 0 <= j < keys@.len() ==> #[trigger] keys@[j]@ == lowercase(sorted@[j]@.1),
        decreases all.len() - i,
    {
        let (identity, label) = roster.entry(i);
        assert(all.take(i + 1).drop_last() =~= all.take(i as int));
        assert(all.take(i + 1).last() == all[i as int]);
        let ghost rest = named_recipients(all.take(i as int), all);
        if str_eq(identity.as_str(), EVERYONE_ID) {
            assert(named_recipients(all.take(i + 1), all) == rest);
        } else {
            let shown = if count_label(roster, label.as_str()) > 1 {
                let mut shown = label.clone();
                shown.append(" (");
                shown.append(identity.as_str());
                shown.append(")");
                shown
            } else {
                label.clone()
            };
            let recipient = Recipient { id: identity.clone(), label: shown };
            let key = to_lowercase(recipient.label.as_str());
            let ghost x = recipient@;
            let ghost before = sorted@.map_values(|r: Recipient| r@);
            let ghost keys_before = keys@;
            let ghost sorted_before = sorted@;
            let mut p: usize = 0;
            while p < sorted.len() && !str_less(key.as_str(), keys[p].as_str())
                invariant
                    p <= sorted@.len(),
                    sorted@.len() == keys@.len(),
                    before == sorted@.map_values(|r: Recipient| r@),
                    forall|j: int|
                        0 <= j < keys@.len() ==> #[trigger] keys@[j]@ == lowercase(sorted@[j]@.1),
                    key@ == lowercase(x.1),
                    less == label_less(),
                    keys_before == keys@,
                    sorted_before == sorted@,
                    forall|j: int| 0 <= j < p ==> !less(x, #[trigger] before[j]),
                decreases sorted@.len() - p,
            {
                assert(keys@[p as int]@ == lowercase(before[p as int].1));
                p = p + 1;
            }
            proof {
                if p < sorted@.len() {
                    assert(keys@[p as int]@ == lowercase(before[p as int].1));
                }
                lemma_insert_at(before, x, less, p as int);
            }
            sorted.insert(p, recipient);
            keys.insert(p, key);
            assert(sorted@.map_values(|r: Recipient| r@) =~= before.insert(p as int, x));
            assert(x == (all[i as int].0, picker_label(all, all[i as int])));
            assert(named_recipients(all.take(i + 1), all) == rest.push(x));
            assert(rest.push(x).drop_last() =~= rest);
            assert forall|j: int| 0 <= j < keys@.len() implies #[trigger] keys@[j]@ == lowercase(
                sorted@[j]@.1,
            ) by {
                if j < p {
                } else if j == p {
                } else {
                    assert(keys@[j] == keys_before[j - 1]);
                    assert(sorted@[j] == sorted_before[j - 1]);
                }
            }
        }
        i = i + 1;
    }
    assert(all.take(i as int) =~= all);
    let ghost tail = sorted@.map_values(|r: Recipient| r@);
    sorted.insert(0, Recipient::everyone());
    assert(sorted@.map_values(|r: Recipient| r@) =~= seq![everyone_view()] + tail);
    sorted
}

/// What the chat panel holds, as plain text: the log, the draft, the picker's
/// options and the current recipient.
pub type ChatView = (Seq<ChatEntryView>, Seq<char>, Seq<RecipientView>, RecipientView);

/// The views of a sequence of recipients.
pub open spec fn recipient_views(s: Seq<Recipient>) -> Seq<RecipientView> {
    s.map_values(|r: Recipient| r@)
}

/// Some option is addressed to `id`.
pub open spec fn offers(options: Seq<RecipientView>, id: Seq<char>) -> bool {
    exists|i: int| 0 <= i < options.len() && #[trigger] options[i].0 == id
}

/// The panel once the participants give `options`: unchanged when the options
/// are the same; otherwise the new options, and the room as recipient when the
/// current pick is no longer among them.
pub open spec fn chat_with_options(c: ChatView, options: Seq<RecipientView>) -> ChatView {
    if options == c.2 {
        c
    } else {
        (c.0, c.1, options, if offers(options, c.3.0) { c.3 } else { everyone_view() })
    }
}

/// The panel after `message`, and the message to send, if any: `(body,
/// recipient)`. Sending takes the trimmed draft, when anything is left of it,
/// and clears the draft.
pub open spec fn spec_chat_update(c: ChatView, message: MeetingChatMessage) -> (ChatView, Option<
    (Seq<char>, RecipientView),
>) {
    match message {
        MeetingChatMessage::DraftChanged(draft) => ((c.0, draft@, c.2, c.3), None),
        MeetingChatMessage::RecipientSelected(recipient) => ((c.0, c.1, c.2, recipient@), None),
        MeetingChatMessage::ParticipantsChanged(roster) => (
            chat_with_options(c, spec_recipients_of(roster@)),
            None,
        ),
        MeetingChatMessage::Send => if trimmed(c.1).len() > 0 {
            ((c.0, Seq::<char>::empty(), c.2, c.3), Some((trimmed(c.1), c.3)))
        } else {
            (c, None)
        },
    }
}

#[derive(Debug)]
pub struct MeetingChat {
    messages: Vec<ChatEntry>,
    draft: String,
    recipients: Vec<Recipient>,
    recipient: Recipient,
}

#[derive(Debug)]
pub enum MeetingChatMessage {
    DraftChanged(String),
    RecipientSelected(Recipient),
    ParticipantsChanged(Roster),
    Send,
}

#[derive(Debug)]
pub enum MeetingChatAction {
    Nothing,
    Send(ChatRequest),
}

impl View for MeetingChat {
    type V = ChatView;

    closed spec fn view(&self) -> ChatView {
        (
            self.messages@.map_values(|e: ChatEntry| e@),
            self.draft@,
            recipient_views(self.recipients@),
            self.recipient@,
        )
    }
}

/// The two option lists are the same, recipient by recipient.
fn same_recipients(a: &Vec<Recipient>, b: &Vec<Recipient>) -> (same: bool)
    ensures
        same == (recipient_views(a@) == recipient_views(b@)),
{
    if a.len() != b.len() {
        assert(recipient_views(a@).len() != recipient_views(b@).len());
        return false;
    }
    let mut i: usize = 0;
    while i < a.len()
        invariant
            a@.len() == b@.len(),
            i <= a@.len(),
            forall|j: int| 0 <= j < i ==> recipient_views(a@)[j] == recipient_views(b@)[j],
        decreases a@.len() - i,
    {
        if !str_eq(a[i].id.as_str(), b[i].id.as_str()) || !str_eq(
            a[i].label.as_str(),
            b[i].label.as_str(),
        ) {
            assert(recipient_views(a@)[i as int] != recipient_views(b@)[i as int]);
            return false;
        }
        i = i + 1;
    }
    assert(recipient_views(a@) =~= recipient_views(b@));
    true
}

impl MeetingChat {
    pub fn new() -> (chat: Self)
        ensures
            chat@ == (
                Seq::<ChatEntryView>::empty(),
                Seq::<char>::empty(),
                seq![everyone_view()],
                everyone_view(),
            ),
    {
        let mut recipients: Vec<Recipient> = Vec::new();
        recipients.push(Recipient::everyone());
        let chat = Self {
            messages: Vec::new(),
            draft: String::new(),
            recipients,
            recipient: Recipient::everyone(),
        };
        assert(chat@.0 =~= Seq::<ChatEntryView>::empty());
        assert(chat@.2 =~= seq![everyone_view()]);
        chat
    }

    pub fn update(&mut self, message: MeetingChatMessage) -> (action: MeetingChatAction)
        ensures
            final(self)@ == spec_chat_update(old(self)@, message).0,
            match spec_chat_update(old(self)@, message).1 {
                Some((body, recipient)) => {
                    &&& action matches MeetingChatAction::Send(request)
                    &&& request.body@ == body
                    &&& request.recipient@ == recipient
                },
                None => action is Nothing,
            },
    {
        match message {
            MeetingChatMessage::DraftChanged(draft) => self.draft = draft,
            MeetingChatMessage::RecipientSelected(recipient) => self.recipient = recipient,
            MeetingChatMessage::ParticipantsChanged(roster) => {
                let options = recipients_of(&roster);
                if !same_recipients(&self.recipients, &options) {
                    // Rather than quietly redirect the next message to whoever
                    // sorted into the same slot, fall back to the room when the
                    // pick has left.
                    let mut still_here = false;
                    let mut i: usize = 0;
                    while i < options.len()
                        invariant
                            i <= options@.len(),
                            still_here == exists|j: int|
                                0 <= j < i && #[trigger] recipient_views(options@)[j].0
                                    == self.recipient@.0,
                        decreases options@.len() - i,
                    {
                        if str_eq(options[i].id.as_str(), self.recipient.id.as_str()) {
                            assert(recipient_views(options@)[i as int].0 == self.recipient@.0);
                            still_here = true;
                        }
                        i = i + 1;
                    }
                    if !still_here {
                        self.recipient = Recipient::everyone();
                    }
                    self.recipients = options;
                }
            },
            MeetingChatMessage::Send => {
                let message = trim(self.draft.as_str());
                if !message.is_empty() {
                    let body = message.to_owned();
                    self.draft = String::new();
                    return MeetingChatAction::Send(
                        ChatRequest { body, recipient: self.recipient.clone() },
                    );
                }
            },
        }
        MeetingChatAction::Nothing
    }

    /// Appends an entry to the log.
    pub fn push(&mut self, entry: ChatEntry)
        ensures
            final(self)@ == (old(self)@.0.push(entry@), old(self)@.1, old(self)@.2, old(self)@.3),
    {
        let ghost before = self.messages@;
        self.messages.push(entry);
        assert(self.messages@.map_values(|e: ChatEntry| e@) =~= before.map_values(
            |e: ChatEntry| e@,
        ).push(entry@));
    }

    pub fn messages(&self) -> (messages: &[ChatEntry])
        ensures
            messages@.map_values(|e: ChatEntry| e@) == self@.0,
    {
        self.messages.as_slice()
    }

    pub fn draft(&self) -> (draft: &String)
        ensures
            draft@ == self@.1,
    {
        &self.draft
    }

    pub fn recipients(&self) -> (recipients: &[Recipient])
        ensures
            recipient_views(recipients@) == self@.2,
    {
        self.recipients.as_slice()
    }

    pub fn recipient(&self) -> (recipient: &Recipient)
        ensures
            recipient@ == self@.3,
    {
        &self.recipient
    }
}

} // verus!
