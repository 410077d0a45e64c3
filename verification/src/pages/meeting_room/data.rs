//! Types shared across the meeting room's panels.

use vstd::prelude::*;

use crate::text::str_eq;

verus! {

/// Stands in for a participant identity on a message addressed to the room.
/// No real identity can collide with it, so it doubles as the "everyone"
/// entry in the recipient picker.
pub const EVERYONE_ID: &'static str = "__everyone__";

/// A member as plain text: `(identity, label)`.
pub type MemberView = (Seq<char>, Seq<char>);

/// A roster as plain text: ourselves, then the remotes in roster order.
pub type RosterView = (Option<MemberView>, Seq<MemberView>);

/// What to show for a participant: their name, or their identity when they
/// joined without one.
pub open spec fn spec_participant_label(name: Seq<char>, identity: Seq<char>) -> Seq<char> {
    if name.len() == 0 {
        identity
    } else {
        name
    }
}

/// One person in the call, as the UI sees them.
#[derive(Debug, PartialEq, Eq)]
pub struct Member {
    /// The stable key `LiveKit` routes on.
    pub identity: String,
    pub label: String,
}

impl View for Member {
    type V = MemberView;

    open spec fn view(&self) -> MemberView {
        (self.identity@, self.label@)
    }
}

impl Clone for Member {
    fn clone(&self) -> (copy: Self)
        ensures
            copy@ == self@,
    {
        Member { identity: self.identity.clone(), label: self.label.clone() }
    }
}

impl Member {
    pub fn new(name: String, identity: String) -> (member: Self)
        ensures
            member.identity@ == identity@,
            member.label@ == spec_participant_label(name@, identity@),
    {
        Self { label: participant_label(name, identity.clone()), identity }
    }
}

/// What to show for a participant: their name, or their identity when they
/// joined without one.
pub fn participant_label(name: String, identity: String) -> (label: String)
    ensures
        label@ == spec_participant_label(name@, identity@),
{
    if name.as_str().is_empty() {
        identity
    } else {
        name
    }
}

/// The views of a sequence of members.
pub open spec fn views_of(members: Seq<Member>) -> Seq<MemberView> {
    members.map_values(|m: Member| m@)
}

/// Some member of `s` has `identity`.
pub open spec fn has_identity(s: Seq<MemberView>, identity: Seq<char>) -> bool {
    exists|i: int| 0 <= i < s.len() && #[trigger] s[i].0 == identity
}

/// No identity occurs twice in `s`.
pub open spec fn identities_distinct(s: Seq<MemberView>) -> bool {
    forall|i: int, j: int| 0 <= i < j < s.len() ==> #[trigger] s[i].0 != #[trigger] s[j].0
}

/// `s` without the members whose identity is `identity`, order kept.
pub open spec fn without(s: Seq<MemberView>, identity: Seq<char>) -> Seq<MemberView>
    decreases s.len(),
{
    if s.len() == 0 {
        s
    } else {
        let rest = without(s.drop_last(), identity);
        if s.last().0 == identity {
            rest
        } else {
            rest.push(s.last())
        }
    }
}

/// Every identity in the roster is unique, ourselves included.
pub open spec fn roster_wf(v: RosterView) -> bool {
    &&& identities_distinct(v.1)
    &&& v.0 matches Some(local) ==> !has_identity(v.1, local.0)
}

/// `identity` is ours.
pub open spec fn roster_is_local(v: RosterView, identity: Seq<char>) -> bool {
    v.0 matches Some(local) && local.0 == identity
}

/// `identity` is in the call, ourselves included.
pub open spec fn roster_contains(v: RosterView, identity: Seq<char>) -> bool {
    roster_is_local(v, identity) || has_identity(v.1, identity)
}

/// Everyone in order: ourselves first, then the remotes.
pub open spec fn roster_members(v: RosterView) -> Seq<MemberView> {
    match v.0 {
        Some(local) => seq![local] + v.1,
        None => v.1,
    }
}

/// Ourselves set to `member`; a remote with the same identity leaves.
pub open spec fn roster_set_local(v: RosterView, member: MemberView) -> RosterView {
    (Some(member), without(v.1, member.0))
}

/// Adds a remote, or replaces whoever already has this identity (ourselves
/// included) in place.
pub open spec fn roster_upsert(v: RosterView, member: MemberView) -> RosterView {
    if roster_is_local(v, member.0) {
        (Some(member), v.1)
    } else if has_identity(v.1, member.0) {
        (v.0, v.1.update(choose|i: int| 0 <= i < v.1.len() && v.1[i].0 == member.0, member))
    } else {
        (v.0, v.1.push(member))
    }
}

/// The remote with `identity` leaves; we never leave our own call.
pub open spec fn roster_remove(v: RosterView, identity: Seq<char>) -> RosterView {
    (v.0, without(v.1, identity))
}

/// Remotes upserted one after the other, starting from `v`.
pub open spec fn roster_upsert_all(v: RosterView, members: Seq<MemberView>) -> RosterView
    decreases members.len(),
{
    if members.len() == 0 {
        v
    } else {
        roster_upsert(roster_upsert_all(v, members.drop_last()), members.last())
    }
}

/// Everyone in the call, including ourselves.
#[derive(Debug, PartialEq, Eq)]
pub struct Roster {
    local: Option<Member>,
    remotes: Vec<Member>,
}

impl View for Roster {
    type V = RosterView;

    closed spec fn view(&self) -> RosterView {
        (
            match self.local {
                Some(m) => Some(m@),
                None => None,
            },
            views_of(self.remotes@),
        )
    }
}

/// Removing `identity` from a sequence leaves it without `identity` and with
/// every other identity it had, and keeps identities distinct.
pub proof fn lemma_without_has(s: Seq<MemberView>, identity: Seq<char>, other: Seq<char>)
    ensures
        !has_identity(without(s, identity), identity),
        other != identity ==> (has_identity(without(s, identity), other) <==> has_identity(
            s,
            other,
        )),
        !has_identity(s, other) ==> !has_identity(without(s, identity), other),
    decreases s.len(),
{
    if s.len() > 0 {
        let rest = s.drop_last();
        let w = without(rest, identity);
        lemma_without_has(rest, identity, other);
        lemma_without_has(rest, identity, identity);
        let full = without(s, identity);
        if has_identity(full, identity) {
            let i = choose|i: int| 0 <= i < full.len() && #[trigger] full[i].0 == identity;
            if i < w.len() {
                assert(w[i].0 == identity);
            }
        }
        if has_identity(s, other) && other != identity {
            let i = choose|i: int| 0 <= i < s.len() && #[trigger] s[i].0 == other;
            if i < s.len() - 1 {
                assert(rest[i].0 == other);
                assert(has_identity(rest, other));
                let k = choose|k: int| 0 <= k < w.len() && #[trigger] w[k].0 == other;
                assert(full[k].0 == other);
            } else {
                assert(full[full.len() - 1].0 == other);
            }
        }
        if has_identity(full, other) {
            let i = choose|i: int| 0 <= i < full.len() && #[trigger] full[i].0 == other;
            if i < w.len() {
                assert(w[i].0 == other);
                assert(has_identity(w, other));
                let k = choose|k: int| 0 <= k < rest.len() && #[trigger] rest[k].0 == other;
                assert(s[k].0 == other);
            } else {
                assert(s[s.len() - 1].0 == other);
            }
        }
    }
}

/// Removing an identity keeps the others distinct, and is the identity on a
/// sequence that never had it.
pub proof fn lemma_without_distinct(s: Seq<MemberView>, identity: Seq<char>)
    ensures
        identities_distinct(s) ==> identities_distinct(without(s, identity)),
        !has_identity(s, identity) ==> without(s, identity) == s,
    decreases s.len(),
{
    if s.len() > 0 {
        let rest = s.drop_last();
        let w = without(rest, identity);
        lemma_without_distinct(rest, identity);
        if identities_distinct(s) {
            assert(identities_distinct(rest));
            if s.last().0 != identity {
                let full = without(s, identity);
                assert forall|i: int, j: int|
                    0 <= i < j < full.len() implies #[trigger] full[i].0 != #[trigger] full[j].0 by {
                    if j == w.len() {
                        if w[i].0 == s.last().0 {
                            assert(has_identity(w, s.last().0));
                            lemma_without_has(rest, identity, s.last().0);
                            let k = choose|k: int|
                                0 <= k < rest.len() && #[trigger] rest[k].0 == s.last().0;
                            assert(s[k].0 == s[s.len() - 1].0);
                        }
                    } else {
                        assert(full[i] == w[i] && full[j] == w[j]);
                    }
                }
            }
        }
        if !has_identity(s, identity) {
            assert(!has_identity(rest, identity)) by {
                if has_identity(rest, identity) {
                    let k = choose|k: int| 0 <= k < rest.len() && #[trigger] rest[k].0 == identity;
                    assert(s[k].0 == identity);
                }
            }
            assert(s[s.len() - 1].0 != identity);
            assert(rest.push(s.last()) =~= s);
        }
    }
}

/// After an upsert the roster is still well formed, the member is in the call
/// under its identity with its new label, nobody else joined or left, and a
/// second upsert of the same member changes nothing.
pub proof fn lemma_upsert(v: RosterView, member: MemberView, other: Seq<char>)
    requires
        roster_wf(v),
    ensures
        roster_wf(roster_upsert(v, member)),
        roster_contains(roster_upsert(v, member), member.0),
        roster_members(roster_upsert(v, member)).contains(member),
        other != member.0 ==> (roster_contains(roster_upsert(v, member), other)
            <==> roster_contains(v, other)),
        roster_upsert(roster_upsert(v, member), member) == roster_upsert(v, member),
{
    let u = roster_upsert(v, member);
    if roster_is_local(v, member.0) {
        assert(roster_members(u)[0] == member);
    } else if has_identity(v.1, member.0) {
        let i = choose|i: int| 0 <= i < v.1.len() && v.1[i].0 == member.0;
        let updated = v.1.update(i, member);
        assert forall|a: int, b: int|
            0 <= a < b < updated.len() implies #[trigger] updated[a].0 != #[trigger] updated[b].0 by {
            assert(updated[a].0 == v.1[a].0);
            assert(updated[b].0 == v.1[b].0);
        }
        if let Some(l) = v.0 {
            if has_identity(updated, l.0) {
                let q = choose|q: int| 0 <= q < updated.len() && #[trigger] updated[q].0 == l.0;
                assert(v.1[q].0 == l.0);
            }
        }
        assert(updated[i].0 == member.0);
        assert(has_identity(updated, member.0));
        let off: int = if v.0 is Some { 1 } else { 0 };
        assert(roster_members(u)[off + i] == member);
        if other != member.0 {
            if has_identity(updated, other) {
                let q = choose|q: int| 0 <= q < updated.len() && #[trigger] updated[q].0 == other;
                assert(v.1[q].0 == other);
            }
            if has_identity(v.1, other) {
                let q = choose|q: int| 0 <= q < v.1.len() && #[trigger] v.1[q].0 == other;
                assert(updated[q].0 == other);
            }
        }
        let k = choose|k: int| 0 <= k < updated.len() && updated[k].0 == member.0;
        assert(k == i);
        assert(updated.update(k, member) =~= updated);
    } else {
        let pushed = v.1.push(member);
        assert forall|a: int, b: int|
            0 <= a < b < pushed.len() implies #[trigger] pushed[a].0 != #[trigger] pushed[b].0 by {
            if b == v.1.len() {
                assert(v.1[a].0 != member.0);
            }
        }
        if let Some(l) = v.0 {
            if has_identity(pushed, l.0) {
                let q = choose|q: int| 0 <= q < pushed.len() && #[trigger] pushed[q].0 == l.0;
                if q < v.1.len() {
                    assert(v.1[q].0 == l.0);
                }
            }
        }
        assert(pushed[v.1.len() as int].0 == member.0);
        assert(has_identity(pushed, member.0));
        let off: int = if v.0 is Some { 1 } else { 0 };
        assert(roster_members(u)[off + v.1.len()] == member);
        if other != member.0 {
            if has_identity(pushed, other) {
                let q = choose|q: int| 0 <= q < pushed.len() && #[trigger] pushed[q].0 == other;
                assert(v.1[q].0 == other);
            }
            if has_identity(v.1, other) {
                let q = choose|q: int| 0 <= q < v.1.len() && #[trigger] v.1[q].0 == other;
                assert(pushed[q].0 == other);
            }
        }
        let k = choose|k: int| 0 <= k < pushed.len() && pushed[k].0 == member.0;
        assert(k == v.1.len()) by {
            if k < v.1.len() {
                assert(v.1[k].0 == member.0);
            }
        }
        assert(pushed.update(k, member) =~= pushed);
    }
}

/// A remote that is removed is gone from the call, while we stay, and
/// nobody else is affected.
pub proof fn lemma_remove(v: RosterView, identity: Seq<char>, other: Seq<char>)
    requires
        roster_wf(v),
    ensures
        roster_wf(roster_remove(v, identity)),
        !roster_is_local(v, identity) ==> !roster_contains(roster_remove(v, identity), identity),
        roster_remove(v, identity).0 == v.0,
        other != identity ==> (roster_contains(roster_remove(v, identity), other)
            <==> roster_contains(v, other)),
{
    lemma_without_has(v.1, identity, other);
    lemma_without_has(v.1, identity, identity);
    lemma_without_distinct(v.1, identity);
    if let Some(l) = v.0 {
        lemma_without_has(v.1, identity, l.0);
    }
}

/// Setting ourselves makes the identity ours, takes it out of the remotes,
/// and keeps every other remote.
pub proof fn lemma_set_local(v: RosterView, member: MemberView, other: Seq<char>)
    requires
        roster_wf(v),
    ensures
        roster_wf(roster_set_local(v, member)),
        roster_is_local(roster_set_local(v, member), member.0),
        !has_identity(roster_set_local(v, member).1, member.0),
        other != member.0 ==> (has_identity(roster_set_local(v, member).1, other) <==> has_identity(
            v.1,
            other,
        )),
{
    lemma_without_has(v.1, member.0, other);
    lemma_without_has(v.1, member.0, member.0);
    lemma_without_distinct(v.1, member.0);
}

impl Roster {
    /// Every identity is unique, ourselves included.
    pub open spec fn wf(&self) -> bool {
        roster_wf(self@)
    }

    pub fn new() -> (roster: Self)
        ensures
            roster.wf(),
            roster@ == (None::<MemberView>, Seq::<MemberView>::empty()),
    {
        let roster = Self { local: None, remotes: Vec::new() };
        assert(views_of(roster.remotes@) =~= Seq::<MemberView>::empty());
        roster
    }

    /// The remotes minus whoever has `identity`, in order.
    fn remotes_without(&self, identity: &str) -> (kept: Vec<Member>)
        ensures
            views_of(kept@) == without(views_of(self.remotes@), identity@),
    {
        let mut kept: Vec<Member> = Vec::new();
        let mut i: usize = 0;
        while i < self.remotes.len()
            invariant
                i <= self.remotes.len(),
                views_of(kept@) == without(views_of(self.remotes@).take(i as int), identity@),
            decreases self.remotes.len() - i,
        {
            let ghost all = views_of(self.remotes@);
            assert(all.take(i + 1).drop_last() =~= all.take(i as int));
            if !str_eq(self.remotes[i].identity.as_str(), identity) {
                kept.push(self.remotes[i].clone());
                assert(views_of(kept@) =~= without(all.take(i as int), identity@).push(
                    all[i as int],
                ));
            }
            i = i + 1;
        }
        assert(views_of(self.remotes@).take(self.remotes.len() as int) =~= views_of(
            self.remotes@,
        ));
        kept
    }

    /// Sets ourselves, dropping a remote entry that a snapshot may have listed
    /// under our identity.
    pub fn set_local(&mut self, member: Member)
        requires
            old(self).wf(),
        ensures
            final(self).wf(),
            final(self)@ == roster_set_local(old(self)@, member@),
    {
        proof {
            lemma_without_has(views_of(self.remotes@), member.identity@, member.identity@);
            lemma_without_distinct(views_of(self.remotes@), member.identity@);
        }
        let kept = self.remotes_without(member.identity.as_str());
        self.remotes = kept;
        self.local = Some(member);
    }

    pub fn local(&self) -> (local: Option<&Member>)
        ensures
            local is None <==> self@.0 is None,
            local matches Some(m) ==> self@.0 == Some(m@),
    {
        self.local.as_ref()
    }

    pub fn is_local(&self, identity: &str) -> (ours: bool)
        ensures
            ours == roster_is_local(self@, identity@),
    {
        match &self.local {
            Some(local) => str_eq(local.identity.as_str(), identity),
            None => false,
        }
    }

    /// Adds a remote, or renames whoever already has this identity.
    pub fn upsert(&mut self, member: Member)
        requires
            old(self).wf(),
        ensures
            final(self).wf(),
            final(self)@ == roster_upsert(old(self)@, member@),
    {
        if self.is_local(member.identity.as_str()) {
            self.local = Some(member);
            return;
        }
        assert(!roster_is_local(self@, member@.0));
        let ghost remotes = views_of(self.remotes@);
        let mut i: usize = 0;
        while i < self.remotes.len()
            invariant
                i <= self.remotes.len(),
                remotes == views_of(self.remotes@),
                self@ == old(self)@,
                self.wf(),
                !roster_is_local(self@, member@.0),
                forall|j: int| 0 <= j < i ==> remotes[j].0 != member.identity@,
            decreases self.remotes.len() - i,
        {
            if str_eq(self.remotes[i].identity.as_str(), member.identity.as_str()) {
                let ghost m = member@;
                assert(remotes[i as int].0 == m.0);
                assert(has_identity(remotes, m.0));
                self.remotes.set(i, member);
                proof {
                    let k = choose|k: int| 0 <= k < remotes.len() && remotes[k].0 == m.0;
                    assert(k == i);
                    assert(views_of(self.remotes@) =~= remotes.update(i as int, m));
                    lemma_upsert(old(self)@, m, m.0);
                }
                return;
            }
            i = i + 1;
        }
        let ghost m = member@;
        assert(!has_identity(remotes, m.0));
        self.remotes.push(member);
        assert(views_of(self.remotes@) =~= remotes.push(m));
        proof {
            lemma_upsert(old(self)@, m, m.0);
        }
    }

    /// Remotes only: we never leave our own call.
    pub fn remove(&mut self, identity: &str)
        requires
            old(self).wf(),
        ensures
            final(self).wf(),
            final(self)@ == roster_remove(old(self)@, identity@),
    {
        proof {
            lemma_without_distinct(views_of(self.remotes@), identity@);
            if let Some(l) = self@.0 {
                lemma_without_has(views_of(self.remotes@), identity@, l.0);
            }
        }
        let kept = self.remotes_without(identity);
        self.remotes = kept;
    }

    pub fn contains(&self, identity: &str) -> (present: bool)
        ensures
            present == roster_contains(self@, identity@),
    {
        if self.is_local(identity) {
            return true;
        }
        let mut i: usize = 0;
        while i < self.remotes.len()
            invariant
                i <= self.remotes.len(),
                forall|j: int| 0 <= j < i ==> views_of(self.remotes@)[j].0 != identity@,
            decreases self.remotes.len() - i,
        {
            if str_eq(self.remotes[i].identity.as_str(), identity) {
                assert(views_of(self.remotes@)[i as int].0 == identity@);
                return true;
            }
            i = i + 1;
        }
        false
    }

    pub fn remotes(&self) -> (remotes: &[Member])
        ensures
            views_of(remotes@) == self@.1,
    {
        self.remotes.as_slice()
    }

    /// Ourselves first, then the remotes.
    pub fn iter(&self) -> (members: Vec<&Member>)
        ensures
            views_of(members@.map_values(|m: &Member| *m)) == roster_members(self@),
    {
        let mut members: Vec<&Member> = Vec::new();
        if let Some(local) = &self.local {
            members.push(local);
        }
        let ghost start = members@.len();
        let mut i: usize = 0;
        while i < self.remotes.len()
            invariant
                i <= self.remotes.len(),
                start == (if self.local is Some { 1int } else { 0int }),
                members@.len() == start + i,
                self.local matches Some(l) ==> *members@[0] == l,
                forall|j: int| 0 <= j < i ==> *members@[start + j] == self.remotes@[j],
            decreases self.remotes.len() - i,
        {
            members.push(&self.remotes[i]);
            i = i + 1;
        }
        assert(views_of(members@.map_values(|m: &Member| *m)) =~= roster_members(self@));
        members
    }

    /// Collects remotes, upserting each in turn; set ourselves with
    /// [`Roster::set_local`] afterwards.
    pub fn from_members(members: Vec<Member>) -> (roster: Self)
        ensures
            roster.wf(),
            roster@ == roster_upsert_all(
                (None::<MemberView>, Seq::<MemberView>::empty()),
                views_of(members@),
            ),
    {
        let ghost all = views_of(members@);
        let count = members.len();
        assert(all.len() == count);
        let mut rest = members;
        let mut roster = Self::new();
        let mut taken: usize = 0;
        while rest.len() > 0
            invariant
                roster.wf(),
                all.len() <= usize::MAX,
                taken + rest.len() == all.len(),
                views_of(rest@) == all.skip(taken as int),
                roster@ == roster_upsert_all(
                    (None::<MemberView>, Seq::<MemberView>::empty()),
                    all.take(taken as int),
                ),
            decreases rest.len(),
        {
            let ghost before = rest@;
            let member = rest.remove(0);
            assert(views_of(before)[0] == all.skip(taken as int)[0]);
            assert(member@ == all[taken as int]);
            assert(rest@ =~= before.subrange(1, before.len() as int));
            assert(views_of(rest@) =~= views_of(before).subrange(1, before.len() as int));
            assert(all.take(taken + 1).drop_last() =~= all.take(taken as int));
            assert(views_of(rest@) =~= all.skip(taken + 1));
            roster.upsert(member);
            taken = taken + 1;
        }
        assert(all.take(taken as int) =~= all);
        roster
    }

    /// Everyone in the call from the room's own lists: each remote's
    /// `(name, identity)` in the order given (one entry per identity, a
    /// later one renaming an earlier), then ourselves, who are never a
    /// remote even when the list names us.
    pub fn snapshot(remotes: Vec<(String, String)>, local: (String, String)) -> (roster: Self)
        ensures
            roster.wf(),
            roster@ == roster_set_local(
                roster_upsert_all(
                    (None::<MemberView>, Seq::<MemberView>::empty()),
                    named_members(remotes@),
                ),
                (local.1@, spec_participant_label(local.0@, local.1@)),
            ),
    {
        let mut members: Vec<Member> = Vec::new();
        let mut i: usize = 0;
        while i < remotes.len()
            invariant
                i <= remotes@.len(),
                members@.len() == i,
                views_of(members@) == named_members(remotes@).take(i as int),
            decreases remotes@.len() - i,
        {
            let (name, identity) = (remotes[i].0.clone(), remotes[i].1.clone());
            let ghost before = members@;
            members.push(Member::new(name, identity));
            assert(views_of(members@) =~= named_members(remotes@).take(i + 1)) by {
                assert(views_of(before) =~= named_members(remotes@).take(i as int));
                assert(views_of(members@)[i as int] == named_members(remotes@)[i as int]);
            }
            i = i + 1;
        }
        assert(named_members(remotes@).take(i as int) =~= named_members(remotes@));
        let mut roster = Self::from_members(members);
        let (name, identity) = local;
        roster.set_local(Member::new(name, identity));
        roster
    }
}

/// Members from `(name, identity)` pairs, each shown by name or identity.
pub open spec fn named_members(pairs: Seq<(String, String)>) -> Seq<MemberView> {
    pairs.map_values(|p: (String, String)| (p.1@, spec_participant_label(p.0@, p.1@)))
}

/// Who a chat message is addressed to: one participant, or the whole room.
#[derive(Debug, PartialEq, Eq)]
pub struct Recipient {
    pub id: String,
    pub label: String,
}

impl Clone for Recipient {
    fn clone(&self) -> (copy: Self)
        ensures
            copy.id@ == self.id@,
            copy.label@ == self.label@,
    {
        Recipient { id: self.id.clone(), label: self.label.clone() }
    }
}

impl Recipient {
    /// The whole room, shown as `label` (the caller's translation of
    /// "everyone").
    pub fn everyone(label: String) -> (everyone: Self)
        ensures
            everyone.id@ == EVERYONE_ID@,
            everyone.label@ == label@,
    {
        Self { id: String::from_str(EVERYONE_ID), label }
    }

    pub fn is_everyone(&self) -> (room: bool)
        ensures
            room == (self.id@ == EVERYONE_ID@),
    {
        str_eq(self.id.as_str(), EVERYONE_ID)
    }
}

} // verus!
