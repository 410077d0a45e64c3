//! Bookkeeping for the per-tile GPU resources: which tiles exist, at what
//! size, which frame each holds, and which were drawn since the last trim.
//! The caller owns the textures and keeps them in step with these records.

use vstd::prelude::*;

use crate::text::str_eq;

verus! {

#[derive(Debug)]
struct TileRecord {
    key: String,
    size: (u32, u32),
    uploaded: Option<u64>,
    used: bool,
}

/// A record as plain data: `(key, size, resident frame id, used)`.
pub type RecordView = (Seq<char>, (u32, u32), Option<u64>, bool);

/// What one frame's upload takes for its tile.
#[derive(Debug, Clone, Copy, PartialEq, Eq)]
pub struct UploadPlan {
    /// The tile is new: create its uniforms and its planes.
    pub create: bool,
    /// The frame size changed: recreate the planes (and their bind group).
    pub resize: bool,
    /// The planes do not hold this frame yet: copy it in.
    pub upload: bool,
}

/// One record per on-screen tile.
#[derive(Debug)]
pub struct TileBook {
    tiles: Vec<TileRecord>,
}

spec fn record_views(s: Seq<TileRecord>) -> Seq<RecordView> {
    s.map_values(|r: TileRecord| (r.key@, r.size, r.uploaded, r.used))
}

/// Some record has `key`.
pub open spec fn has_record(s: Seq<RecordView>, key: Seq<char>) -> bool {
    exists|i: int| 0 <= i < s.len() && #[trigger] s[i].0 == key
}

/// No key has two records.
pub open spec fn records_distinct(s: Seq<RecordView>) -> bool {
    forall|i: int, j: int| 0 <= i < j < s.len() ==> #[trigger] s[i].0 != #[trigger] s[j].0
}

/// The records after preparing `key`'s tile to show frame `frame_id` at
/// `size`, and the plan for it.
pub open spec fn spec_prepare(s: Seq<RecordView>, key: Seq<char>, size: (u32, u32), frame_id: u64) -> (
    Seq<RecordView>,
    UploadPlan,
) {
    if has_record(s, key) {
        let i = choose|i: int| 0 <= i < s.len() && s[i].0 == key;
        let resize = s[i].1 != size;
        (
            s.update(i, (key, size, Some(frame_id), true)),
            UploadPlan { create: false, resize, upload: resize || s[i].2 != Some(frame_id) },
        )
    } else {
        (
            s.push((key, size, Some(frame_id), true)),
            UploadPlan { create: true, resize: false, upload: true },
        )
    }
}

/// The records drawn since the last trim, flags reset, in order.
pub open spec fn spec_kept(s: Seq<RecordView>) -> Seq<RecordView>
    decreases s.len(),
{
    if s.len() == 0 {
        s
    } else {
        let rest = spec_kept(s.drop_last());
        if s.last().3 {
            rest.push((s.last().0, s.last().1, s.last().2, false))
        } else {
            rest
        }
    }
}

/// The keys of the records not drawn since the last trim, in order.
pub open spec fn spec_dropped(s: Seq<RecordView>) -> Seq<Seq<char>>
    decreases s.len(),
{
    if s.len() == 0 {
        Seq::empty()
    } else {
        let rest = spec_dropped(s.drop_last());
        if s.last().3 {
            rest
        } else {
            rest.push(s.last().0)
        }
    }
}

proof fn lemma_kept_has(s: Seq<RecordView>, key: Seq<char>)
    ensures
        has_record(spec_kept(s), key) ==> has_record(s, key),
    decreases s.len(),
{
    if s.len() > 0 {
        let rest = s.drop_last();
        lemma_kept_has(rest, key);
        let k = spec_kept(rest);
        let full = spec_kept(s);
        if has_record(full, key) {
            let q = choose|q: int| 0 <= q < full.len() && #[trigger] full[q].0 == key;
            if q < k.len() {
                assert(k[q].0 == key);
                assert(has_record(k, key));
                let r = choose|r: int| 0 <= r < rest.len() && #[trigger] rest[r].0 == key;
                assert(s[r].0 == key);
            } else {
                assert(s[s.len() - 1].0 == key);
            }
        }
    }
}

proof fn lemma_kept_distinct(s: Seq<RecordView>)
    requires
        records_distinct(s),
    ensures
        records_distinct(spec_kept(s)),
    decreases s.len(),
{
    if s.len() > 0 {
        let rest = s.drop_last();
        assert(records_distinct(rest));
        lemma_kept_distinct(rest);
        lemma_kept_has(rest, s.last().0);
        let k = spec_kept(rest);
        let full = spec_kept(s);
        if s.last().3 {
            assert forall|a: int, b: int| 0 <= a < b < full.len() implies #[trigger] full[a].0
                != #[trigger] full[b].0 by {
                if b == k.len() {
                    if k[a].0 == s.last().0 {
                        assert(has_record(k, s.last().0));
                        let r = choose|r: int| 0 <= r < rest.len() && #[trigger] rest[r].0 == s.last().0;
                        assert(s[r].0 == s[s.len() - 1].0);
                    }
                } else {
                    assert(full[a] == k[a] && full[b] == k[b]);
                }
            }
        }
    }
}

/// Drawing the same frame again at the same size creates, resizes and
/// uploads nothing; and a tile prepared since the last trim survives the
/// next one, while a tile left undrawn for a whole frame is dropped by the
/// trim after that.
pub proof fn lemma_redraw_is_free(s: Seq<RecordView>, key: Seq<char>, size: (u32, u32), frame_id: u64)
    requires
        records_distinct(s),
    ensures
        ({
            let once = spec_prepare(s, key, size, frame_id).0;
            spec_prepare(once, key, size, frame_id).1 == UploadPlan {
                create: false,
                resize: false,
                upload: false,
            }
        }),
        has_record(spec_kept(spec_prepare(s, key, size, frame_id).0), key),
        !has_record(spec_kept(spec_kept(spec_prepare(s, key, size, frame_id).0)), key),
{
    let (once, _) = spec_prepare(s, key, size, frame_id);
    let i: int = if has_record(s, key) {
        choose|i: int| 0 <= i < s.len() && s[i].0 == key
    } else {
        s.len() as int
    };
    assert(once[i] == (key, size, Some(frame_id), true));
    assert(records_distinct(once)) by {
        assert forall|a: int, b: int| 0 <= a < b < once.len() implies #[trigger] once[a].0
            != #[trigger] once[b].0 by {
            if a != i && b != i {
                assert(once[a] == s[a] && once[b] == s[b]);
            } else if a == i {
                assert(once[b] == s[b]);
                if !has_record(s, key) {
                } else {
                    assert(s[a].0 == key);
                }
            } else {
                assert(once[a] == s[a]);
                if has_record(s, key) {
                    assert(s[b].0 == key);
                } else {
                    assert(s[a].0 != key);
                }
            }
        }
    }
    assert(0 <= i < once.len());
    assert(once[i].0 == key);
    assert(has_record(once, key));
    let j = choose|j: int| 0 <= j < once.len() && once[j].0 == key;
    assert(j == i);
    lemma_kept_marks(once, key, i);
    lemma_kept_clears(spec_kept(once), key);
}

/// A record marked used survives the trim, and comes out unmarked.
proof fn lemma_kept_marks(s: Seq<RecordView>, key: Seq<char>, i: int)
    requires
        0 <= i < s.len(),
        s[i].0 == key,
        s[i].3,
        records_distinct(s),
    ensures
        has_record(spec_kept(s), key),
        forall|q: int| 0 <= q < spec_kept(s).len() ==> !(#[trigger] spec_kept(s)[q]).3,
    decreases s.len(),
{
    let rest = s.drop_last();
    lemma_kept_unmarked(s);
    if i == s.len() - 1 {
        let full = spec_kept(s);
        assert(full[full.len() - 1].0 == key);
    } else {
        assert(records_distinct(rest));
        lemma_kept_marks(rest, key, i);
        let k = spec_kept(rest);
        let q = choose|q: int| 0 <= q < k.len() && #[trigger] k[q].0 == key;
        assert(spec_kept(s)[q].0 == key);
    }
}

proof fn lemma_kept_unmarked(s: Seq<RecordView>)
    ensures
        forall|q: int| 0 <= q < spec_kept(s).len() ==> !(#[trigger] spec_kept(s)[q]).3,
    decreases s.len(),
{
    if s.len() > 0 {
        let rest = spec_kept(s.drop_last());
        lemma_kept_unmarked(s.drop_last());
        let full = spec_kept(s);
        assert forall|q: int| 0 <= q < full.len() implies !(#[trigger] full[q]).3 by {
            if q < rest.len() {
                assert(full[q] == rest[q]);
            }
        }
    }
}

/// Trimming records none of which are marked keeps none of them.
proof fn lemma_kept_clears(s: Seq<RecordView>, key: Seq<char>)
    requires
        forall|q: int| 0 <= q < s.len() ==> !(#[trigger] s[q]).3,
    ensures
        spec_kept(s).len() == 0,
        !has_record(spec_kept(s), key),
    decreases s.len(),
{
    if s.len() > 0 {
        assert(!s[s.len() - 1].3);
        lemma_kept_clears(s.drop_last(), key);
    }
}

impl View for TileBook {
    type V = Seq<RecordView>;

    closed spec fn view(&self) -> Seq<RecordView> {
        record_views(self.tiles@)
    }
}

impl TileBook {
    pub open spec fn wf(&self) -> bool {
        records_distinct(self@)
    }

    pub fn new() -> (book: Self)
        ensures
            book.wf(),
            book@.len() == 0,
    {
        let book = TileBook { tiles: Vec::new() };
        assert(book@ =~= Seq::<RecordView>::empty());
        book
    }

    fn index_of(&self, key: &str) -> (found: Option<usize>)
        ensures
            found matches Some(i) ==> i < self@.len() && self@[i as int].0 == key@,
            found is None ==> !has_record(self@, key@),
    {
        let mut i: usize = 0;
        while i < self.tiles.len()
            invariant
                i <= self.tiles@.len(),
                forall|j: int| 0 <= j < i ==> self@[j].0 != key@,
            decreases self.tiles@.len() - i,
        {
            if str_eq(self.tiles[i].key.as_str(), key) {
                return Some(i);
            }
            i = i + 1;
        }
        None
    }

    /// `key` has a tile, so there is something to draw for it.
    pub fn contains(&self, key: &str) -> (present: bool)
        ensures
            present == has_record(self@, key@),
    {
        self.index_of(key).is_some()
    }

    /// Marks `key`'s tile as drawn this frame, showing frame `frame_id` at
    /// `size`, and says what that takes: a new tile when `key` has none,
    /// new planes when the size changed, and an upload unless the frame is
    /// already resident.
    pub fn prepare(&mut self, key: &str, size: (u32, u32), frame_id: u64) -> (plan: UploadPlan)
        requires
            old(self).wf(),
        ensures
            final(self).wf(),
            (final(self)@, plan) == spec_prepare(old(self)@, key@, size, frame_id),
    {
        let ghost before = self@;
        let ghost entry = (key@, size, Some(frame_id), true);
        match self.index_of(key) {
            Some(i) => {
                let resize = self.tiles[i].size.0 != size.0 || self.tiles[i].size.1 != size.1;
                let stale = match self.tiles[i].uploaded {
                    Some(id) => id != frame_id,
                    None => true,
                };
                let record = TileRecord {
                    key: String::from_str(key),
                    size,
                    uploaded: Some(frame_id),
                    used: true,
                };
                self.tiles.set(i, record);
                proof {
                    let k = choose|k: int| 0 <= k < before.len() && before[k].0 == key@;
                    assert(k == i as int);
                    assert(self@ =~= before.update(i as int, entry));
                    let u = before.update(i as int, entry);
                    assert forall|a: int, b: int| 0 <= a < b < u.len() implies #[trigger] u[a].0
                        != #[trigger] u[b].0 by {
                        assert(u[a].0 == before[a].0 && u[b].0 == before[b].0);
                    }
                }
                UploadPlan { create: false, resize, upload: resize || stale }
            },
            None => {
                self.tiles.push(
                    TileRecord {
                        key: String::from_str(key),
                        size,
                        uploaded: Some(frame_id),
                        used: true,
                    },
                );
                proof {
                    assert(self@ =~= before.push(entry));
                    let u = before.push(entry);
                    assert forall|a: int, b: int| 0 <= a < b < u.len() implies #[trigger] u[a].0
                        != #[trigger] u[b].0 by {
                        if b == before.len() {
                            assert(before[a].0 != entry.0);
                        }
                    }
                }
                UploadPlan { create: true, resize: false, upload: true }
            },
        }
    }

    /// Runs after every rendered frame: a tile nobody prepared since the last
    /// trim is off screen, so its record goes and its key comes back for the
    /// caller to release the textures. The rest start the next frame unmarked.
    pub fn trim(&mut self) -> (dropped: Vec<String>)
        requires
            old(self).wf(),
        ensures
            final(self).wf(),
            final(self)@ == spec_kept(old(self)@),
            dropped@.map_values(|k: String| k@) == spec_dropped(old(self)@),
    {
        let ghost all = self@;
        let mut rest: Vec<TileRecord> = Vec::new();
        std::mem::swap(&mut rest, &mut self.tiles);
        let count = rest.len();
        let mut kept: Vec<TileRecord> = Vec::new();
        let mut dropped: Vec<String> = Vec::new();
        let mut taken: usize = 0;
        while rest.len() > 0
            invariant
                all.len() == count,
                taken + rest.len() == count,
                record_views(rest@) == all.skip(taken as int),
                record_views(kept@) == spec_kept(all.take(taken as int)),
                dropped@.map_values(|k: String| k@) == spec_dropped(all.take(taken as int)),
            decreases rest.len(),
        {
            let ghost before = rest@;
            let record = rest.remove(0);
            assert(record_views(before)[0] == all.skip(taken as int)[0]);
            assert(rest@ =~= before.subrange(1, before.len() as int));
            assert(record_views(rest@) =~= record_views(before).subrange(1, before.len() as int));
            assert(record_views(rest@) =~= all.skip(taken + 1));
            assert(all.take(taken + 1).drop_last() =~= all.take(taken as int));
            let ghost rv = (record.key@, record.size, record.uploaded, record.used);
            assert(rv == all[taken as int]);
            if record.used {
                let ghost k = kept@;
                kept.push(TileRecord { used: false, ..record });
                assert(record_views(kept@) =~= record_views(k).push((rv.0, rv.1, rv.2, false)));
            } else {
                let ghost d = dropped@;
                dropped.push(record.key);
                assert(dropped@.map_values(|k: String| k@) =~= d.map_values(|k: String| k@).push(
                    rv.0,
                ));
            }
            taken = taken + 1;
        }
        assert(all.take(taken as int) =~= all);
        proof {
            lemma_kept_distinct(all);
        }
        self.tiles = kept;
        dropped
    }
}

} // verus!
