//! The mosaic stage: every participant in a grid of tiles.

use vstd::prelude::*;

use super::data::{MemberView, Roster};
use crate::sorting::{lemma_insert_at, lemma_sort_by, sort_by, sorted_by, strict_order};
use crate::text::{lemma_seq_lt_order, lowercase, seq_lt, str_eq, str_less, to_lowercase};

verus! {

/// The most tiles the mosaic ever shows.
pub const MAX_TILES: usize = 32;

/// `2^e`.
pub open spec fn two_pow(e: nat) -> nat
    decreases e,
{
    if e == 0 {
        1
    } else {
        2 * two_pow((e - 1) as nat)
    }
}

/// The smallest exponent `e >= from`, capped at 5, whose power of two holds
/// `count` tiles.
pub open spec fn exponent_from(count: int, from: nat) -> nat
    decreases 5 - from,
{
    if from >= 5 || count <= two_pow(from) {
        from
    } else {
        exponent_from(count, from + 1)
    }
}

/// The exponent of the grid's capacity: the smallest power of two that holds
/// `count` tiles (at least one), never above `MAX_TILES`.
pub open spec fn grid_exponent(count: int) -> nat {
    exponent_from(count, 0)
}

/// `(columns, rows)` of the grid for `count` tiles: the long side gets the
/// rounded-up half of the exponent.
pub open spec fn spec_grid_shape(count: int, landscape: bool) -> (int, int) {
    let e = grid_exponent(count);
    let long = two_pow((e + 1) / 2) as int;
    let short = two_pow(e / 2) as int;
    if landscape {
        (long, short)
    } else {
        (short, long)
    }
}

proof fn lemma_two_pow_small()
    ensures
        two_pow(0) == 1,
        two_pow(1) == 2,
        two_pow(2) == 4,
        two_pow(3) == 8,
        two_pow(4) == 16,
        two_pow(5) == 32,
{
    reveal_with_fuel(two_pow, 6);
}

proof fn lemma_exponent_from_bounds(count: int, from: nat)
    requires
        from <= 5,
    ensures
        from <= exponent_from(count, from) <= 5,
        exponent_from(count, from) < 5 ==> count <= two_pow(exponent_from(count, from)),
        forall|e: nat| from <= e < exponent_from(count, from) ==> two_pow(e) < count,
    decreases 5 - from,
{
    if from < 5 && !(count <= two_pow(from)) {
        lemma_exponent_from_bounds(count, from + 1);
    }
}

/// Every grid holds a power of two cells, at most `MAX_TILES`, and for up to
/// `MAX_TILES` tiles it has room for all of them (an empty grid still has one
/// cell).
pub proof fn lemma_grid_fits(count: int, landscape: bool)
    requires
        0 <= count,
    ensures
        spec_grid_shape(count, landscape).0 * spec_grid_shape(count, landscape).1 == two_pow(
            grid_exponent(count),
        ),
        spec_grid_shape(count, landscape).0 * spec_grid_shape(count, landscape).1 <= MAX_TILES,
        spec_grid_shape(count, landscape).0 * spec_grid_shape(count, landscape).1 >= 1,
        count <= MAX_TILES ==> spec_grid_shape(count, landscape).0 * spec_grid_shape(
            count,
            landscape,
        ).1 >= count,
{
    lemma_two_pow_small();
    lemma_exponent_from_bounds(count, 0);
    let e = grid_exponent(count);
    let shape = spec_grid_shape(count, landscape);
    if e == 0 {
        assert(shape.0 == 1 && shape.1 == 1);
        assert(shape.0 * shape.1 == 1) by (nonlinear_arith)
            requires
                shape.0 == 1,
                shape.1 == 1,
        ;
    } else if e == 1 {
        if landscape {
            assert(shape.0 == 2 && shape.1 == 1);
            assert(shape.0 * shape.1 == 2) by (nonlinear_arith)
                requires
                    shape.0 == 2,
                    shape.1 == 1,
            ;
        } else {
            assert(shape.0 == 1 && shape.1 == 2);
            assert(shape.0 * shape.1 == 2) by (nonlinear_arith)
                requires
                    shape.0 == 1,
                    shape.1 == 2,
            ;
        }
    } else if e == 2 {
        assert(shape.0 == 2 && shape.1 == 2);
        assert(shape.0 * shape.1 == 4) by (nonlinear_arith)
            requires
                shape.0 == 2,
                shape.1 == 2,
        ;
    } else if e == 3 {
        if landscape {
            assert(shape.0 == 4 && shape.1 == 2);
            assert(shape.0 * shape.1 == 8) by (nonlinear_arith)
                requires
                    shape.0 == 4,
                    shape.1 == 2,
            ;
        } else {
            assert(shape.0 == 2 && shape.1 == 4);
            assert(shape.0 * shape.1 == 8) by (nonlinear_arith)
                requires
                    shape.0 == 2,
                    shape.1 == 4,
            ;
        }
    } else if e == 4 {
        assert(shape.0 == 4 && shape.1 == 4);
        assert(shape.0 * shape.1 == 16) by (nonlinear_arith)
            requires
                shape.0 == 4,
                shape.1 == 4,
        ;
    } else {
        if landscape {
            assert(shape.0 == 8 && shape.1 == 4);
            assert(shape.0 * shape.1 == 32) by (nonlinear_arith)
                requires
                    shape.0 == 8,
                    shape.1 == 4,
            ;
        } else {
            assert(shape.0 == 4 && shape.1 == 8);
            assert(shape.0 * shape.1 == 32) by (nonlinear_arith)
                requires
                    shape.0 == 4,
                    shape.1 == 8,
            ;
        }
    }
}

/// A portrait grid is the landscape grid turned on its side, and the long
/// side is never more than twice the short one.
pub proof fn lemma_grid_orientation(count: int)
    requires
        0 <= count,
    ensures
        spec_grid_shape(count, false).0 == spec_grid_shape(count, true).1,
        spec_grid_shape(count, false).1 == spec_grid_shape(count, true).0,
        spec_grid_shape(count, true).1 <= spec_grid_shape(count, true).0 <= 2 * spec_grid_shape(
            count,
            true,
        ).1,
{
    lemma_two_pow_small();
    lemma_exponent_from_bounds(count, 0);
}

/// Rows and columns for `count` tiles. The capacity is the next power of two
/// (one for an empty grid), capped at `MAX_TILES`; `landscape` puts the longer
/// side across.
pub fn grid_shape(count: usize, landscape: bool) -> (shape: (usize, usize))
    ensures
        shape.0 as int == spec_grid_shape(count as int, landscape).0,
        shape.1 as int == spec_grid_shape(count as int, landscape).1,
{
    proof {
        lemma_two_pow_small();
    }
    let mut exponent: usize = 0;
    let mut capacity: usize = 1;
    while exponent < 5 && capacity < count
        invariant
            exponent <= 5,
            capacity as nat == two_pow(exponent as nat),
            exponent_from(count as int, exponent as nat) == grid_exponent(count as int),
            two_pow(0) == 1 && two_pow(1) == 2 && two_pow(2) == 4 && two_pow(3) == 8
                && two_pow(4) == 16 && two_pow(5) == 32,
        decreases 5 - exponent,
    {
        capacity = capacity * 2;
        exponent = exponent + 1;
    }
    assert(exponent_from(count as int, exponent as nat) == exponent as nat);
    let long: usize = match (exponent + 1) / 2 {
        0 => 1,
        1 => 2,
        2 => 4,
        _ => 8,
    };
    let short = capacity / long;
    assert(short as nat == two_pow((exponent / 2) as nat)) by {
        if exponent == 0 {
        } else if exponent == 1 {
        } else if exponent == 2 {
        } else if exponent == 3 {
        } else if exponent == 4 {
        } else {
        }
    }
    if landscape {
        (long, short)
    } else {
        (short, long)
    }
}

/// One cell of the mosaic: who it shows, what to call them, their latest
/// frame if any, and whether it is us.
#[derive(Clone, Copy, Debug)]
pub struct Tile<'a, F> {
    pub identity: &'a str,
    pub label: &'a str,
    pub frame: Option<&'a F>,
    pub is_local: bool,
}

/// A tile as plain data: `(identity, label, frame, is_local)`.
pub type TileView<F> = (Seq<char>, Seq<char>, Option<F>, bool);

impl<'a, F> View for Tile<'a, F> {
    type V = TileView<F>;

    open spec fn view(&self) -> TileView<F> {
        (
            self.identity@,
            self.label@,
            match self.frame {
                Some(f) => Some(*f),
                None => None,
            },
            self.is_local,
        )
    }
}

/// The views of a sequence of tiles.
pub open spec fn tile_views<'a, F>(s: Seq<Tile<'a, F>>) -> Seq<TileView<F>> {
    s.map_values(|t: Tile<'a, F>| t@)
}

/// Latest frames by identity, as plain data.
pub open spec fn frame_views<F>(frames: Seq<(String, F)>) -> Seq<(Seq<char>, F)> {
    frames.map_values(|e: (String, F)| (e.0@, e.1))
}

/// The frame of the first entry for `identity`, if any.
pub open spec fn frame_of<F>(frames: Seq<(Seq<char>, F)>, identity: Seq<char>) -> Option<F>
    decreases frames.len(),
{
    if frames.len() == 0 {
        None
    } else if frames[0].0 == identity {
        Some(frames[0].1)
    } else {
        frame_of(frames.drop_first(), identity)
    }
}

/// The tile for member `m`.
pub open spec fn tile_for<F>(frames: Seq<(Seq<char>, F)>, m: MemberView, is_local: bool) -> TileView<
    F,
> {
    (m.0, m.1, frame_of(frames, m.0), is_local)
}

/// Tiles sort by lowercase label, then by identity.
pub open spec fn tile_less<F>() -> spec_fn(TileView<F>, TileView<F>) -> bool {
    |a: TileView<F>, b: TileView<F>|
        seq_lt(lowercase(a.1), lowercase(b.1)) || (lowercase(a.1) == lowercase(b.1) && seq_lt(
            a.0,
            b.0,
        ))
}

/// Every member's tile, ourselves first, in roster order.
pub open spec fn unsorted_tiles<F>(
    local: Option<MemberView>,
    remotes: Seq<MemberView>,
    frames: Seq<(Seq<char>, F)>,
) -> Seq<TileView<F>> {
    let rest = remotes.map_values(|m: MemberView| tile_for(frames, m, false));
    match local {
        Some(l) => seq![tile_for(frames, l, true)] + rest,
        None => rest,
    }
}

/// The mosaic's tiles: everyone sorted by name then identity, and only the
/// first `MAX_TILES` of them.
pub open spec fn spec_ordered_tiles<F>(
    local: Option<MemberView>,
    remotes: Seq<MemberView>,
    frames: Seq<(Seq<char>, F)>,
) -> Seq<TileView<F>> {
    let sorted = sort_by(unsorted_tiles(local, remotes, frames), tile_less());
    if sorted.len() > MAX_TILES {
        sorted.take(MAX_TILES as int)
    } else {
        sorted
    }
}

proof fn lemma_tile_less_order<F>()
    ensures
        strict_order(tile_less::<F>()),
{
    assert forall|a: TileView<F>| !#[trigger] (tile_less::<F>())(a, a) by {
        lemma_seq_lt_order(lowercase(a.1), lowercase(a.1), lowercase(a.1));
        lemma_seq_lt_order(a.0, a.0, a.0);
    }
    assert forall|a: TileView<F>, b: TileView<F>, c: TileView<F>|
        #[trigger] (tile_less::<F>())(a, b) && #[trigger] (tile_less::<F>())(b, c) implies (
    tile_less::<F>())(a, c) by {
        lemma_seq_lt_order(lowercase(a.1), lowercase(b.1), lowercase(c.1));
        lemma_seq_lt_order(lowercase(b.1), lowercase(a.1), lowercase(c.1));
        lemma_seq_lt_order(lowercase(a.1), lowercase(c.1), lowercase(b.1));
        lemma_seq_lt_order(a.0, b.0, c.0);
    }
}

/// The mosaic is in name-then-identity order, holds at most `MAX_TILES`
/// tiles, and below that cap holds exactly one tile per member.
pub proof fn lemma_ordered_tiles<F>(
    local: Option<MemberView>,
    remotes: Seq<MemberView>,
    frames: Seq<(Seq<char>, F)>,
)
    ensures
        sorted_by(spec_ordered_tiles(local, remotes, frames), tile_less()),
        spec_ordered_tiles(local, remotes, frames).len() <= MAX_TILES,
        unsorted_tiles(local, remotes, frames).len() <= MAX_TILES ==> spec_ordered_tiles(
            local,
            remotes,
            frames,
        ).to_multiset() == unsorted_tiles(local, remotes, frames).to_multiset(),
{
    lemma_tile_less_order::<F>();
    let all = unsorted_tiles(local, remotes, frames);
    lemma_sort_by(all, tile_less());
}

/// The frame stored for `identity`, if any.
fn find_frame<'a, F>(frames: &'a [(String, F)], identity: &str) -> (frame: Option<&'a F>)
    ensures
        match frame {
            Some(f) => frame_of(frame_views(frames@), identity@) == Some(*f),
            None => frame_of(frame_views(frames@), identity@) is None,
        },
{
    let ghost all = frame_views(frames@);
    let mut i: usize = 0;
    assert(all.skip(0) =~= all);
    while i < frames.len()
        invariant
            i <= frames@.len(),
            all == frame_views(frames@),
            frame_of(all, identity@) == frame_of(all.skip(i as int), identity@),
        decreases frames@.len() - i,
    {
        assert(all.skip(i as int)[0] == all[i as int]);
        assert(all.skip(i as int).drop_first() =~= all.skip(i + 1));
        if str_eq(frames[i].0.as_str(), identity) {
            return Some(&frames[i].1);
        }
        i = i + 1;
    }
    None
}

/// Everyone's tile, in roster order: ourselves first.
fn collect_tiles<'a, F>(roster: &'a Roster, frames: &'a [(String, F)]) -> (tiles: Vec<Tile<'a, F>>)
    ensures
        tile_views(tiles@) == unsorted_tiles(roster@.0, roster@.1, frame_views(frames@)),
{
    let ghost fv = frame_views(frames@);
    let mut tiles: Vec<Tile<'a, F>> = Vec::new();
    if let Some(member) = roster.local() {
        let frame = find_frame(frames, member.identity.as_str());
        tiles.push(
            Tile {
                identity: member.identity.as_str(),
                label: member.label.as_str(),
                frame,
                is_local: true,
            },
        );
    }
    let ghost start = tiles@.len();
    let remotes = roster.remotes();
    let mut i: usize = 0;
    while i < remotes.len()
        invariant
            i <= remotes@.len(),
            fv == frame_views(frames@),
            start == (if roster@.0 is Some { 1int } else { 0int }),
            tiles@.len() == start + i,
            roster@.0 matches Some(l) ==> tile_views(tiles@)[0] == tile_for(fv, l, true),
            super::data::views_of(remotes@) == roster@.1,
            forall|j: int|
                0 <= j < i ==> #[trigger] tile_views(tiles@)[start + j] == tile_for(
                    fv,
                    roster@.1[j],
                    false,
                ),
        decreases remotes@.len() - i,
    {
        let member = &remotes[i];
        let frame = find_frame(frames, member.identity.as_str());
        let ghost before = tiles@;
        tiles.push(
            Tile {
                identity: member.identity.as_str(),
                label: member.label.as_str(),
                frame,
                is_local: false,
            },
        );
        assert(tile_views(tiles@)[start + i] == tile_for(fv, roster@.1[i as int], false));
        assert forall|j: int| 0 <= j < start + i implies #[trigger] tile_views(tiles@)[j]
            == tile_views(before)[j] by {}
        i = i + 1;
    }
    proof {
        let u = unsorted_tiles(roster@.0, roster@.1, fv);
        let rest = roster@.1.map_values(|m: MemberView| tile_for(fv, m, false));
        assert(u.len() == tile_views(tiles@).len());
        assert forall|j: int| 0 <= j < u.len() implies #[trigger] u[j] == tile_views(tiles@)[j] by {
            if j >= start {
                assert(rest[j - start] == tile_for(fv, roster@.1[j - start], false));
                assert(tile_views(tiles@)[start + (j - start)] == tile_for(
                    fv,
                    roster@.1[j - start],
                    false,
                ));
            }
        }
        assert(tile_views(tiles@) =~= u);
    }
    tiles
}

/// Everyone's tile, sorted by name (case-insensitively) and then identity,
/// and capped at `MAX_TILES` after sorting.
pub fn ordered_tiles<'a, F>(roster: &'a Roster, frames: &'a [(String, F)]) -> (tiles: Vec<
    Tile<'a, F>,
>)
    ensures
        tile_views(tiles@) == spec_ordered_tiles(roster@.0, roster@.1, frame_views(frames@)),
{
    let all = collect_tiles(roster, frames);
    let ghost all_v = tile_views(all@);
    let ghost less = tile_less::<F>();
    let mut sorted: Vec<Tile<'a, F>> = Vec::new();
    let mut keys: Vec<String> = Vec::new();
    let mut i: usize = 0;
    while i < all.len()
        invariant
            i <= all@.len(),
            all_v == tile_views(all@),
            less == tile_less::<F>(),
            sorted@.len() == keys@.len(),
            tile_views(sorted@) == sort_by(all_v.take(i as int), less),
            forall|j: int| 0 <= j < keys@.len() ==> #[trigger] keys@[j]@ == lowercase(sorted@[j].label@),
        decreases all@.len() - i,
    {
        let t = &all[i];
        let tile = Tile { identity: t.identity, label: t.label, frame: t.frame, is_local: t.is_local };
        let key = to_lowercase(tile.label);
        let ghost x = tile@;
        let ghost before = tile_views(sorted@);
        let ghost keys_before = keys@;
        let ghost sorted_before = sorted@;
        let mut p: usize = 0;
        while p < sorted.len() && !(str_less(key.as_str(), keys[p].as_str()) || (str_eq(
            key.as_str(),
            keys[p].as_str(),
        ) && str_less(tile.identity, sorted[p].identity)))
            invariant
                p <= sorted@.len(),
                sorted@.len() == keys@.len(),
                before == tile_views(sorted@),
                keys_before == keys@,
                sorted_before == sorted@,
                forall|j: int|
                    0 <= j < keys@.len() ==> #[trigger] keys@[j]@ == lowercase(sorted@[j].label@),
                key@ == lowercase(x.1),
                x == tile@,
                less == tile_less::<F>(),
                forall|j: int| 0 <= j < p ==> !less(x, #[trigger] before[j]),
            decreases sorted@.len() - p,
        {
            assert(keys@[p as int]@ == lowercase(before[p as int].1));
            p = p + 1;
        }
        proof {
            if p < sorted@.len() {
                assert(keys@[p as int]@ == lowercase(before[p as int].1));
            }
            lemma_insert_at(before, x, less, p as int);
        }
        sorted.insert(p, tile);
        keys.insert(p, key);
        assert(tile_views(sorted@) =~= before.insert(p as int, x));
        assert forall|j: int| 0 <= j < keys@.len() implies #[trigger] keys@[j]@ == lowercase(
            sorted@[j].label@,
        ) by {
            if j > p {
                assert(keys@[j] == keys_before[j - 1]);
                assert(sorted@[j] == sorted_before[j - 1]);
            }
        }
        assert(all_v.take(i + 1).drop_last() =~= all_v.take(i as int));
        assert(all_v[i as int] == x);
        i = i + 1;
    }
    assert(all_v.take(i as int) =~= all_v);
    if sorted.len() > MAX_TILES {
        let ghost full = tile_views(sorted@);
        sorted.truncate(MAX_TILES);
        assert(tile_views(sorted@) =~= full.take(MAX_TILES as int));
    }
    sorted
}

} // verus!
