//! The non-mosaic stage: one participant, filling the whole area.

use vstd::prelude::*;

use super::mosaic_view::{Tile, TileView, tile_views};

verus! {

/// The first tile, local or remote as asked, that has video: its identity and
/// frame.
pub open spec fn first_with_video<F>(tiles: Seq<TileView<F>>, local: bool) -> Option<
    (Seq<char>, F),
>
    decreases tiles.len(),
{
    if tiles.len() == 0 {
        None
    } else if tiles[0].3 == local && tiles[0].2 is Some {
        Some((tiles[0].0, tiles[0].2->0))
    } else {
        first_with_video(tiles.drop_first(), local)
    }
}

/// A remote with video when there is one, otherwise our own preview.
pub open spec fn spec_featured<F>(tiles: Seq<TileView<F>>) -> Option<(Seq<char>, F)> {
    match first_with_video(tiles, false) {
        Some(found) => Some(found),
        None => first_with_video(tiles, true),
    }
}

proof fn lemma_first_with_video<F>(tiles: Seq<TileView<F>>, local: bool)
    ensures
        first_with_video(tiles, local) is None <==> !exists|i: int|
            0 <= i < tiles.len() && #[trigger] tiles[i].3 == local && tiles[i].2 is Some,
        first_with_video(tiles, local) matches Some(found) ==> exists|i: int|
            0 <= i < tiles.len() && #[trigger] tiles[i].3 == local && tiles[i].2 == Some(found.1)
                && tiles[i].0 == found.0,
    decreases tiles.len(),
{
    if tiles.len() > 0 {
        let rest = tiles.drop_first();
        lemma_first_with_video(rest, local);
        if !(tiles[0].3 == local && tiles[0].2 is Some) {
            if exists|i: int| 0 <= i < tiles.len() && #[trigger] tiles[i].3 == local && tiles[i].2 is Some {
                let i = choose|i: int|
                    0 <= i < tiles.len() && #[trigger] tiles[i].3 == local && tiles[i].2 is Some;
                assert(rest[i - 1].3 == local);
            }
            if let Some(found) = first_with_video(rest, local) {
                let i = choose|i: int|
                    0 <= i < rest.len() && #[trigger] rest[i].3 == local && rest[i].2 == Some(found.1)
                        && rest[i].0 == found.0;
                assert(tiles[i + 1].3 == local);
            }
        } else {
            assert(tiles[0].3 == local);
        }
    }
}

/// Nobody is featured exactly when no tile has video, and whenever a remote
/// has video, a remote with video is featured over our own preview.
pub proof fn lemma_featured<F>(tiles: Seq<TileView<F>>)
    ensures
        spec_featured(tiles) is None <==> !exists|i: int|
            0 <= i < tiles.len() && #[trigger] tiles[i].2 is Some,
        (exists|i: int| 0 <= i < tiles.len() && !#[trigger] tiles[i].3 && tiles[i].2 is Some)
            ==> (spec_featured(tiles) matches Some(found) && exists|i: int|
            0 <= i < tiles.len() && !#[trigger] tiles[i].3 && tiles[i].0 == found.0 && tiles[i].2
                == Some(found.1)),
{
    lemma_first_with_video(tiles, false);
    lemma_first_with_video(tiles, true);
    if exists|i: int| 0 <= i < tiles.len() && #[trigger] tiles[i].2 is Some {
        let i = choose|i: int| 0 <= i < tiles.len() && #[trigger] tiles[i].2 is Some;
        if tiles[i].3 {
            assert(tiles[i].3 == true);
        } else {
            assert(tiles[i].3 == false);
        }
    }
    if exists|i: int| 0 <= i < tiles.len() && !#[trigger] tiles[i].3 && tiles[i].2 is Some {
        let i = choose|i: int| 0 <= i < tiles.len() && !#[trigger] tiles[i].3 && tiles[i].2 is Some;
        assert(tiles[i].3 == false);
    }
}

fn find_with_video<'a, F>(tiles: &[Tile<'a, F>], local: bool) -> (found: Option<(&'a str, &'a F)>)
    ensures
        match found {
            Some((identity, frame)) => first_with_video(tile_views(tiles@), local) == Some(
                (identity@, *frame),
            ),
            None => first_with_video(tile_views(tiles@), local) is None,
        },
{
    let ghost all = tile_views(tiles@);
    let mut i: usize = 0;
    assert(all.skip(0) =~= all);
    while i < tiles.len()
        invariant
            i <= tiles@.len(),
            all == tile_views(tiles@),
            first_with_video(all, local) == first_with_video(all.skip(i as int), local),
        decreases tiles@.len() - i,
    {
        assert(all.skip(i as int)[0] == all[i as int]);
        assert(all.skip(i as int).drop_first() =~= all.skip(i + 1));
        let tile = &tiles[i];
        if tile.is_local == local {
            if let Some(frame) = tile.frame {
                return Some((tile.identity, frame));
            }
        }
        i = i + 1;
    }
    None
}

/// What the single view shows: a remote with video when there is one,
/// otherwise our own preview. `tiles` is already sorted, so "first remote" is
/// alphabetical.
pub fn featured<'a, F>(tiles: &[Tile<'a, F>]) -> (found: Option<(&'a str, &'a F)>)
    ensures
        match found {
            Some((identity, frame)) => spec_featured(tile_views(tiles@)) == Some(
                (identity@, *frame),
            ),
            None => spec_featured(tile_views(tiles@)) is None,
        },
{
    match find_with_video(tiles, false) {
        Some(found) => Some(found),
        None => find_with_video(tiles, true),
    }
}

} // verus!
