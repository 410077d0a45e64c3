use iced_pv_meet::pages::meeting_room::data::{Member, Roster};
use iced_pv_meet::pages::meeting_room::mosaic_view::{grid_shape, ordered_tiles, MAX_TILES};

#[test]
fn grid_grows_in_powers_of_two() {
    let landscape = [
        (0, (1, 1)),
        (1, (1, 1)),
        (2, (2, 1)),
        (3, (2, 2)),
        (4, (2, 2)),
        (5, (4, 2)),
        (8, (4, 2)),
        (9, (4, 4)),
        (16, (4, 4)),
        (17, (8, 4)),
        (32, (8, 4)),
        (33, (8, 4)),
    ];

    for (count, shape) in landscape {
        assert_eq!(grid_shape(count, true), shape, "landscape, {count} tiles");

        let (columns, rows) = shape;
        assert_eq!(
            grid_shape(count, false),
            (rows, columns),
            "portrait, {count} tiles"
        );
    }
}

#[test]
fn every_count_fits_its_grid() {
    for count in 0..=MAX_TILES {
        let (columns, rows) = grid_shape(count, true);
        assert!(columns * rows >= count.max(1), "{count} tiles");
        assert!(columns * rows <= MAX_TILES, "{count} tiles");
    }
}

#[test]
fn huge_counts_use_the_largest_grid() {
    assert_eq!(grid_shape(usize::MAX, true), (8, 4));
    assert_eq!(grid_shape(1000, false), (4, 8));
}

fn member(identity: &str, label: &str) -> Member {
    Member {
        identity: identity.to_owned(),
        label: label.to_owned(),
    }
}

#[test]
fn tiles_sort_by_name_then_identity_and_include_local() {
    let mut roster = Roster::from_members(
        [("id-2", "alice"), ("id-1", "Alice"), ("id-3", "Zed")]
            .into_iter()
            .map(|(identity, label)| member(identity, label))
            .collect(),
    );
    roster.set_local(member("id-local", "bob"));
    let frames: Vec<(String, u8)> = Vec::new();

    let tiles = ordered_tiles(&roster, &frames);
    let identities: Vec<&str> = tiles.iter().map(|tile| tile.identity).collect();

    assert_eq!(identities, ["id-1", "id-2", "id-local", "id-3"]);
    assert_eq!(tiles.iter().filter(|tile| tile.is_local).count(), 1);
}

#[test]
fn tiles_are_capped_after_sorting() {
    let roster = Roster::from_members(
        (0..40)
            .map(|n| member(&format!("id-{n:02}"), &format!("name-{n:02}")))
            .collect(),
    );
    let frames: Vec<(String, u8)> = Vec::new();

    let tiles = ordered_tiles(&roster, &frames);

    assert_eq!(tiles.len(), MAX_TILES);
    assert_eq!(tiles.first().map(|tile| tile.identity), Some("id-00"));
    assert_eq!(tiles.last().map(|tile| tile.identity), Some("id-31"));
}

#[test]
fn tiles_carry_their_frames() {
    let mut roster = Roster::from_members(vec![member("a", "Ann"), member("b", "Bo")]);
    roster.set_local(member("me", "Me"));
    let frames: Vec<(String, u8)> = vec![("b".to_owned(), 7), ("me".to_owned(), 9)];

    let tiles = ordered_tiles(&roster, &frames);
    let seen: Vec<(&str, Option<u8>)> = tiles
        .iter()
        .map(|tile| (tile.identity, tile.frame.copied()))
        .collect();

    assert_eq!(seen, [("a", None), ("b", Some(7)), ("me", Some(9))]);
    assert_eq!(tiles.iter().map(|t| t.label).collect::<Vec<_>>(), ["Ann", "Bo", "Me"]);
}

#[test]
fn tiles_sort_case_insensitively() {
    let roster = Roster::from_members(vec![
        member("1", "beta"),
        member("2", "Alpha"),
        member("3", "alpha"),
        member("4", "Gamma"),
    ]);
    let frames: Vec<(String, u8)> = Vec::new();

    let tiles = ordered_tiles(&roster, &frames);
    let identities: Vec<&str> = tiles.iter().map(|tile| tile.identity).collect();

    assert_eq!(identities, ["2", "3", "1", "4"]);
}

#[test]
fn an_empty_roster_has_no_tiles() {
    let roster = Roster::new();
    let frames: Vec<(String, u8)> = Vec::new();
    assert!(ordered_tiles(&roster, &frames).is_empty());
}
