use iced_pv_meet::pages::meeting_room::featured_view::featured;
use iced_pv_meet::pages::meeting_room::mosaic_view::Tile;
use iced_pv_meet::video::{Frame, VideoRotation};

fn frame() -> Frame<Vec<u8>> {
    Frame::new(vec![0; 6], 0, VideoRotation::VideoRotation0)
}

fn tile<'a>(
    identity: &'a str,
    is_local: bool,
    frame: Option<&'a Frame<Vec<u8>>>,
) -> Tile<'a, Frame<Vec<u8>>> {
    Tile {
        identity,
        label: identity,
        frame,
        is_local,
    }
}

#[test]
fn no_video_anywhere_features_nobody() {
    let tiles = [tile("remote", false, None), tile("local", true, None)];

    assert!(featured(&tiles).is_none());
}

#[test]
fn a_remote_with_video_wins_over_our_own_preview() {
    let frame = frame();
    let tiles = [
        tile("local", true, Some(&frame)),
        tile("remote-quiet", false, None),
        tile("remote-live", false, Some(&frame)),
    ];

    assert_eq!(
        featured(&tiles).map(|(identity, _)| identity),
        Some("remote-live")
    );
}

#[test]
fn our_own_preview_is_the_fallback() {
    let frame = frame();
    let tiles = [
        tile("remote", false, None),
        tile("local", true, Some(&frame)),
    ];

    assert_eq!(
        featured(&tiles).map(|(identity, _)| identity),
        Some("local")
    );
}

#[test]
fn the_first_remote_with_video_is_featured() {
    let first = Frame::new(vec![1u8], 1, VideoRotation::VideoRotation90);
    let second = Frame::new(vec![2u8], 2, VideoRotation::VideoRotation0);
    let tiles = [
        tile("a", false, Some(&first)),
        tile("b", false, Some(&second)),
    ];

    let (identity, frame) = featured(&tiles).unwrap();
    assert_eq!(identity, "a");
    assert_eq!(frame.id(), 1);
    assert_eq!(frame.rotation(), VideoRotation::VideoRotation90);
}

#[test]
fn nothing_is_featured_from_no_tiles() {
    let tiles: [Tile<'_, Frame<Vec<u8>>>; 0] = [];
    assert!(featured(&tiles).is_none());
}
