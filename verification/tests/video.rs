use iced_pv_meet::video::video_source::{
    even_extent, i420_geometry, rgba_buffer_len, RGBA_BYTES_PER_PIXEL,
};
use iced_pv_meet::video::{displayed_size, quarter_turns, Frame, VideoRotation};

const WIDTH: u32 = 8;
const HEIGHT: u32 = 8;

#[test]
fn rejects_degenerate_resolutions() {
    assert!(rgba_buffer_len(0, HEIGHT).is_none());
    assert!(rgba_buffer_len(WIDTH, 0).is_none());
    assert_eq!(
        rgba_buffer_len(2, 2),
        Some(4 * usize::try_from(RGBA_BYTES_PER_PIXEL).unwrap())
    );
}

#[test]
fn rgba_length_is_four_bytes_per_pixel() {
    assert_eq!(rgba_buffer_len(1280, 720), Some(1280 * 720 * 4));
    assert_eq!(rgba_buffer_len(1, 1), Some(4));
    assert_eq!(rgba_buffer_len(u32::MAX, u32::MAX), None);
}

#[test]
fn capture_extents_round_down_to_even() {
    assert_eq!(even_extent(1281), 1280);
    assert_eq!(even_extent(720), 720);
    assert_eq!(even_extent(1), 0);
    assert_eq!(even_extent(u32::MAX), u32::MAX - 1);
}

#[test]
fn rotations_are_quarter_turns() {
    assert_eq!(quarter_turns(VideoRotation::VideoRotation0), 0);
    assert_eq!(quarter_turns(VideoRotation::VideoRotation90), 1);
    assert_eq!(quarter_turns(VideoRotation::VideoRotation180), 2);
    assert_eq!(quarter_turns(VideoRotation::VideoRotation270), 3);
}

#[test]
fn a_quarter_turn_swaps_the_displayed_size() {
    assert_eq!(displayed_size(640, 480, 0), (640, 480));
    assert_eq!(displayed_size(640, 480, 1), (480, 640));
    assert_eq!(displayed_size(640, 480, 2), (640, 480));
    assert_eq!(displayed_size(640, 480, 3), (480, 640));
}

#[test]
fn frames_keep_what_they_were_made_with() {
    let frame = Frame::new("pixels", 42, VideoRotation::VideoRotation270);
    assert_eq!(*frame.buffer(), "pixels");
    assert_eq!(frame.id(), 42);
    assert_eq!(frame.rotation(), VideoRotation::VideoRotation270);
}

#[test]
fn the_converter_gets_signed_extents_and_the_rgba_stride() {
    assert_eq!(i420_geometry(1280, 720), Some((1280, 720, 5120)));
    assert_eq!(i420_geometry(2, 2), Some((2, 2, 8)));
    assert_eq!(i420_geometry(u32::MAX, 2), None);
    assert_eq!(i420_geometry(2, 1 << 31), None);
    assert_eq!(i420_geometry(1 << 30, 2), None);
}
