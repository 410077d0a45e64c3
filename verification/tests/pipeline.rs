use iced_pv_meet::video::pipeline::{TileBook, UploadPlan};

const CREATE: UploadPlan = UploadPlan { create: true, resize: false, upload: true };
const FREE: UploadPlan = UploadPlan { create: false, resize: false, upload: false };

#[test]
fn first_frame_creates_the_tile() {
    let mut book = TileBook::new();
    assert!(!book.contains("alice"));
    assert_eq!(book.prepare("alice", (640, 480), 1), CREATE);
    assert!(book.contains("alice"));
}

#[test]
fn redrawing_the_same_frame_is_free() {
    let mut book = TileBook::new();
    book.prepare("alice", (640, 480), 7);
    assert_eq!(book.prepare("alice", (640, 480), 7), FREE);
}

#[test]
fn a_new_frame_uploads_without_resizing() {
    let mut book = TileBook::new();
    book.prepare("alice", (640, 480), 7);
    assert_eq!(
        book.prepare("alice", (640, 480), 8),
        UploadPlan { create: false, resize: false, upload: true }
    );
}

#[test]
fn a_resized_frame_recreates_the_planes() {
    let mut book = TileBook::new();
    book.prepare("alice", (640, 480), 7);
    assert_eq!(
        book.prepare("alice", (480, 640), 7),
        UploadPlan { create: false, resize: true, upload: true }
    );
}

#[test]
fn tiles_are_kept_apart_by_key() {
    let mut book = TileBook::new();
    book.prepare("alice", (640, 480), 1);
    assert_eq!(book.prepare("bob", (640, 480), 1), CREATE);
    assert_eq!(book.prepare("alice", (640, 480), 1), FREE);
}

#[test]
fn trim_drops_only_tiles_left_undrawn() {
    let mut book = TileBook::new();
    book.prepare("alice", (640, 480), 1);
    book.prepare("bob", (640, 480), 1);
    assert!(book.trim().is_empty());

    book.prepare("bob", (640, 480), 2);
    assert_eq!(book.trim(), vec!["alice".to_string()]);
    assert!(!book.contains("alice"));
    assert!(book.contains("bob"));

    assert_eq!(book.trim(), vec!["bob".to_string()]);
    assert!(!book.contains("bob"));
}

#[test]
fn a_dropped_tile_is_created_again() {
    let mut book = TileBook::new();
    book.prepare("alice", (640, 480), 1);
    book.trim();
    book.trim();
    assert_eq!(book.prepare("alice", (640, 480), 1), CREATE);
}
