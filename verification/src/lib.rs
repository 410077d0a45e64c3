//! Verified core of a LiveKit video-call client: the page state machines,
//! the participant roster, chat routing, grid layout and the audio ring
//! plumbing. Rendering, devices and the network stay with the caller.

pub mod api_service;
pub mod audio;
pub mod common;
pub mod connector_page;
pub mod pages;
pub mod screen;
pub mod sorting;
pub mod text;
pub mod video;
