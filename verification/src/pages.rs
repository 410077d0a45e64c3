//! The screens of the client.

pub mod login;
pub mod meeting_room;
