//! The meeting room screen and its panels.

pub mod chat_notification;
pub mod data;
pub mod featured_view;
pub mod meeting_chat;
pub mod meeting_controls;
pub mod meeting_room_page;
pub mod mosaic_view;
pub mod room_loop;

use vstd::prelude::*;

use crate::video::Frame;

verus! {

#[derive(Debug, Clone)]
pub enum Status {
    Connecting,
    Live,
    Reconnecting,
    Ended(Option<String>),
}

/// The status line the stage shows.
pub open spec fn spec_status_label(status: Status) -> Seq<char> {
    match status {
        Status::Connecting => "Connecting…"@,
        Status::Live => "Waiting for someone to publish video…"@,
        Status::Reconnecting => "Reconnecting…"@,
        Status::Ended(None) => "Disconnected."@,
        Status::Ended(Some(error)) => error@,
    }
}

/// The call ended with an error.
pub open spec fn spec_status_is_error(status: Status) -> bool {
    status matches Status::Ended(Some(_))
}

impl Status {
    pub fn label(&self) -> (label: String)
        ensures
            label@ == spec_status_label(*self),
    {
        match self {
            Status::Connecting => String::from_str("Connecting…"),
            Status::Live => String::from_str("Waiting for someone to publish video…"),
            Status::Reconnecting => String::from_str("Reconnecting…"),
            Status::Ended(None) => String::from_str("Disconnected."),
            Status::Ended(Some(error)) => error.clone(),
        }
    }

    pub fn is_error(&self) -> (error: bool)
        ensures
            error == spec_status_is_error(*self),
    {
        match self {
            Status::Ended(Some(_)) => true,
            _ => false,
        }
    }
}

#[derive(Debug)]
pub enum MeetingRoomMessage<B> {
    Status(Status),
    Frame(Frame<B>),
}

/// The single-stream meeting room: the connection it was opened with, the
/// call's status, and the latest remote frame.
pub struct MeetingRoomPage<B> {
    token: String,
    url: String,
    status: Status,
    frame: Option<Frame<B>>,
}

impl<B> MeetingRoomPage<B> {
    pub closed spec fn spec_token(&self) -> Seq<char> {
        self.token@
    }

    pub closed spec fn spec_url(&self) -> Seq<char> {
        self.url@
    }

    pub closed spec fn spec_status(&self) -> Status {
        self.status
    }

    pub closed spec fn spec_frame(&self) -> Option<Frame<B>> {
        self.frame
    }

    pub fn new(token: String, url: String) -> (page: Self)
        ensures
            page.spec_token() == token@,
            page.spec_url() == url@,
            page.spec_status() is Connecting,
            page.spec_frame() is None,
    {
        Self { token, url, status: Status::Connecting, frame: None }
    }

    pub fn update(&mut self, message: MeetingRoomMessage<B>)
        ensures
            final(self).spec_token() == old(self).spec_token(),
            final(self).spec_url() == old(self).spec_url(),
            match message {
                MeetingRoomMessage::Status(status) => {
                    &&& final(self).spec_status() == status
                    &&& final(self).spec_frame() == old(self).spec_frame()
                },
                MeetingRoomMessage::Frame(frame) => {
                    &&& final(self).spec_status() == old(self).spec_status()
                    &&& final(self).spec_frame() == Some(frame)
                },
            },
    {
        match message {
            MeetingRoomMessage::Status(status) => self.status = status,
            MeetingRoomMessage::Frame(frame) => self.frame = Some(frame),
        }
    }

    /// The frame the stage shows: the latest one, unless the call ended in
    /// an error, in which case the stage shows the error text instead.
    pub fn shown_frame(&self) -> (frame: Option<&Frame<B>>)
        ensures
            frame is Some <==> (self.spec_frame() is Some && !spec_status_is_error(
                self.spec_status(),
            )),
            frame matches Some(f) ==> self.spec_frame() == Some(*f),
    {
        if self.status.is_error() {
            return None;
        }
        self.frame.as_ref()
    }

    pub fn status(&self) -> (status: &Status)
        ensures
            *status == self.spec_status(),
    {
        &self.status
    }

    pub fn token(&self) -> (token: &String)
        ensures
            token@ == self.spec_token(),
    {
        &self.token
    }

    pub fn url(&self) -> (url: &String)
        ensures
            url@ == self.spec_url(),
    {
        &self.url
    }
}

} // verus!
