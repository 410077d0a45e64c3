//! The simple connection form: five fields and a connect button.

use vstd::prelude::*;

use crate::common::ApiKey;

verus! {

#[derive(Debug)]
pub struct ConnectorPage {
    pub api_key: String,
    pub api_secret: String,
    pub api_url: String,
    pub username: String,
    pub room_id: String,
}

/// The form as plain text, in field order.
pub type FormView = (Seq<char>, Seq<char>, Seq<char>, Seq<char>, Seq<char>);

impl View for ConnectorPage {
    type V = FormView;

    open spec fn view(&self) -> FormView {
        (self.api_key@, self.api_secret@, self.api_url@, self.username@, self.room_id@)
    }
}

impl Default for ConnectorPage {
    /// Every field empty.
    fn default() -> (page: Self)
        ensures
            page@ == (
                Seq::<char>::empty(),
                Seq::<char>::empty(),
                Seq::<char>::empty(),
                Seq::<char>::empty(),
                Seq::<char>::empty(),
            ),
    {
        ConnectorPage {
            api_key: String::new(),
            api_secret: String::new(),
            api_url: String::new(),
            username: String::new(),
            room_id: String::new(),
        }
    }
}

#[derive(Debug, Clone)]
pub enum ConnectorPageMessage {
    APIKeyContentChanged(String),
    APISecretContentChanged(String),
    APIURLContentChanged(String),
    UsernameContentChanged(String),
    RoomIDContentChanged(String),
    ConnectButtonPressed,
}

#[derive(Debug)]
pub enum ConnectorPageAction {
    Connect(ApiKey),
    Nothing,
}

impl ConnectorPage {
    pub fn update(&mut self, message: ConnectorPageMessage) -> (action: ConnectorPageAction)
        ensures
            match message {
                ConnectorPageMessage::APIKeyContentChanged(v) => final(self)@ == (
                    v@,
                    old(self)@.1,
                    old(self)@.2,
                    old(self)@.3,
                    old(self)@.4,
                ) && action is Nothing,
                ConnectorPageMessage::APISecretContentChanged(v) => final(self)@ == (
                    old(self)@.0,
                    v@,
                    old(self)@.2,
                    old(self)@.3,
                    old(self)@.4,
                ) && action is Nothing,
                ConnectorPageMessage::APIURLContentChanged(v) => final(self)@ == (
                    old(self)@.0,
                    old(self)@.1,
                    v@,
                    old(self)@.3,
                    old(self)@.4,
                ) && action is Nothing,
                ConnectorPageMessage::UsernameContentChanged(v) => final(self)@ == (
                    old(self)@.0,
                    old(self)@.1,
                    old(self)@.2,
                    v@,
                    old(self)@.4,
                ) && action is Nothing,
                ConnectorPageMessage::RoomIDContentChanged(v) => final(self)@ == (
                    old(self)@.0,
                    old(self)@.1,
                    old(self)@.2,
                    old(self)@.3,
                    v@,
                ) && action is Nothing,
                ConnectorPageMessage::ConnectButtonPressed => {
                    &&& final(self)@ == old(self)@
                    &&& action matches ConnectorPageAction::Connect(key)
                    &&& key@ == old(self)@
                },
            },
    {
        match message {
            ConnectorPageMessage::APIKeyContentChanged(value) => self.api_key = value,
            ConnectorPageMessage::APISecretContentChanged(value) => self.api_secret = value,
            ConnectorPageMessage::APIURLContentChanged(value) => self.api_url = value,
            ConnectorPageMessage::UsernameContentChanged(value) => self.username = value,
            ConnectorPageMessage::RoomIDContentChanged(value) => self.room_id = value,
            ConnectorPageMessage::ConnectButtonPressed => {
                return ConnectorPageAction::Connect(
                    ApiKey {
                        api_key: self.api_key.clone(),
                        api_secret: self.api_secret.clone(),
                        api_url: self.api_url.clone(),
                        identity: self.username.clone(),
                        room: self.room_id.clone(),
                    },
                );
            },
        }
        ConnectorPageAction::Nothing
    }
}

} // verus!
