//! The plain login form: five fields and a connect button that hands the
//! settings on as they are.

use vstd::prelude::*;

use crate::common::ApiKey;

verus! {

#[derive(Debug)]
pub struct LoginPage {
    pub api_key: String,
    pub api_secret: String,
    pub api_url: String,
    pub username: String,
    pub room_id: String,
}

/// The form as plain text, in field order.
pub type PlainView = (Seq<char>, Seq<char>, Seq<char>, Seq<char>, Seq<char>);

impl View for LoginPage {
    type V = PlainView;

    open spec fn view(&self) -> PlainView {
        (self.api_key@, self.api_secret@, self.api_url@, self.username@, self.room_id@)
    }
}

#[derive(Debug, Clone)]
pub enum LoginPageMessage {
    APIKeyContentChanged(String),
    APISecretContentChanged(String),
    APIURLContentChanged(String),
    UsernameContentChanged(String),
    RoomIDContentChanged(String),
    ConnectButtonPressed,
}

#[derive(Debug)]
pub enum LoginPageAction {
    Connect(ApiKey),
    Nothing,
}

impl LoginPage {
    /// The form pre-filled from `api_key` (the settings found in the
    /// environment).
    pub fn default(api_key: ApiKey) -> (page: Self)
        ensures
            page@ == api_key@,
    {
        Self {
            api_key: api_key.api_key,
            api_secret: api_key.api_secret,
            api_url: api_key.api_url,
            username: api_key.identity,
            room_id: api_key.room,
        }
    }

    pub fn update(&mut self, message: LoginPageMessage) -> (action: LoginPageAction)
        ensures
            match message {
                LoginPageMessage::APIKeyContentChanged(v) => {
                    &&& final(self)@ == (v@, old(self)@.1, old(self)@.2, old(self)@.3, old(self)@.4)
                    &&& action is Nothing
                },
                LoginPageMessage::APISecretContentChanged(v) => {
                    &&& final(self)@ == (old(self)@.0, v@, old(self)@.2, old(self)@.3, old(self)@.4)
                    &&& action is Nothing
                },
                LoginPageMessage::APIURLContentChanged(v) => {
                    &&& final(self)@ == (old(self)@.0, old(self)@.1, v@, old(self)@.3, old(self)@.4)
                    &&& action is Nothing
                },
                LoginPageMessage::UsernameContentChanged(v) => {
                    &&& final(self)@ == (old(self)@.0, old(self)@.1, old(self)@.2, v@, old(self)@.4)
                    &&& action is Nothing
                },
                LoginPageMessage::RoomIDContentChanged(v) => {
                    &&& final(self)@ == (old(self)@.0, old(self)@.1, old(self)@.2, old(self)@.3, v@)
                    &&& action is Nothing
                },
                LoginPageMessage::ConnectButtonPressed => {
                    &&& final(self)@ == old(self)@
                    &&& action matches LoginPageAction::Connect(key)
                    &&& key@ == old(self)@
                },
            },
    {
        match message {
            LoginPageMessage::APIKeyContentChanged(value) => self.api_key = value,
            LoginPageMessage::APISecretContentChanged(value) => self.api_secret = value,
            LoginPageMessage::APIURLContentChanged(value) => self.api_url = value,
            LoginPageMessage::UsernameContentChanged(value) => self.username = value,
            LoginPageMessage::RoomIDContentChanged(value) => self.room_id = value,
            LoginPageMessage::ConnectButtonPressed => {
                return LoginPageAction::Connect(
                    ApiKey {
                        api_key: self.api_key.clone(),
                        api_secret: self.api_secret.clone(),
                        api_url: self.api_url.clone(),
                        identity: self.username.clone(),
                        room: self.room_id.clone(),
                    },
                );
            },
        }
        LoginPageAction::Nothing
    }
}

} // verus!
