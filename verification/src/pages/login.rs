//! The login screen: connection settings, and the token minted from them.

use vstd::prelude::*;

use crate::api_service::get_access_token;
use crate::common::ApiKey;

pub mod plain;

verus! {

#[derive(Debug)]
pub struct LoginPage {
    api_key: String,
    api_secret: String,
    api_url: String,
    username: String,
    room_id: String,
    error: Option<String>,
}

/// The screen as plain text: the five fields in order, and the error shown.
pub type LoginView = (Seq<char>, Seq<char>, Seq<char>, Seq<char>, Seq<char>, Option<Seq<char>>);

impl View for LoginPage {
    type V = LoginView;

    closed spec fn view(&self) -> LoginView {
        (
            self.api_key@,
            self.api_secret@,
            self.api_url@,
            self.username@,
            self.room_id@,
            match self.error {
                Some(e) => Some(e@),
                None => None,
            },
        )
    }
}

#[derive(Debug, Clone)]
pub enum LoginPageMessage {
    APIKeyContentChanged(String),
    APISecretContentChanged(String),
    APIURLContentChanged(String),
    UsernameContentChanged(String),
    RoomIDContentChanged(String),
    ConnectButtonPressed,
}

#[derive(Debug)]
pub enum LoginPageAction {
    Login { token: String, api_url: String },
    Nothing,
}

/// The fields with the error replaced.
pub open spec fn with_error(v: LoginView, error: Option<Seq<char>>) -> LoginView {
    (v.0, v.1, v.2, v.3, v.4, error)
}

/// The join settings the fields describe: the username as identity, the room
/// id as room.
pub open spec fn login_settings(v: LoginView) -> (Seq<char>, Seq<char>, Seq<char>, Seq<char>, Seq<
    char,
>) {
    (v.0, v.1, v.2, v.3, v.4)
}

/// What a connect attempt ends in, given the token service's answer: a
/// login to the form's URL with the token, clearing the error; or the
/// refusal shown as the error, and nothing to do.
pub open spec fn login_outcome(
    before: LoginView,
    token: Result<String, String>,
    after: LoginView,
    action: LoginPageAction,
) -> bool {
    match token {
        Ok(t) => {
            &&& after == with_error(before, None)
            &&& action matches LoginPageAction::Login { token: got, api_url }
            &&& got@ == t@
            &&& api_url@ == before.2
        },
        Err(e) => after == with_error(before, Some(e@)) && action is Nothing,
    }
}

/// The login screen after `message`, and what it asks for. An edit changes
/// its own field; a connect asks the token service, with a join grant, for
/// the settings the fields hold, and ends as that answer says.
pub open spec fn login_update(
    before: LoginView,
    message: LoginPageMessage,
    after: LoginView,
    action: LoginPageAction,
) -> bool {
    match message {
        LoginPageMessage::APIKeyContentChanged(v) => after == (v@, before.1, before.2, before.3, before.4, before.5)
            && action is Nothing,
        LoginPageMessage::APISecretContentChanged(v) => after == (before.0, v@, before.2, before.3, before.4, before.5)
            && action is Nothing,
        LoginPageMessage::APIURLContentChanged(v) => after == (before.0, before.1, v@, before.3, before.4, before.5)
            && action is Nothing,
        LoginPageMessage::UsernameContentChanged(v) => after == (before.0, before.1, before.2, v@, before.4, before.5)
            && action is Nothing,
        LoginPageMessage::RoomIDContentChanged(v) => after == (before.0, before.1, before.2, before.3, v@, before.5)
            && action is Nothing,
        LoginPageMessage::ConnectButtonPressed => exists|key: ApiKey, token: Result<String, String>|
            #![trigger call_ensures(get_access_token, (&key, true), token)]
            key@ == login_settings(before) && call_ensures(get_access_token, (&key, true), token)
                && login_outcome(before, token, after, action),
    }
}

impl LoginPage {
    /// The screen pre-filled from `api_key` (the settings found in the
    /// environment), with no error.
    pub fn default(api_key: ApiKey) -> (page: Self)
        ensures
            page@ == (
                api_key.api_key@,
                api_key.api_secret@,
                api_key.api_url@,
                api_key.identity@,
                api_key.room@,
                None::<Seq<char>>,
            ),
    {
        Self {
            api_key: api_key.api_key,
            api_secret: api_key.api_secret,
            api_url: api_key.api_url,
            username: api_key.identity,
            room_id: api_key.room,
            error: None,
        }
    }

    /// What a connect attempt ends in, given the token that was minted for it
    /// (or why not): a login to `api_url` with the token, clearing the error;
    /// or the reason shown as the error, and nothing to do.
    pub fn finish_login(&mut self, api_url: String, token: Result<String, String>) -> (action:
        LoginPageAction)
        ensures
            match token {
                Ok(t) => {
                    &&& final(self)@ == with_error(old(self)@, None)
                    &&& action matches LoginPageAction::Login { token: got, api_url: url }
                    &&& got@ == t@
                    &&& url@ == api_url@
                },
                Err(e) => {
                    &&& final(self)@ == with_error(old(self)@, Some(e@))
                    &&& action is Nothing
                },
            },
    {
        match token {
            Ok(token) => {
                self.error = None;
                LoginPageAction::Login { token, api_url }
            },
            Err(error) => {
                self.error = Some(error);
                LoginPageAction::Nothing
            },
        }
    }

    /// The join settings the fields hold: the username as identity, the
    /// room id as room.
    pub fn login_key(&self) -> (key: ApiKey)
        ensures
            key@ == login_settings(self@),
    {
        ApiKey {
            api_key: self.api_key.clone(),
            api_secret: self.api_secret.clone(),
            api_url: self.api_url.clone(),
            identity: self.username.clone(),
            room: self.room_id.clone(),
        }
    }

    pub fn update(&mut self, message: LoginPageMessage) -> (action: LoginPageAction)
        ensures
            login_update(old(self)@, message, final(self)@, action),
            // What the token service's answer is known to be: missing keys,
            // identity or room are refused.
            message is ConnectButtonPressed && (old(self)@.0.len() == 0 || old(self)@.1.len() == 0)
                ==> final(self)@ == with_error(old(self)@, Some("Invalid API Key or Secret Key"@))
                && action is Nothing,
            message is ConnectButtonPressed && old(self)@.0.len() != 0 && old(self)@.1.len() != 0
                && (old(self)@.3.len() == 0 || old(self)@.4.len() == 0) ==> final(self)@
                == with_error(
                old(self)@,
                Some("invalid claims: token grants room_join but doesn't have an identity or room"@),
            ) && action is Nothing,
            // With keys, identity and room all given, the service mints a
            // token and the login goes ahead to the form's URL.
            message is ConnectButtonPressed && old(self)@.0.len() != 0 && old(self)@.1.len() != 0
                && old(self)@.3.len() != 0 && old(self)@.4.len() != 0 ==> (final(self)@
                == with_error(old(self)@, None) && (action matches LoginPageAction::Login {
                api_url,
                ..
            } && api_url@ == old(self)@.2)),
    {
        match message {
            LoginPageMessage::APIKeyContentChanged(value) => self.api_key = value,
            LoginPageMessage::APISecretContentChanged(value) => self.api_secret = value,
            LoginPageMessage::APIURLContentChanged(value) => self.api_url = value,
            LoginPageMessage::UsernameContentChanged(value) => self.username = value,
            LoginPageMessage::RoomIDContentChanged(value) => self.room_id = value,
            LoginPageMessage::ConnectButtonPressed => {
                let ghost before = self@;
                let auth_data = self.login_key();
                let token = get_access_token(&auth_data, true);
                assert(call_ensures(get_access_token, (&auth_data, true), token));
                let action = self.finish_login(auth_data.api_url, token);
                assert(login_outcome(before, token, self@, action));
                return action;
            },
        }
        LoginPageAction::Nothing
    }

    pub fn api_key(&self) -> (v: &String)
        ensures
            v@ == self@.0,
    {
        &self.api_key
    }

    pub fn api_secret(&self) -> (v: &String)
        ensures
            v@ == self@.1,
    {
        &self.api_secret
    }

    pub fn api_url(&self) -> (v: &String)
        ensures
            v@ == self@.2,
    {
        &self.api_url
    }

    pub fn username(&self) -> (v: &String)
        ensures
            v@ == self@.3,
    {
        &self.username
    }

    pub fn room_id(&self) -> (v: &String)
        ensures
            v@ == self@.4,
    {
        &self.room_id
    }

    /// The reason the last connect attempt failed, if it did.
    pub fn error(&self) -> (e: Option<&String>)
        ensures
            e is None <==> self@.5 is None,
            e matches Some(s) ==> self@.5 == Some(s@),
    {
        self.error.as_ref()
    }
}

} // verus!
