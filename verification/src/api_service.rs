//! Minting room-join tokens.

use vstd::prelude::*;

use livekit_api::access_token::{AccessToken, VideoGrants};

use crate::common::ApiKey;

verus! {

/// `livekit_api::access_token::AccessToken::with_api_key(..).with_identity(..)
/// .with_name(..).with_grants(..).to_jwt()`, its error shown with `to_string`.
///
/// The token names `identity` as both identity and display name and grants
/// joining `room` when `room_join` is set. What the crate's source shows of
/// the outcome: an empty key or secret is refused as invalid keys; otherwise,
/// a join grant without an identity or a room is refused as invalid claims;
/// otherwise a token comes back (the claims are plain strings, flags and
/// numbers, and the HMAC signer the crate installs takes any secret). The
/// token itself embeds the current time, so nothing is claimed of its text.
/// `with_api_key` reads the system clock and panics when it is set before
/// 1970, which no argument rules out.
#[verifier::external_body]
pub fn get_access_token(auth_data: &ApiKey, room_join: bool) -> (token: Result<String, String>)
    ensures
        auth_data.api_key@.len() == 0 || auth_data.api_secret@.len() == 0 ==> token is Err,
        auth_data.api_key@.len() == 0 || auth_data.api_secret@.len() == 0 ==> token->Err_0@
            == "Invalid API Key or Secret Key"@,
        room_join && (auth_data.identity@.len() == 0 || auth_data.room@.len() == 0)
            ==> token is Err,
        auth_data.api_key@.len() != 0 && auth_data.api_secret@.len() != 0 && room_join && (
        auth_data.identity@.len() == 0 || auth_data.room@.len() == 0) ==> token->Err_0@
            == "invalid claims: token grants room_join but doesn't have an identity or room"@,
        auth_data.api_key@.len() != 0 && auth_data.api_secret@.len() != 0 && (room_join ==> (
        auth_data.identity@.len() != 0 && auth_data.room@.len() != 0)) ==> token is Ok,
{
    AccessToken::with_api_key(&auth_data.api_key, &auth_data.api_secret)
        .with_identity(&auth_data.identity)
        .with_name(&auth_data.identity)
        .with_grants(VideoGrants { room_join, room: auth_data.room.clone(), ..Default::default() })
        .to_jwt()
        .map_err(|e| e.to_string())
}

} // verus!
