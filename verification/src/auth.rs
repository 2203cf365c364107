//! Authentication-related functionality for Last.fm API.

use vstd::prelude::*;

use crate::client::signed_parameters;
use crate::client::Client;
use crate::client::HttpMethod;
use crate::client::Request;
use crate::error::Error;
use crate::params::ParameterSet;
use crate::params::Parameters;

verus! {

/// Response from `auth.getToken`
#[derive(Debug)]
pub struct TokenResponse {
    pub token: String,
}

/// Response from `auth.getSession`
#[derive(Debug)]
pub struct SessionResponse {
    pub session: Session,
}

/// A Last.fm session returned after authentication: the user's name, the
/// session key to send as `sk` with calls on the user's behalf, and whether
/// the user is a subscriber.
#[derive(Debug)]
pub struct Session {
    pub name: String,
    pub key: String,
    pub subscriber: u32,
}

impl Client {
    /// Prepares the call that gets an authentication token, whose answer
    /// is a [`TokenResponse`].
    ///
    /// This token must be approved by the user before exchanging it for a
    /// session.
    ///
    /// [Last.fm docs](https://www.last.fm/api/show/auth.getToken)
    pub fn get_token(&self) -> (result: Result<Request, Error>)
        ensures
            match result {
                Ok(request) => self@.api_secret is Some && request.http_method() == HttpMethod::Post
                    && request.params()@ == signed_parameters(
                    Parameters::empty(),
                    "auth.getToken"@,
                    self@.api_key,
                    None,
                    self@.api_secret->0,
                ),
                Err(e) => self@.api_secret is None && e == Error::MissingApiSecret,
            },
    {
        let params = ParameterSet::new();
        self.signed_post("auth.getToken", params)
    }

    /// Prepares the call that gets a session key after the user has
    /// approved the token, whose answer is a [`SessionResponse`].
    ///
    /// This is used to perform authenticated requests on behalf of a user.
    ///
    /// [Last.fm docs](https://www.last.fm/api/show/auth.getSession)
    pub fn get_session(&self, token: &str) -> (result: Result<Request, Error>)
        ensures
            match result {
                Ok(request) => self@.api_secret is Some && request.http_method() == HttpMethod::Post
                    && request.params()@ == signed_parameters(
                    Parameters::empty().insert("token"@, token@),
                    "auth.getSession"@,
                    self@.api_key,
                    None,
                    self@.api_secret->0,
                ),
                Err(e) => self@.api_secret is None && e == Error::MissingApiSecret,
            },
    {
        let mut params = ParameterSet::new();
        params.insert("token".to_owned(), token.to_owned());
        self.signed_post("auth.getSession", params)
    }
}

} // verus!
