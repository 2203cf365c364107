//! User API methods for Last.fm.

use vstd::prelude::*;

use crate::client::unsigned_parameters;
use crate::client::Client;
use crate::client::HttpMethod;
use crate::client::Request;
use crate::client::Settings;
use crate::params::ParameterSet;
use crate::params::Parameters;

verus! {

/// Extension trait that provides user-related API methods.
pub trait UserEndpointExt {
    fn user(&self) -> UserHandler<'_>;
}

/// Implements `user()` on the client.
impl UserEndpointExt for Client {
    fn user(&self) -> (handler: UserHandler<'_>)
        ensures
            handler@ == self@,
    {
        UserHandler { client: self }
    }
}

impl Client {
    /// The `user.*` methods of the API, called as this client.
    pub fn user(&self) -> (handler: UserHandler<'_>)
        ensures
            handler@ == self@,
    {
        UserEndpointExt::user(self)
    }
}

/// Handles `user.*` Last.fm API methods.
#[derive(Debug)]
pub struct UserHandler<'a> {
    pub(crate) client: &'a Client,
}

impl<'a> View for UserHandler<'a> {
    type V = Settings;

    /// The settings of the client that the calls are made as.
    closed spec fn view(&self) -> Settings {
        self.client@
    }
}

impl<'a> UserHandler<'a> {
    /// Prepares the call that gets info for a Last.fm user, whose answer
    /// is a `UserGetInfoResponse`.
    ///
    /// [API Reference](https://www.last.fm/api/show/user.getInfo)
    pub fn get_info(&self, username: &str) -> (request: Request)
        ensures
            request.http_method() == HttpMethod::Get,
            request.params()@ == unsigned_parameters(
                Parameters::empty().insert("user"@, username@),
                "user.getInfo"@,
                self@.api_key,
            ),
    {
        let mut params = ParameterSet::new();
        params.insert("user".to_owned(), username.to_owned());
        self.client.unsigned_get("user.getInfo", params)
    }

    /// Prepares the call that gets a list of friends for a Last.fm user,
    /// whose answer is a `UserGetFriendsResponse`.
    ///
    /// [API Reference](https://www.last.fm/api/show/user.getFriends)
    pub fn get_friends(&self, username: &str) -> (request: Request)
        ensures
            request.http_method() == HttpMethod::Get,
            request.params()@ == unsigned_parameters(
                Parameters::empty().insert("user"@, username@),
                "user.getFriends"@,
                self@.api_key,
            ),
    {
        let mut params = ParameterSet::new();
        params.insert("user".to_owned(), username.to_owned());
        self.client.unsigned_get("user.getFriends", params)
    }
}

} // verus!
