//! Models for user-related Last.fm API responses.

use vstd::prelude::*;

use crate::models::common::Image;
use crate::models::common::PaginationMeta;

verus! {

/// Response wrapper from the API: `{ "user": { ... } }`
#[derive(Debug)]
pub struct UserGetInfoResponse {
    pub user: UserInfo,
}

/// Main user info object returned by `user.getInfo`
#[derive(Debug)]
pub struct UserInfo {
    pub name: String,
    pub realname: Option<String>,
    pub url: String,
    pub country: Option<String>,
    pub age: Option<u32>,
    pub gender: Option<String>,
    pub playcount: u64,
    pub playlists: Option<u32>,
    pub registered: Registered,
    pub image: Vec<Image>,
    /// The kind of account (`type` in the service's answer).
    pub user_type: Option<String>,
    pub subscriber: Option<u8>,
}

/// Info about when the user registered their account.
#[derive(Debug)]
pub struct Registered {
    /// The time of registration as a number (`#text` in the service's
    /// answer).
    pub timestamp: i64,
    /// The time of registration as the service writes it in `unixtime`.
    pub unixtime: i64,
}

/// Response wrapper from the API: `{ "friends": { ... } }`
#[derive(Debug)]
pub struct UserGetFriendsResponse {
    pub friends: UserFriends,
}

/// A list of friends and pagination info.
#[derive(Debug)]
pub struct UserFriends {
    /// The pagination of the list (`@attr` in the service's answer).
    pub attr: PaginationMeta,
    pub user: Vec<Friend>,
}

/// A single friend object.
#[derive(Debug)]
pub struct Friend {
    pub name: String,
    pub url: String,
    pub country: Option<String>,
    pub realname: Option<String>,
    pub playlists: u32,
    pub playcount: u64,
    pub image: Vec<Image>,
    pub registered: FriendRegistered,
    pub subscriber: u8,
    /// The kind of account (`type` in the service's answer).
    pub user_type: String,
    pub bootstrap: u8,
}

/// Info about when a friend registered their account.
///
/// The friend list writes the time of registration as a date in words,
/// where [`Registered`] of [`UserInfo`] holds a number. The two shapes are
/// kept apart.
#[derive(Debug)]
pub struct FriendRegistered {
    /// The date of registration in words (`#text` in the service's
    /// answer).
    pub date: String,
    pub unixtime: i64,
}

/// Response wrapper for loved tracks: `{ "lovedtracks": { ... } }`
#[derive(Debug)]
pub struct UserGetLovedTracksResponse {
    pub lovedtracks: LovedTracks,
}

/// A list of loved tracks and pagination info.
#[derive(Debug)]
pub struct LovedTracks {
    /// The pagination of the list (`@attr` in the service's answer).
    pub attr: PaginationMeta,
    pub track: Vec<LovedTrack>,
}

/// A single loved track object.
#[derive(Debug)]
pub struct LovedTrack {
    pub artist: LovedTrackArtist,
    pub name: String,
    pub url: String,
    pub date: LovedTrackDate,
    pub image: Vec<Image>,
    pub streamable: Streamable,
    pub mbid: Option<String>,
}

/// Artist info for a loved track.
#[derive(Debug)]
pub struct LovedTrackArtist {
    pub name: String,
    pub mbid: Option<String>,
    pub url: String,
}

/// Date info for when a track was loved.
#[derive(Debug)]
pub struct LovedTrackDate {
    pub uts: String,
    /// The date in words (`#text` in the service's answer).
    pub text: String,
}

/// Streamability info for a loved track.
#[derive(Debug)]
pub struct Streamable {
    pub fulltrack: u8,
    /// Whether the track can be streamed (`#text` in the service's
    /// answer).
    pub is_streamable: u8,
}

} // verus!
