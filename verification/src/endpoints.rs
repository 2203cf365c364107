//! The methods of the Last.fm API, by the part of the service they belong to.

pub mod user;
