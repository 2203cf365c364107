//! The values that the Last.fm API answers with.

pub mod common;
pub mod user;
