//! Soniq
//!
//! The core of a client for the Last.fm web API: canonical parameter sets,
//! request signing, request assembly and response classification.
//!
//! The crate performs no I/O itself. A call runs in three steps:
//!
//! 1. A [`Client`] prepares the call as a [`client::Request`]: it adds
//!    `method`, `api_key` and `format=json` to the caller's parameters and,
//!    on the signed path, the session key and the signature `api_sig`
//!    ([`sig::create_sig`]). Without a secret the signed path ends here with
//!    [`Error::MissingApiSecret`].
//! 2. A transport sends the request to the client's base URL, as a GET with
//!    the parameters in the query string or as a POST with the parameters
//!    as a form body, and brings back the status and the body.
//! 3. [`Client::conclude`] classifies what came back: the decoded value, the
//!    service's own error, an HTTP error with status and body, a decoding
//!    error with the body, or the failure of the transport.
//!
//! The functions of the crate are verified against their contracts. The
//! contracts speak of parameter sets as mappings from names to values
//! ([`params::Parameters`]) and of signatures as the function
//! [`sig::signature`] of such a mapping and a secret. What the crate takes
//! from elsewhere without proof is named where it is used: the MD5 digest,
//! the reading of URLs, the system clock and the calendar.

pub mod auth;
pub mod client;
pub mod endpoints;
pub mod error;
pub mod models;
pub mod order;
pub mod params;
pub mod sig;
pub mod text;
pub mod utils;

pub use crate::client::Client;
pub use crate::error::Error;
