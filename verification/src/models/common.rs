//! Contains common structs used across the Last.fm API models.

use vstd::prelude::*;

verus! {

/// Image with Last.fm `size` key
#[derive(Debug)]
pub struct Image {
    /// Where the image is found (`#text` in the service's answer).
    pub url: String,
    /// Can be: small, medium, large, extralarge.
    pub size: Option<String>,
}

/// Meta information for paginated responses.
#[derive(Debug)]
pub struct PaginationMeta {
    pub user: String,
    pub total_pages: u32,
    pub page: u32,
    pub per_page: u32,
    pub total: u32,
}

} // verus!
