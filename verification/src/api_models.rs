//! Request bodies of the channel endpoints. The HTTP layer itself runs
//! outside this crate and hands these values in.

use vstd::prelude::*;

verus! {

/// Query of the channel listing: optional category and geo filters.
#[derive(Debug)]
pub struct ChannelQuery {
    pub category: Option<String>,
    pub geo: Option<String>,
}

/// Body of a similar-channels request: the seed channel names.
#[derive(Debug)]
pub struct SimilarChannelRequest {
    pub channels_names: Vec<String>,
}

/// Body of a manual category update.
#[derive(Debug)]
pub struct UpdateChannelCategoryRequest {
    pub category: String,
}

/// Body of a manual geo update.
#[derive(Debug)]
pub struct UpdateChannelGeoRequest {
    pub geo: String,
}

} // verus!
