//! Models of the ad-draft submission flow. The flow itself is a stateless
//! form-POST proxy and runs outside this crate; these types carry its
//! request values and name the form parameters the external API expects.

use vstd::prelude::*;

verus! {

/// Body of an ad message generation request.
#[derive(Debug)]
pub struct GenerateAdMessageRequest {
    pub description: String,
    pub channels_names: Vec<String>,
}

/// What an ad targets.
#[derive(Debug, PartialEq, Eq, Structural)]
pub enum AdTargetType {
    Channel,
}

impl AdTargetType {
    /// The form value the ads API expects for this target type.
    pub fn as_str(&self) -> (r: &'static str)
        ensures
            *self is Channel ==> r@ == "channel"@,
    {
        match self {
            AdTargetType::Channel => "channel",
        }
    }
}

/// How an ad is submitted: created outright or saved as a draft.
#[derive(Debug, PartialEq, Eq, Structural)]
pub enum AdMethodType {
    Save,
    Draft,
}

impl AdMethodType {
    /// The form value the ads API expects for this method.
    pub fn as_str(&self) -> (r: &'static str)
        ensures
            *self is Save ==> r@ == "createAd"@,
            *self is Draft ==> r@ == "saveAdDraft"@,
    {
        match self {
            AdMethodType::Save => "createAd",
            AdMethodType::Draft => "saveAdDraft",
        }
    }
}

} // verus!
