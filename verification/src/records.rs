//! The central data model: a channel record and the in-memory database
//! snapshot that holds all known records.

use vstd::prelude::*;

verus! {

/// One channel of the directory.
///
/// `id` is the stable numeric identifier, `username` the unique secondary
/// key. `category` and `geo`, when present, are labels drawn from configured
/// candidate sets; `description` is free text from the channel's own profile.
#[derive(Debug)]
pub struct ChannelData {
    pub id: i64,
    pub title: Option<String>,
    pub username: String,
    pub photo_element: Option<String>,
    pub category: Option<String>,
    pub description: Option<String>,
    pub subscribers: Option<i64>,
    pub geo: Option<String>,
}

impl ChannelData {
    /// A record is complete when nothing remains to be enriched:
    /// category, description and geo are all present.
    pub open spec fn is_complete(self) -> bool {
        &&& self.category is Some
        &&& self.description is Some
        &&& self.geo is Some
    }

    /// Executable check mirroring `is_complete`.
    pub fn complete(&self) -> (r: bool)
        ensures
            r == self.is_complete(),
    {
        self.category.is_some() && self.description.is_some() && self.geo.is_some()
    }
}

impl Clone for ChannelData {
    fn clone(&self) -> (r: Self)
        ensures
            r == *self,
    {
        ChannelData {
            id: self.id,
            title: clone_opt_string(&self.title),
            username: self.username.clone(),
            photo_element: clone_opt_string(&self.photo_element),
            category: clone_opt_string(&self.category),
            description: clone_opt_string(&self.description),
            subscribers: self.subscribers,
            geo: clone_opt_string(&self.geo),
        }
    }
}

/// Clones an optional string, preserving the value exactly.
pub fn clone_opt_string(o: &Option<String>) -> (r: Option<String>)
    ensures
        r == *o,
{
    match o {
        Some(s) => Some(s.clone()),
        None => None,
    }
}


/// The view of an optional owned string.
pub open spec fn opt_text(o: Option<String>) -> Option<Seq<char>> {
    match o {
        Some(s) => Some(s@),
        None => None,
    }
}

/// The full store snapshot: every known channel record, in insertion order.
#[derive(Debug)]
pub struct Database {
    pub channels: Vec<ChannelData>,
}

impl Default for Database {
    /// An empty database.
    fn default() -> (r: Self)
        ensures
            r.channels@ == Seq::<ChannelData>::empty(),
    {
        Database { channels: Vec::new() }
    }
}

} // verus!
