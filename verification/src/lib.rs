//! Verified core of a channel-directory enrichment service.
//!
//! The library models channel records, an in-memory channel store, and the
//! enrichment pipeline that reconciles freshly discovered channel candidates
//! against the store, decides which fields are missing, validates classifier
//! answers, and merges results back — tolerating partial failures.
//!
//! Network transport, file persistence and HTTP routing live outside this
//! crate; they exchange plain values with the functions defined here.

pub mod ads;
pub mod api_models;
pub mod classify;
pub mod config;
pub mod dispatch;
pub mod enrich;
pub mod ids;
pub mod pipeline;
pub mod reconcile;
pub mod records;
pub mod store;
pub mod subscribers;
pub mod text;

pub use records::ChannelData;
pub use records::Database;
