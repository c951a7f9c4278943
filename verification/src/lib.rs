//! Core logic of a content-addressed asset fetch pipeline: resolving a
//! version manifest, fetching an asset index, filtering platform-specific
//! library entries, and planning and tracking bounded-concurrency downloads
//! that deduplicate against a hash-addressed store.
//!
//! Network and filesystem effects live outside this crate; the functions
//! here decide what to fetch and where to put it, and account for every
//! outcome.

pub mod downloader;
pub mod errors;
pub mod filter;
pub mod json;
pub mod listing;
pub mod manifest;
pub mod paths;
pub mod plan;
pub mod run;
pub mod store;
pub mod strutil;
pub mod types;
