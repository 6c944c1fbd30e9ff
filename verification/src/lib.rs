//! Feed-to-Fediverse republishing engine.
//!
//! The library tracks a set of RSS feeds, decides on every check which items
//! are new since the previous check (a per-feed watermark of publish
//! timestamps), normalizes the new items into publish-ready content, and
//! plans the posting round, including the bounded wait for an asynchronous
//! media upload.  Network and file access stay with the caller; the library
//! holds the decisions, each with a proved contract.

pub mod bot;
pub mod cli;
pub mod config;
pub mod content;
pub mod errors;
pub mod feed;
pub mod preview;
pub mod text;
pub mod upload;
