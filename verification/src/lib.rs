//! A feed-reader core: the RSS/Atom feed model, poll scheduling, diff/merge
//! of fetched snapshots against the stored collection, OPML import/export,
//! command processing over the collection, and planning of a chat platform's
//! channel topology derived from the subscribed feeds.
//!
//! Everything here is decision logic over plain values; fetching, persistence
//! and the platform calls happen outside, driven by the actions these
//! functions return.

pub mod clock;
pub mod config;
pub mod discord;
pub mod feed;
pub mod opml;
pub mod update;
