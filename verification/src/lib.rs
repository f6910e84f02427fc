//! Activity archive: a desktop activity journal.
//!
//! The library holds the archive's data model and the decisions that turn
//! collector output into canonical events, sessions, summaries, privacy
//! verdicts and sync-queue updates. Storage, timers and operating-system
//! access are left to the caller.

pub mod text;
pub mod json;
pub mod names;
pub mod clock;
pub mod paths;
pub mod schema;
pub mod pattern;
pub mod privacy;
pub mod sessionizer;
pub mod normalizer;
pub mod tally;
pub mod summarizer;
pub mod notion_sync;
pub mod channel_metrics;
pub mod parse;
pub mod collector;
pub mod collectors;
pub mod runtime;
pub mod tools;
pub mod service;
pub mod skills_api;
