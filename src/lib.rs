//! Relay and packager for iOS application archives: the download task
//! engine's decisions, the license-injection planner and archive rewriter,
//! the Wisp tunnel codec and session rules, and the URL/path policies they
//! rely on.

pub mod config;
pub mod error;
pub mod text;
pub mod security;
pub mod wisp;
pub mod task;
pub mod download;
pub mod store;
pub mod injection;
pub mod plist;
pub mod archive;
pub mod manifest;
pub mod storage;
pub mod kv_index;
pub mod bag;
