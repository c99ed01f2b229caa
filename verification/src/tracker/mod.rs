//! Tracker state: per-torrent tracker lists, announce results and health, and
//! the auto-appended public tracker list.

pub mod manager;
pub mod auto_append;
