//! Active-torrent limits and queue slot allocation.

pub mod manager;
