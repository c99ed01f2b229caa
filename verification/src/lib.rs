//! Tsubasa: the decision core of a torrent client with cloud (debrid) offload.
//!
//! Every module here is plain computation: state transitions, queue slot
//! allocation, IP blocklists, retry policy, tracker health, seeding limits,
//! magnet parsing and scraper helpers. Network, disk and UI glue live outside.

pub mod state_machine;
pub mod engine;
pub mod error;
pub mod text;
pub mod ip_filter;
pub mod settings;
pub mod retry;
pub mod queue;
pub mod tracker;
pub mod logging;
pub mod seeding;
pub mod magnet;
pub mod cloud;
pub mod orchestrator;
pub mod search;
pub mod network;
pub mod storage;
pub mod commands;
