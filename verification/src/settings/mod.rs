//! Grouped settings.

pub mod schema;
pub mod legacy;
pub mod store;
