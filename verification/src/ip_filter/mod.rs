//! IP blocklists: parsing PeerGuardian / eMule / CIDR ranges and a merged,
//! binary-searchable filter.

pub mod blocklist;
pub mod filter;
