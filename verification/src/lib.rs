//! A peer-to-peer content-addressed storage node.
//!
//! Payloads are keyed by the SHA-256 digest of their bytes. A local store
//! persists payloads under that key; a discovery layer tracks peers seen on
//! the local network segment; a gossip layer announces stored identifiers and
//! resolves cache misses by querying peers, verifying every fetched payload
//! against the identifier it was requested under.

pub mod addr;
pub mod config;
pub mod gossip;
pub mod hex;
pub mod identity;
pub mod meta;
pub mod node;
pub mod peer;
pub mod store;

