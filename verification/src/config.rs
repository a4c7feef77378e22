//! The node's configuration surface.
//!
//! Three settings, each overridable and each with a documented default: the
//! storage root path, the node's listen address, and the blockchain RPC
//! endpoint (a placeholder the core never reads). Reading the overrides from
//! the environment is the surrounding process's work; merging them with the
//! defaults is decided here.

use vstd::prelude::*;
use vstd::string::StringExecFns;

verus! {

/// The node's configuration: storage root, listen address, and the RPC
/// placeholder.
pub struct Config {
    pub storage_path: String,
    pub node_address: String,
    pub blockchain_rpc: String,
}

impl Config {
    /// Builds the configuration from optional overrides, filling every
    /// setting left out with its default.
    pub fn new(
        storage_path: Option<String>,
        node_address: Option<String>,
        blockchain_rpc: Option<String>,
    ) -> (r: Config)
        ensures
            r.storage_path@ == (match storage_path {
                Some(s) => s@,
                None => "./data"@,
            }),
            r.node_address@ == (match node_address {
                Some(s) => s@,
                None => "127.0.0.1:4000"@,
            }),
            r.blockchain_rpc@ == (match blockchain_rpc {
                Some(s) => s@,
                None => "https://api.mainnet-beta.solana.com"@,
            }),
    {
        let storage_path = match storage_path {
            Some(s) => s,
            None => String::from_str("./data"),
        };
        let node_address = match node_address {
            Some(s) => s,
            None => String::from_str("127.0.0.1:4000"),
        };
        let blockchain_rpc = match blockchain_rpc {
            Some(s) => s,
            None => String::from_str("https://api.mainnet-beta.solana.com"),
        };
        Config { storage_path, node_address, blockchain_rpc }
    }
}

} // verus!
