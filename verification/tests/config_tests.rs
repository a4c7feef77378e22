//! Tests of the configuration surface and the bookkeeping record.

use cas_node::config::Config;
use cas_node::meta::FileMetadata;

#[test]
fn config_defaults_apply() {
    let config = Config::new(None, None, None);
    assert_eq!(config.storage_path, "./data");
    assert_eq!(config.node_address, "127.0.0.1:4000");
    assert_eq!(config.blockchain_rpc, "https://api.mainnet-beta.solana.com");
}

#[test]
fn config_overrides_win() {
    let config = Config::new(
        Some("/var/cas".to_string()),
        Some("0.0.0.0:9999".to_string()),
        None,
    );
    assert_eq!(config.storage_path, "/var/cas");
    assert_eq!(config.node_address, "0.0.0.0:9999");
    assert_eq!(config.blockchain_rpc, "https://api.mainnet-beta.solana.com");
}

#[test]
fn file_metadata_holds_its_fields() {
    let row = FileMetadata {
        id: 1,
        filename: "b94d27b9.dat".to_string(),
        file_type: "dat".to_string(),
        file_size: 11,
        uploaded_at: 50,
    };
    assert_eq!(row.id, 1);
    assert_eq!(row.file_size, 11);
    assert_eq!(row.filename, "b94d27b9.dat");
    assert_eq!(row.file_type, "dat");
    assert_eq!(row.uploaded_at, 50);
}
