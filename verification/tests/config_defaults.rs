use sni::config::SniConfig;

#[test]
fn absent_file_falls_back_to_the_documented_defaults() {
    let config = SniConfig::load_or_default(None);
    assert_eq!(config.network.rpc_url, "https://api.mainnet-beta.solana.com");
    assert_eq!(config.network.websocket_url, "wss://api.mainnet-beta.solana.com");
    assert_eq!(config.network.commitment, "confirmed");
    assert!(config.network.auto_discover_validators);
    assert_eq!(config.network.max_validator_connections, 5);
    assert_eq!(config.storage.database_url, "sqlite:sni.db");
    assert!(config.storage.enable_compression);
    assert_eq!(config.storage.batch_size, 1000);
    assert_eq!(config.storage.flush_interval_ms, 5000);
    assert_eq!(config.api.host, "0.0.0.0");
    assert_eq!(config.api.port, 8080);
    assert!(config.api.enable_graphql);
    assert!(config.api.enable_websockets);
    assert_eq!(config.api.cors_origins, vec!["*".to_string()]);
    assert!(config.indexing.index_accounts);
    assert!(config.indexing.index_transactions);
    assert!(config.indexing.index_blocks);
    assert!(config.indexing.track_validators);
    assert!(config.indexing.track_network_health);
    assert!(config.indexing.program_filters.is_empty());
}

#[test]
fn present_content_is_taken_as_parsed() {
    let mut parsed = SniConfig::default();
    parsed.api.port = 9999;
    parsed.storage.batch_size = 42;
    let config = SniConfig::load_or_default(Some(parsed));
    assert_eq!(config.api.port, 9999);
    assert_eq!(config.storage.batch_size, 42);
}
