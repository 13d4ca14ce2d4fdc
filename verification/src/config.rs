//! Configuration sections and their documented defaults.
//!
//! Reading and writing a configuration file, and the serialization format,
//! live at the process edge; the library owns the shape of the configuration
//! and the fallback rule: a missing file yields the fixed defaults below.

use vstd::prelude::*;

verus! {

#[derive(Debug, Clone)]
pub struct SniConfig {
    pub network: NetworkConfig,
    pub storage: StorageConfig,
    pub api: ApiConfig,
    pub indexing: IndexingConfig,
}

#[derive(Debug, Clone)]
pub struct NetworkConfig {
    pub rpc_url: String,
    pub websocket_url: String,
    pub commitment: String,
    pub auto_discover_validators: bool,
    pub max_validator_connections: usize,
}

#[derive(Debug, Clone)]
pub struct StorageConfig {
    pub database_url: String,
    pub enable_compression: bool,
    pub batch_size: usize,
    pub flush_interval_ms: u64,
}

#[derive(Debug, Clone)]
pub struct ApiConfig {
    pub host: String,
    pub port: u16,
    pub enable_graphql: bool,
    pub enable_websockets: bool,
    pub cors_origins: Vec<String>,
}

#[derive(Debug, Clone)]
pub struct IndexingConfig {
    pub index_accounts: bool,
    pub index_transactions: bool,
    pub index_blocks: bool,
    pub track_validators: bool,
    pub track_network_health: bool,
    pub program_filters: Vec<String>,
}

pub open spec fn is_default_network_config(c: NetworkConfig) -> bool {
    &&& c.rpc_url@ == "https://api.mainnet-beta.solana.com"@
    &&& c.websocket_url@ == "wss://api.mainnet-beta.solana.com"@
    &&& c.commitment@ == "confirmed"@
    &&& c.auto_discover_validators == true
    &&& c.max_validator_connections == 5usize
}

pub open spec fn is_default_storage_config(c: StorageConfig) -> bool {
    &&& c.database_url@ == "sqlite:sni.db"@
    &&& c.enable_compression == true
    &&& c.batch_size == 1000usize
    &&& c.flush_interval_ms == 5000u64
}

pub open spec fn is_default_api_config(c: ApiConfig) -> bool {
    &&& c.host@ == "0.0.0.0"@
    &&& c.port == 8080u16
    &&& c.enable_graphql == true
    &&& c.enable_websockets == true
    &&& c.cors_origins@.len() == 1
    &&& c.cors_origins@[0]@ == "*"@
}

pub open spec fn is_default_indexing_config(c: IndexingConfig) -> bool {
    &&& c.index_accounts == true
    &&& c.index_transactions == true
    &&& c.index_blocks == true
    &&& c.track_validators == true
    &&& c.track_network_health == true
    &&& c.program_filters@.len() == 0
}

pub open spec fn is_default_config(c: SniConfig) -> bool {
    &&& is_default_network_config(c.network)
    &&& is_default_storage_config(c.storage)
    &&& is_default_api_config(c.api)
    &&& is_default_indexing_config(c.indexing)
}

impl Default for SniConfig {
    /// The documented default configuration: a local SQLite store, batch size
    /// 1000, flush interval 5000 ms, mainnet endpoints, all indexing on.
    fn default() -> (r: Self)
        ensures
            is_default_config(r),
    {
        let mut cors_origins: Vec<String> = Vec::new();
        cors_origins.push("*".to_owned());
        SniConfig {
            network: NetworkConfig {
                rpc_url: "https://api.mainnet-beta.solana.com".to_owned(),
                websocket_url: "wss://api.mainnet-beta.solana.com".to_owned(),
                commitment: "confirmed".to_owned(),
                auto_discover_validators: true,
                max_validator_connections: 5,
            },
            storage: StorageConfig {
                database_url: "sqlite:sni.db".to_owned(),
                enable_compression: true,
                batch_size: 1000,
                flush_interval_ms: 5000,
            },
            api: ApiConfig {
                host: "0.0.0.0".to_owned(),
                port: 8080,
                enable_graphql: true,
                enable_websockets: true,
                cors_origins,
            },
            indexing: IndexingConfig {
                index_accounts: true,
                index_transactions: true,
                index_blocks: true,
                track_validators: true,
                track_network_health: true,
                program_filters: Vec::new(),
            },
        }
    }
}

impl SniConfig {
    /// The fallback rule of the loader: an absent configuration file is not an
    /// error, it yields the default configuration; a present, well-formed file
    /// is taken as parsed. Malformed content is rejected at the edge before
    /// this point.
    pub fn load_or_default(parsed: Option<SniConfig>) -> (r: SniConfig)
        ensures
            match parsed {
                None => is_default_config(r),
                Some(c) => r == c,
            },
    {
        match parsed {
            None => SniConfig::default(),
            Some(c) => c,
        }
    }
}

} // verus!
