use sni::api::{Route, get_health_data, handle_health, route_request, ApiResponse};
use sni::storage::{IndexedData, StorageManager};

fn block(slot: u64) -> IndexedData {
    IndexedData::Block {
        slot,
        parent_slot: 0,
        height: 0,
        timestamp: 1_700_000_000,
        blockhash: format!("hash-{}", slot),
        transactions_count: 0,
    }
}

fn transaction(signature: &str) -> IndexedData {
    IndexedData::Transaction {
        signature: signature.to_string(),
        slot: 1,
        timestamp: 1_700_000_000,
        success: true,
        transaction_data: vec![],
    }
}

#[test]
fn health_summary_reports_the_exact_counts() {
    let mut store = StorageManager::new();
    for slot in 0..5 {
        store.store(block(slot));
    }
    for k in 0..3 {
        store.store(transaction(&format!("sig-{}", k)));
    }
    let response = handle_health(&store, "0.1.0".to_string(), 12);
    assert!(response.success);
    assert!(response.error.is_none());
    let data = response.data.expect("a successful response carries data");
    assert_eq!(data.status, "healthy");
    assert_eq!(data.version, "0.1.0");
    assert_eq!(data.uptime_seconds, 12);
    assert_eq!(data.blocks_indexed, 5);
    assert_eq!(data.transactions_indexed, 3);
}

#[test]
fn health_data_of_an_empty_store_counts_zero() {
    let store = StorageManager::new();
    let data = get_health_data(&store, "0.1.0".to_string(), 0);
    assert_eq!(data.blocks_indexed, 0);
    assert_eq!(data.transactions_indexed, 0);
    assert_eq!(data.status, "healthy");
}

#[test]
fn failure_envelope_carries_the_error() {
    let response: ApiResponse<u64> = ApiResponse::failure("storage offline".to_string());
    assert!(!response.success);
    assert!(response.data.is_none());
    assert_eq!(response.error.as_deref(), Some("storage offline"));
}

#[test]
fn requests_are_routed_by_their_path() {
    assert_eq!(route_request("GET /health HTTP/1.1\r\n"), Route::Health);
    assert_eq!(route_request("GET /playground HTTP/1.1\r\n"), Route::Playground);
    assert_eq!(route_request("GET /other HTTP/1.1\r\n"), Route::NotFound);
    assert_eq!(route_request(""), Route::NotFound);
    assert_eq!(route_request("POST /health-check GET /healthy"), Route::Health);
}
