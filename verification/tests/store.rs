use sni::storage::{IndexedData, StorageManager};

fn block(slot: u64, transactions_count: usize) -> IndexedData {
    IndexedData::Block {
        slot,
        parent_slot: 0,
        height: 0,
        timestamp: 1_700_000_000,
        blockhash: format!("hash-{}", slot),
        transactions_count,
    }
}

fn transaction(signature: &str, slot: u64) -> IndexedData {
    IndexedData::Transaction {
        signature: signature.to_string(),
        slot,
        timestamp: 1_700_000_000,
        success: true,
        transaction_data: vec![1, 2, 3],
    }
}

#[test]
fn idempotent_upsert_replaces_wholesale() {
    let mut store = StorageManager::new();
    store.store(block(100, 3));
    assert_eq!(store.get_block_count(), 1);
    store.store(block(100, 5));
    assert_eq!(store.get_block_count(), 1);
    let row = store.get_block(100).expect("slot 100 must be present");
    assert_eq!(row.slot, 100);
    assert_eq!(row.transactions_count, 5);
}

#[test]
fn final_state_is_order_independent() {
    let mut store = StorageManager::new();
    store.store(block(1, 0));
    store.store(block(2, 0));
    store.store(block(1, 0));
    assert_eq!(store.get_latest_slot(), Some(2));
    assert_eq!(store.get_block_count(), 2);
}

#[test]
fn latest_slot_of_empty_store_is_absent() {
    let store = StorageManager::new();
    assert_eq!(store.get_latest_slot(), None);
    assert_eq!(store.get_block_count(), 0);
    assert_eq!(store.get_transaction_count(), 0);
}

#[test]
fn distinct_signatures_count_exactly() {
    let mut store = StorageManager::new();
    let n: u64 = 50;
    for k in 0..n {
        store.store(transaction(&format!("sig-{}", k), k));
    }
    assert_eq!(store.get_transaction_count(), n);
    // re-storing an existing signature must not change the count
    store.store(transaction("sig-7", 7));
    assert_eq!(store.get_transaction_count(), n);
}

#[test]
fn tables_are_independent() {
    let mut store = StorageManager::new();
    store.store(block(9, 1));
    store.store(transaction("sig-a", 9));
    store.store(IndexedData::Account {
        pubkey: "pk-1".to_string(),
        owner: "owner-1".to_string(),
        lamports: 10,
        slot: 9,
        executable: false,
        rent_epoch: 2,
        data_hash: "dh".to_string(),
    });
    store.store(IndexedData::Slot {
        slot: 9,
        parent: Some(8),
        status: "confirmed".to_string(),
        timestamp: 1_700_000_000,
    });
    assert_eq!(store.get_block_count(), 1);
    assert_eq!(store.get_transaction_count(), 1);
    assert_eq!(store.get_latest_slot(), Some(9));
}

#[test]
fn absent_block_is_not_found() {
    let mut store = StorageManager::new();
    store.store(block(4, 0));
    assert!(store.get_block(5).is_none());
}
