use sni::SniError;
use sni::config::SniConfig;
use sni::indexer::{IndexerStats, LoopStep, SolanaIndexer, TideData, join_outcome, normalize};
use sni::storage::IndexedData;

fn event(slot: u64) -> TideData {
    TideData { slot, block_hash: format!("hash-{}", slot), timestamp: 1_700_000_000 }
}

#[test]
fn start_succeeds_once_and_only_once() {
    let mut indexer = SolanaIndexer::new(SniConfig::default());
    assert!(indexer.start_transition().is_ok());
    assert_eq!(indexer.start_transition(), Err(SniError::AlreadyStarted));
}

#[test]
fn start_after_stop_is_refused() {
    let mut indexer = SolanaIndexer::new(SniConfig::default());
    indexer.start_transition().unwrap();
    indexer.stop();
    assert_eq!(indexer.start_transition(), Err(SniError::AlreadyStarted));
}

#[test]
fn counter_reads_exactly_the_number_of_increments() {
    let mut stats = IndexerStats::new();
    let m: u64 = 10_000;
    for _ in 0..m {
        stats.record_block();
    }
    assert_eq!(stats.blocks_processed, m);
    assert_eq!(stats.transactions_processed, 0);
    assert_eq!(stats.accounts_updated, 0);
}

#[test]
fn latency_gauge_overwrites_and_leaves_counters() {
    let mut stats = IndexerStats::new();
    stats.record_block();
    stats.record_latency(17);
    stats.record_latency(4);
    assert_eq!(stats.processing_latency_ms, 4);
    assert_eq!(stats.blocks_processed, 1);
}

#[test]
fn normalize_emits_one_zero_filled_block() {
    let out = normalize(event(42));
    assert_eq!(out.len(), 1);
    match &out[0] {
        IndexedData::Block {
            slot,
            parent_slot,
            height,
            timestamp,
            blockhash,
            transactions_count,
        } => {
            assert_eq!(*slot, 42);
            assert_eq!(*parent_slot, 0);
            assert_eq!(*height, 0);
            assert_eq!(*timestamp, 1_700_000_000);
            assert_eq!(blockhash, "hash-42");
            assert_eq!(*transactions_count, 0);
        }
        other => panic!("expected a block record, got {:?}", other),
    }
}

#[test]
fn processing_events_fills_the_block_table() {
    let mut indexer = SolanaIndexer::new(SniConfig::default());
    indexer.start_transition().unwrap();
    assert_eq!(indexer.ingest_step(Some(event(7))), LoopStep::Continue);
    assert_eq!(indexer.ingest_step(Some(event(9))), LoopStep::Continue);
    assert_eq!(indexer.ingest_step(Some(event(7))), LoopStep::Continue);
    assert_eq!(indexer.storage_ref().get_block_count(), 2);
    assert_eq!(indexer.storage_ref().get_latest_slot(), Some(9));
    assert_eq!(indexer.stats_snapshot().blocks_processed, 3);
}

#[test]
fn no_write_happens_after_cancellation_is_observed() {
    let mut indexer = SolanaIndexer::new(SniConfig::default());
    indexer.start_transition().unwrap();
    indexer.ingest_step(Some(event(1)));
    indexer.stop();
    assert_eq!(indexer.ingest_step(Some(event(2))), LoopStep::Stop);
    assert_eq!(indexer.storage_ref().get_block_count(), 1);
    assert_eq!(indexer.storage_ref().get_latest_slot(), Some(1));
    assert_eq!(indexer.stats_snapshot().blocks_processed, 1);
}

#[test]
fn ingestion_error_is_the_pipeline_outcome() {
    let failure = SniError::Engine("engine crashed".to_string());
    let outcome = join_outcome(Err(failure.clone()), Ok(()), Ok(()));
    assert_eq!(outcome, Err(failure));
}

#[test]
fn monitor_error_surfaces_when_engine_is_clean() {
    let failure = SniError::Storage("query failed".to_string());
    let outcome = join_outcome(Ok(()), Err(failure.clone()), Ok(()));
    assert_eq!(outcome, Err(failure));
}

#[test]
fn clean_loops_yield_a_clean_outcome() {
    assert_eq!(join_outcome(Ok(()), Ok(()), Ok(())), Ok(()));
}

#[test]
fn reporter_error_surfaces_when_the_rest_are_clean() {
    let failure = SniError::Config("bad section".to_string());
    let outcome = join_outcome(Ok(()), Ok(()), Err(failure.clone()));
    assert_eq!(outcome, Err(failure));
}

#[test]
fn engine_error_wins_over_later_failures() {
    let engine = SniError::Engine("engine crashed".to_string());
    let monitor = SniError::Network("poll failed".to_string());
    let outcome = join_outcome(Err(engine.clone()), Err(monitor), Ok(()));
    assert_eq!(outcome, Err(engine));
}
