//! The pipeline orchestrator and its throughput statistics.
//!
//! The orchestrator is a state machine Idle -> Running -> Stopped with a
//! cooperative cancellation flag. The runtime that schedules the three loops
//! (ingestion, network monitor, stats reporter) lives at the process edge; the
//! decisions those loops take — normalize and store an event, observe
//! cancellation, combine the loops' outcomes fail-fast — are verified here.

use vstd::prelude::*;

use crate::SniError;
use crate::config::SniConfig;
use crate::network::{NetworkMonitor, NetworkStats, ValidatorInfo, ValidatorTracker};
use crate::storage::{BlockRow, IndexedData, StorageManager, TransactionRow, stored};

verus! {

/// A raw ingestion event: the fields the engine supplies for one slot.
#[derive(Debug, Clone)]
pub struct TideData {
    pub slot: u64,
    pub block_hash: String,
    pub timestamp: i64,
}

/// Monotonic throughput counters and a last-latency gauge. Counters wrap at
/// the machine-word bound, as a fetch-and-add on a machine word does.
#[derive(Debug, Clone, Copy, PartialEq, Eq, Structural)]
pub struct IndexerStats {
    pub blocks_processed: u64,
    pub transactions_processed: u64,
    pub accounts_updated: u64,
    pub processing_latency_ms: u64,
}

/// One increment of a wrapping machine-word counter.
pub open spec fn wrap_inc(n: u64) -> u64 {
    if n == u64::MAX {
        0
    } else {
        (n + 1) as u64
    }
}

/// The value of a fresh counter after `m` increments.
pub open spec fn counter_after(m: nat) -> u64
    decreases m,
{
    if m == 0 {
        0
    } else {
        wrap_inc(counter_after((m - 1) as nat))
    }
}

/// Law: increments are never lost — a fresh counter incremented exactly `m`
/// times reads exactly `m`, for every count the word can hold.
pub proof fn lemma_counter_exact(m: nat)
    requires
        m <= u64::MAX,
    ensures
        counter_after(m) == m,
    decreases m,
{
    if m > 0 {
        lemma_counter_exact((m - 1) as nat);
    }
}

/// All counters and the latency gauge at zero.
pub open spec fn zero_stats() -> IndexerStats {
    IndexerStats {
        blocks_processed: 0u64,
        transactions_processed: 0u64,
        accounts_updated: 0u64,
        processing_latency_ms: 0u64,
    }
}

impl IndexerStats {
    /// A fresh aggregate: every counter and the gauge at zero.
    pub fn new() -> (r: Self)
        ensures
            r == zero_stats(),
    {
        IndexerStats {
            blocks_processed: 0,
            transactions_processed: 0,
            accounts_updated: 0,
            processing_latency_ms: 0,
        }
    }

    /// Count one processed block.
    pub fn record_block(&mut self)
        ensures
            final(self).blocks_processed == wrap_inc(old(self).blocks_processed),
            final(self).transactions_processed == old(self).transactions_processed,
            final(self).accounts_updated == old(self).accounts_updated,
            final(self).processing_latency_ms == old(self).processing_latency_ms,
    {
        if self.blocks_processed == u64::MAX {
            self.blocks_processed = 0;
        } else {
            self.blocks_processed = self.blocks_processed + 1;
        }
    }

    /// Count one processed transaction.
    pub fn record_transaction(&mut self)
        ensures
            final(self).transactions_processed == wrap_inc(old(self).transactions_processed),
            final(self).blocks_processed == old(self).blocks_processed,
            final(self).accounts_updated == old(self).accounts_updated,
            final(self).processing_latency_ms == old(self).processing_latency_ms,
    {
        if self.transactions_processed == u64::MAX {
            self.transactions_processed = 0;
        } else {
            self.transactions_processed = self.transactions_processed + 1;
        }
    }

    /// Count one updated account.
    pub fn record_account(&mut self)
        ensures
            final(self).accounts_updated == wrap_inc(old(self).accounts_updated),
            final(self).blocks_processed == old(self).blocks_processed,
            final(self).transactions_processed == old(self).transactions_processed,
            final(self).processing_latency_ms == old(self).processing_latency_ms,
    {
        if self.accounts_updated == u64::MAX {
            self.accounts_updated = 0;
        } else {
            self.accounts_updated = self.accounts_updated + 1;
        }
    }

    /// Overwrite the last-latency gauge; counters are untouched.
    pub fn record_latency(&mut self, latency_ms: u64)
        ensures
            final(self).processing_latency_ms == latency_ms,
            final(self).blocks_processed == old(self).blocks_processed,
            final(self).transactions_processed == old(self).transactions_processed,
            final(self).accounts_updated == old(self).accounts_updated,
    {
        self.processing_latency_ms = latency_ms;
    }
}

/// The orchestrator's lifecycle: `Stopped` is terminal.
#[derive(Debug, Clone, Copy, PartialEq, Eq, Structural)]
pub enum PipelineState {
    Idle,
    Running,
    Stopped,
}

/// What an ingestion step asks of its loop.
#[derive(Debug, Clone, Copy, PartialEq, Eq, Structural)]
pub enum LoopStep {
    Continue,
    Stop,
}

/// Map a raw event to canonical records: one block record per slot event.
/// Fields the event does not carry (parent slot, height, transaction count)
/// are stored as literal zero.
pub fn normalize(data: TideData) -> (out: Vec<IndexedData>)
    ensures
        out@.len() == 1,
        out@[0] == (IndexedData::Block {
            slot: data.slot,
            parent_slot: 0u64,
            height: 0u64,
            timestamp: data.timestamp,
            blockhash: data.block_hash,
            transactions_count: 0usize,
        }),
{
    let mut out: Vec<IndexedData> = Vec::new();
    out.push(
        IndexedData::Block {
            slot: data.slot,
            parent_slot: 0,
            height: 0,
            timestamp: data.timestamp,
            blockhash: data.block_hash,
            transactions_count: 0,
        },
    );
    out
}

/// The normalized block row for a raw event.
pub open spec fn normalized_block(data: TideData) -> BlockRow {
    BlockRow {
        slot: data.slot,
        parent_slot: 0u64,
        height: 0u64,
        timestamp: data.timestamp,
        blockhash: data.block_hash,
        transactions_count: 0usize,
    }
}

/// The indexing pipeline: configuration, lifecycle state, the cancellation
/// flag, the store model, the health gauges, the validator registry and the
/// throughput counters.
pub struct SolanaIndexer {
    config: SniConfig,
    state: PipelineState,
    running: bool,
    storage: StorageManager,
    network_monitor: NetworkMonitor,
    validator_tracker: ValidatorTracker,
    stats: IndexerStats,
}

impl SolanaIndexer {
    pub closed spec fn state(self) -> PipelineState {
        self.state
    }

    /// The cancellation flag: true while the loops should keep iterating.
    pub closed spec fn running(self) -> bool {
        self.running
    }

    pub closed spec fn storage(self) -> StorageManager {
        self.storage
    }

    pub closed spec fn network_monitor(self) -> NetworkMonitor {
        self.network_monitor
    }

    pub closed spec fn validator_tracker(self) -> ValidatorTracker {
        self.validator_tracker
    }

    pub closed spec fn stats(self) -> IndexerStats {
        self.stats
    }

    pub closed spec fn config(self) -> SniConfig {
        self.config
    }

    pub closed spec fn wf(self) -> bool {
        &&& self.storage.wf()
        &&& self.validator_tracker.wf()
    }

    /// A fresh pipeline: idle, not cancelled, empty store, zero counters.
    pub fn new(config: SniConfig) -> (r: Self)
        ensures
            r.wf(),
            r.state() is Idle,
            !r.running(),
            r.config() == config,
            r.storage().blocks() == Map::<u64, BlockRow>::empty(),
            r.storage().transactions() == Map::<Seq<char>, TransactionRow>::empty(),
            r.stats() == zero_stats(),
            r.validator_tracker().validators_view() == Map::<Seq<char>, ValidatorInfo>::empty(),
    {
        SolanaIndexer {
            config,
            state: PipelineState::Idle,
            running: false,
            storage: StorageManager::new(),
            network_monitor: NetworkMonitor::new(),
            validator_tracker: ValidatorTracker::new(),
            stats: IndexerStats::new(),
        }
    }

    /// Move Idle -> Running, exactly once: a second call is refused with
    /// `AlreadyStarted` and changes nothing. On success the cancellation flag
    /// is raised and the loops may run.
    pub fn start_transition(&mut self) -> (r: Result<(), SniError>)
        ensures
            old(self).state() is Idle ==> {
                &&& r is Ok
                &&& final(self).state() is Running
                &&& final(self).running()
            },
            !(old(self).state() is Idle) ==> {
                &&& r == Result::<(), SniError>::Err(SniError::AlreadyStarted)
                &&& *final(self) == *old(self)
            },
            final(self).wf() == old(self).wf(),
            final(self).storage() == old(self).storage(),
            final(self).network_monitor() == old(self).network_monitor(),
            final(self).validator_tracker() == old(self).validator_tracker(),
            final(self).stats() == old(self).stats(),
            final(self).config() == old(self).config(),
    {
        match self.state {
            PipelineState::Idle => {
                self.state = PipelineState::Running;
                self.running = true;
                Ok(())
            },
            _ => Err(SniError::AlreadyStarted),
        }
    }

    /// Store one record in its table and count it in the matching counter.
    fn apply_record(&mut self, record: IndexedData)
        requires
            old(self).wf(),
        ensures
            final(self).wf(),
            stored(old(self).storage(), final(self).storage(), record),
            final(self).stats().blocks_processed == (if record is Block {
                wrap_inc(old(self).stats().blocks_processed)
            } else {
                old(self).stats().blocks_processed
            }),
            final(self).stats().transactions_processed == (if record is Transaction {
                wrap_inc(old(self).stats().transactions_processed)
            } else {
                old(self).stats().transactions_processed
            }),
            final(self).stats().accounts_updated == (if record is Account {
                wrap_inc(old(self).stats().accounts_updated)
            } else {
                old(self).stats().accounts_updated
            }),
            final(self).stats().processing_latency_ms == old(self).stats().processing_latency_ms,
            final(self).state() == old(self).state(),
            final(self).running() == old(self).running(),
            final(self).network_monitor() == old(self).network_monitor(),
            final(self).validator_tracker() == old(self).validator_tracker(),
            final(self).config() == old(self).config(),
    {
        let is_block = matches!(record, IndexedData::Block { .. });
        let is_transaction = matches!(record, IndexedData::Transaction { .. });
        let is_account = matches!(record, IndexedData::Account { .. });
        self.storage.store(record);
        if is_block {
            self.stats.record_block();
        } else if is_transaction {
            self.stats.record_transaction();
        } else if is_account {
            self.stats.record_account();
        }
    }

    /// Normalize one raw event and upsert every record it yields, counting
    /// each: the block table gains the normalized row under the event's slot,
    /// and nothing else changes.
    pub fn process_tide_data(&mut self, data: TideData)
        requires
            old(self).wf(),
        ensures
            final(self).wf(),
            final(self).storage().blocks() == old(self).storage().blocks().insert(
                data.slot,
                normalized_block(data),
            ),
            final(self).storage().transactions() == old(self).storage().transactions(),
            final(self).storage().accounts() == old(self).storage().accounts(),
            final(self).storage().slot_statuses() == old(self).storage().slot_statuses(),
            final(self).stats().blocks_processed == wrap_inc(old(self).stats().blocks_processed),
            final(self).stats().transactions_processed == old(self).stats().transactions_processed,
            final(self).stats().accounts_updated == old(self).stats().accounts_updated,
            final(self).stats().processing_latency_ms == old(self).stats().processing_latency_ms,
            final(self).state() == old(self).state(),
            final(self).running() == old(self).running(),
            final(self).network_monitor() == old(self).network_monitor(),
            final(self).validator_tracker() == old(self).validator_tracker(),
            final(self).config() == old(self).config(),
    {
        let mut records = normalize(data);
        let ghost pre = *self;
        // one record today; the loop is the normalizer's designed extension point
        while records.len() > 0
            invariant
                pre == *old(self),
                old(self).wf(),
                records@.len() <= 1,
                records@.len() == 1 ==> *self == pre && records@[0] == (IndexedData::Block {
                    slot: data.slot,
                    parent_slot: 0u64,
                    height: 0u64,
                    timestamp: data.timestamp,
                    blockhash: data.block_hash,
                    transactions_count: 0usize,
                }),
                records@.len() == 0 ==> {
                    &&& self.wf()
                    &&& self.storage().blocks() == pre.storage().blocks().insert(
                        data.slot,
                        normalized_block(data),
                    )
                    &&& self.storage().transactions() == pre.storage().transactions()
                    &&& self.storage().accounts() == pre.storage().accounts()
                    &&& self.storage().slot_statuses() == pre.storage().slot_statuses()
                    &&& self.stats().blocks_processed == wrap_inc(pre.stats().blocks_processed)
                    &&& self.stats().transactions_processed == pre.stats().transactions_processed
                    &&& self.stats().accounts_updated == pre.stats().accounts_updated
                    &&& self.stats().processing_latency_ms == pre.stats().processing_latency_ms
                    &&& self.state() == pre.state()
                    &&& self.running() == pre.running()
                    &&& self.network_monitor() == pre.network_monitor()
                    &&& self.validator_tracker() == pre.validator_tracker()
                    &&& self.config() == pre.config()
                },
            decreases records@.len(),
        {
            let record = records.remove(0);
            self.apply_record(record);
        }
    }

    /// One iteration of the ingestion loop. Once cancellation has been
    /// observed the step writes nothing and asks the loop to stop; otherwise a
    /// present event is processed and the loop continues.
    pub fn ingest_step(&mut self, event: Option<TideData>) -> (r: LoopStep)
        requires
            old(self).wf(),
        ensures
            final(self).wf(),
            !old(self).running() ==> r is Stop && *final(self) == *old(self),
            old(self).running() ==> r is Continue && match event {
                None => *final(self) == *old(self),
                Some(data) => {
                    &&& final(self).storage().blocks() == old(self).storage().blocks().insert(
                        data.slot,
                        normalized_block(data),
                    )
                    &&& final(self).storage().transactions() == old(self).storage().transactions()
                    &&& final(self).storage().accounts() == old(self).storage().accounts()
                    &&& final(self).storage().slot_statuses() == old(self).storage().slot_statuses()
                    &&& final(self).stats().blocks_processed == wrap_inc(
                        old(self).stats().blocks_processed,
                    )
                    &&& final(self).running() == old(self).running()
                    &&& final(self).state() == old(self).state()
                },
            },
    {
        if !self.running {
            return LoopStep::Stop;
        }
        match event {
            None => LoopStep::Continue,
            Some(data) => {
                self.process_tide_data(data);
                LoopStep::Continue
            },
        }
    }

    /// Lower the cancellation flag and close the lifecycle: the loops exit at
    /// their next iteration boundary, and the state machine reaches its
    /// terminal state. Nothing indexed is touched.
    pub fn stop(&mut self)
        ensures
            !final(self).running(),
            final(self).state() is Stopped,
            final(self).wf() == old(self).wf(),
            final(self).storage() == old(self).storage(),
            final(self).network_monitor() == old(self).network_monitor(),
            final(self).validator_tracker() == old(self).validator_tracker(),
            final(self).stats() == old(self).stats(),
            final(self).config() == old(self).config(),
    {
        self.running = false;
        self.state = PipelineState::Stopped;
    }

    /// Borrow the store model, for on-demand aggregate queries.
    pub fn storage_ref(&self) -> (r: &StorageManager)
        ensures
            *r == self.storage(),
    {
        &self.storage
    }

    /// Borrow the network monitor, for on-demand gauge reads.
    pub fn network_monitor_ref(&self) -> (r: &NetworkMonitor)
        ensures
            *r == self.network_monitor(),
    {
        &self.network_monitor
    }

    /// Borrow the validator registry, for on-demand lookups.
    pub fn validator_tracker_ref(&self) -> (r: &ValidatorTracker)
        ensures
            *r == self.validator_tracker(),
    {
        &self.validator_tracker
    }

    /// Record one health sample into the gauges, as the monitor loop does
    /// after a successful poll.
    pub fn record_health_sample(
        &mut self,
        slot: u64,
        epoch: u64,
        transaction_count: u64,
        now_ms: u64,
    )
        requires
            old(self).wf(),
        ensures
            final(self).wf(),
            final(self).network_monitor().stats_view() == (NetworkStats {
                slot_height: slot,
                epoch: epoch,
                transaction_count: transaction_count,
                average_slot_time: old(self).network_monitor().stats_view().average_slot_time,
                active_validators: old(self).network_monitor().stats_view().active_validators,
            }),
            final(self).network_monitor().last_check_view() == Some(now_ms),
            final(self).storage() == old(self).storage(),
            final(self).validator_tracker() == old(self).validator_tracker(),
            final(self).stats() == old(self).stats(),
            final(self).state() == old(self).state(),
            final(self).running() == old(self).running(),
    {
        self.network_monitor.check_health(slot, epoch, transaction_count, now_ms);
    }

    /// Observe the cancellation flag, as every loop does at its iteration
    /// boundary.
    pub fn is_running(&self) -> (r: bool)
        ensures
            r == self.running(),
    {
        self.running
    }

    /// One validator refresh cycle as shipped: only the refresh time is
    /// recorded; the registry contents stay.
    pub fn record_validator_refresh(&mut self, now_ms: u64)
        requires
            old(self).wf(),
        ensures
            final(self).wf(),
            final(self).validator_tracker().validators_view() == old(
                self,
            ).validator_tracker().validators_view(),
            final(self).validator_tracker().last_update_view() == Some(now_ms),
            final(self).storage() == old(self).storage(),
            final(self).network_monitor() == old(self).network_monitor(),
            final(self).stats() == old(self).stats(),
            final(self).state() == old(self).state(),
            final(self).running() == old(self).running(),
    {
        self.validator_tracker.update_validator_info(now_ms);
    }

    /// Read the throughput counters, as the stats reporter does.
    pub fn stats_snapshot(&self) -> (r: IndexerStats)
        ensures
            r == self.stats(),
    {
        self.stats
    }
}

/// The fail-fast join rule: the pipeline's outcome is the first failure among
/// the three loops, the ingestion loop foremost; it is `Ok` exactly when every
/// loop finished cleanly.
pub fn join_outcome(
    engine: Result<(), SniError>,
    monitor: Result<(), SniError>,
    reporter: Result<(), SniError>,
) -> (r: Result<(), SniError>)
    ensures
        engine is Err ==> r == engine,
        engine is Ok && monitor is Err ==> r == monitor,
        engine is Ok && monitor is Ok ==> r == reporter,
        r is Ok <==> engine is Ok && monitor is Ok && reporter is Ok,
{
    match engine {
        Err(e) => Err(e),
        Ok(()) => match monitor {
            Err(e) => Err(e),
            Ok(()) => reporter,
        },
    }
}

} // verus!
