//! Network health gauges and the validator registry.
//!
//! The remote queries that feed these values are made at the process edge on
//! a fixed cadence; the library owns the gauges themselves and the registry,
//! a concurrent map whose verified contract is a finite map from validator
//! identity to its info.

use vstd::prelude::*;

verus! {

/// Point-in-time network gauges, each overwritten independently.
#[derive(Debug, Clone, Copy, PartialEq, Eq, Structural)]
pub struct NetworkStats {
    pub slot_height: u64,
    pub epoch: u64,
    pub transaction_count: u64,
    pub average_slot_time: u64,
    pub active_validators: u64,
}

/// What is tracked of one validator, keyed by `identity`.
#[derive(Debug, Clone, PartialEq, Eq)]
pub struct ValidatorInfo {
    pub vote_account: String,
    pub identity: String,
    pub commission: u8,
    pub last_vote: u64,
    pub activated_stake: u64,
    pub delinquent: bool,
}

/// The health monitor's own state: the gauges and the wall-clock time of the
/// last successful check, in milliseconds as supplied by the caller.
#[derive(Debug, Clone, Copy, PartialEq, Eq, Structural)]
pub struct NetworkMonitor {
    stats: NetworkStats,
    last_health_check_ms: Option<u64>,
}

impl NetworkMonitor {
    /// The current gauge values.
    pub closed spec fn stats_view(self) -> NetworkStats {
        self.stats
    }

    /// The recorded time of the last successful check.
    pub closed spec fn last_check_view(self) -> Option<u64> {
        self.last_health_check_ms
    }

    /// A fresh monitor: every gauge zero, no check recorded yet.
    pub fn new() -> (r: Self)
        ensures
            r.stats_view() == (NetworkStats {
                slot_height: 0u64,
                epoch: 0u64,
                transaction_count: 0u64,
                average_slot_time: 0u64,
                active_validators: 0u64,
            }),
            r.last_check_view() is None,
    {
        NetworkMonitor {
            stats: NetworkStats {
                slot_height: 0,
                epoch: 0,
                transaction_count: 0,
                average_slot_time: 0,
                active_validators: 0,
            },
            last_health_check_ms: None,
        }
    }

    /// Record one successful health sample: the polled gauges are overwritten
    /// independently, the others are untouched, and the time of the check is
    /// remembered. A failed poll never reaches this point — the polling loop
    /// logs it and goes on.
    pub fn check_health(&mut self, slot: u64, epoch: u64, transaction_count: u64, now_ms: u64)
        ensures
            final(self).stats_view() == (NetworkStats {
                slot_height: slot,
                epoch: epoch,
                transaction_count: transaction_count,
                average_slot_time: old(self).stats_view().average_slot_time,
                active_validators: old(self).stats_view().active_validators,
            }),
            final(self).last_check_view() == Some(now_ms),
    {
        self.stats.slot_height = slot;
        self.stats.epoch = epoch;
        self.stats.transaction_count = transaction_count;
        self.last_health_check_ms = Some(now_ms);
    }

    /// A snapshot of the gauges; each is read independently.
    pub fn get_stats(&self) -> (r: NetworkStats)
        ensures
            r == self.stats_view(),
    {
        self.stats
    }

    /// When the last successful health check completed, if one has.
    pub fn last_health_check_ms(&self) -> (r: Option<u64>)
        ensures
            r == self.last_check_view(),
    {
        self.last_health_check_ms
    }
}

#[verifier::external_type_specification]
#[verifier::external_body]
#[verifier::reject_recursive_types(K)]
#[verifier::reject_recursive_types(V)]
#[verifier::reject_recursive_types(S)]
pub struct ExDashMap<K, V, S>(dashmap::DashMap<K, V, S>);

/// The entries a validator map holds, as a map from identity to info.
pub uninterp spec fn validator_entries(m: dashmap::DashMap<String, ValidatorInfo>) -> Map<
    Seq<char>,
    ValidatorInfo,
>;

/// Relies on dashmap::DashMap::new only to produce a map; nothing is assumed
/// of its entries — the registry is emptied by a `dm_clear` right after.
#[verifier::external_body]
fn dm_new() -> (r: dashmap::DashMap<String, ValidatorInfo>) {
    dashmap::DashMap::new()
}

/// Relies on dashmap::DashMap::insert: the entry under `key` is created or
/// replaced; every other entry stays.
#[verifier::external_body]
fn dm_insert(m: &mut dashmap::DashMap<String, ValidatorInfo>, key: String, value: ValidatorInfo)
    ensures
        validator_entries(*final(m)) == validator_entries(*old(m)).insert(key@, value),
{
    m.insert(key, value);
}

/// Relies on dashmap::DashMap::get: returns a copy of the entry under `key`,
/// if one is stored.
#[verifier::external_body]
fn dm_get(m: &dashmap::DashMap<String, ValidatorInfo>, key: &String) -> (r: Option<ValidatorInfo>)
    ensures
        r == if validator_entries(*m).dom().contains(key@) {
            Some(validator_entries(*m)[key@])
        } else {
            None::<ValidatorInfo>
        },
{
    match m.get(key) {
        Some(entry) => Some(entry.value().clone()),
        None => None,
    }
}

/// Relies on dashmap::DashMap::len: the number of entries, which is finite.
#[verifier::external_body]
fn dm_len(m: &dashmap::DashMap<String, ValidatorInfo>) -> (r: usize)
    ensures
        r == validator_entries(*m).dom().len(),
{
    m.len()
}

/// Relies on dashmap::DashMap::clear: every key held before is removed, so
/// nothing is left.
#[verifier::external_body]
fn dm_clear(m: &mut dashmap::DashMap<String, ValidatorInfo>)
    ensures
        validator_entries(*final(m)) == validator_entries(*old(m)).remove_keys(
            validator_entries(*old(m)).dom(),
        ),
{
    m.clear();
}

/// The registry built by a refresh feed, later entries winning per identity.
pub open spec fn refreshed_entries(s: Seq<ValidatorInfo>) -> Map<Seq<char>, ValidatorInfo>
    decreases s.len(),
{
    if s.len() == 0 {
        Map::empty()
    } else {
        refreshed_entries(s.drop_last()).insert(s.last().identity@, s.last())
    }
}

/// The validator registry: a concurrent identity-to-info map, repopulated
/// wholesale on each refresh, and the time of the last refresh.
pub struct ValidatorTracker {
    validators: dashmap::DashMap<String, ValidatorInfo>,
    last_update_ms: Option<u64>,
}

impl ValidatorTracker {
    /// The registry as a map from identity to info.
    pub closed spec fn validators_view(self) -> Map<Seq<char>, ValidatorInfo> {
        validator_entries(self.validators)
    }

    /// The recorded time of the last refresh.
    pub closed spec fn last_update_view(self) -> Option<u64> {
        self.last_update_ms
    }

    /// The registry holds finitely many entries.
    pub closed spec fn wf(self) -> bool {
        validator_entries(self.validators).dom().finite()
    }

    /// A fresh, empty registry.
    pub fn new() -> (r: Self)
        ensures
            r.wf(),
            r.validators_view() == Map::<Seq<char>, ValidatorInfo>::empty(),
            r.last_update_view() is None,
    {
        let mut validators = dm_new();
        dm_clear(&mut validators);
        proof {
            assert(validator_entries(validators).dom() =~= Set::<Seq<char>>::empty());
            assert(validator_entries(validators) =~= Map::<Seq<char>, ValidatorInfo>::empty());
        }
        ValidatorTracker { validators, last_update_ms: None }
    }

    /// One refresh cycle as shipped: the registry contents are untouched and
    /// only the refresh time is recorded.
    pub fn update_validator_info(&mut self, now_ms: u64)
        ensures
            final(self).wf() == old(self).wf(),
            final(self).validators_view() == old(self).validators_view(),
            final(self).last_update_view() == Some(now_ms),
    {
        self.last_update_ms = Some(now_ms);
    }

    /// Repopulate the registry wholesale from one refresh feed: afterwards it
    /// holds exactly the fed entries, keyed by identity, later entries winning,
    /// and the refresh time is recorded.
    pub fn refresh(&mut self, entries: Vec<ValidatorInfo>, now_ms: u64)
        ensures
            final(self).wf(),
            final(self).validators_view() == refreshed_entries(entries@),
            final(self).last_update_view() == Some(now_ms),
    {
        let ghost feed = entries@;
        let mut entries = entries;
        dm_clear(&mut self.validators);
        proof {
            assert(validator_entries(self.validators).dom() =~= Set::<Seq<char>>::empty());
            assert(validator_entries(self.validators) =~= Map::<Seq<char>, ValidatorInfo>::empty());
            assert(feed.take(0) =~= Seq::<ValidatorInfo>::empty());
        }
        let mut i: usize = 0;
        let n = entries.len();
        while i < n
            invariant
                n == feed.len(),
                i <= n,
                entries@ == feed.skip(i as int),
                validator_entries(self.validators) == refreshed_entries(feed.take(i as int)),
                validator_entries(self.validators).dom().finite(),
            decreases n - i,
        {
            proof {
                assert(entries@[0] == feed[i as int]);
            }
            let ghost before = entries@;
            let info = entries.remove(0);
            let key = clone_identity(&info);
            proof {
                before.remove_ensures(0);
                assert(entries@ =~= feed.skip(i + 1));
            }
            dm_insert(&mut self.validators, key, info);
            proof {
                assert(feed.take(i + 1).drop_last() =~= feed.take(i as int));
                assert(feed.take(i + 1).last() == feed[i as int]);
                assert(validator_entries(self.validators) == refreshed_entries(feed.take(i + 1)));
            }
            i = i + 1;
        }
        proof {
            assert(feed.take(n as int) =~= feed);
        }
        self.last_update_ms = Some(now_ms);
    }

    /// The number of tracked validators.
    pub fn get_validator_count(&self) -> (r: usize)
        ensures
            r == self.validators_view().dom().len(),
    {
        dm_len(&self.validators)
    }

    /// When the registry was last refreshed, if it has been.
    pub fn last_update_ms(&self) -> (r: Option<u64>)
        ensures
            r == self.last_update_view(),
    {
        self.last_update_ms
    }

    /// Look one validator up by identity.
    pub fn get_validator(&self, identity: &String) -> (r: Option<ValidatorInfo>)
        ensures
            r == if self.validators_view().dom().contains(identity@) {
                Some(self.validators_view()[identity@])
            } else {
                None::<ValidatorInfo>
            },
    {
        dm_get(&self.validators, identity)
    }
}

fn clone_identity(info: &ValidatorInfo) -> (r: String)
    ensures
        r == info.identity,
{
    info.identity.clone()
}

/// How far the chain's newest block time trails the local clock.
pub fn block_lag(current_time: i64, block_time: i64) -> (r: i64)
    requires
        i64::MIN <= current_time - block_time <= i64::MAX,
    ensures
        r == current_time - block_time,
{
    current_time - block_time
}

} // verus!
