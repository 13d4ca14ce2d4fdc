use sni::network::{NetworkMonitor, ValidatorInfo, ValidatorTracker, block_lag};

fn validator(identity: &str, stake: u64) -> ValidatorInfo {
    ValidatorInfo {
        vote_account: format!("vote-{}", identity),
        identity: identity.to_string(),
        commission: 5,
        last_vote: 100,
        activated_stake: stake,
        delinquent: false,
    }
}

#[test]
fn health_samples_overwrite_the_polled_gauges() {
    let mut monitor = NetworkMonitor::new();
    monitor.check_health(900, 4, 77, 1_000);
    monitor.check_health(905, 4, 80, 31_000);
    let stats = monitor.get_stats();
    assert_eq!(stats.slot_height, 905);
    assert_eq!(stats.epoch, 4);
    assert_eq!(stats.transaction_count, 80);
    assert_eq!(stats.average_slot_time, 0);
    assert_eq!(stats.active_validators, 0);
}

#[test]
fn fresh_monitor_gauges_read_zero() {
    let monitor = NetworkMonitor::new();
    let stats = monitor.get_stats();
    assert_eq!(stats.slot_height, 0);
    assert_eq!(stats.epoch, 0);
    assert_eq!(stats.transaction_count, 0);
    assert_eq!(monitor.last_health_check_ms(), None);
}

#[test]
fn check_times_are_recorded() {
    let mut monitor = NetworkMonitor::new();
    monitor.check_health(1, 1, 1, 77_000);
    assert_eq!(monitor.last_health_check_ms(), Some(77_000));
    let mut tracker = ValidatorTracker::new();
    assert_eq!(tracker.last_update_ms(), None);
    tracker.update_validator_info(78_000);
    assert_eq!(tracker.last_update_ms(), Some(78_000));
    tracker.refresh(vec![validator("a", 1)], 79_000);
    assert_eq!(tracker.last_update_ms(), Some(79_000));
}

#[test]
fn refresh_repopulates_the_registry_wholesale() {
    let mut tracker = ValidatorTracker::new();
    assert_eq!(tracker.get_validator_count(), 0);
    tracker.refresh(vec![validator("a", 10), validator("b", 20)], 1_000);
    assert_eq!(tracker.get_validator_count(), 2);
    tracker.refresh(vec![validator("c", 30)], 31_000);
    assert_eq!(tracker.get_validator_count(), 1);
    assert!(tracker.get_validator(&"a".to_string()).is_none());
    let c = tracker.get_validator(&"c".to_string()).expect("c was just fed");
    assert_eq!(c.activated_stake, 30);
    assert_eq!(c.vote_account, "vote-c");
}

#[test]
fn later_feed_entries_win_per_identity() {
    let mut tracker = ValidatorTracker::new();
    tracker.refresh(vec![validator("a", 10), validator("a", 99)], 500);
    assert_eq!(tracker.get_validator_count(), 1);
    let a = tracker.get_validator(&"a".to_string()).expect("a was fed");
    assert_eq!(a.activated_stake, 99);
}

#[test]
fn placeholder_update_only_records_the_time() {
    let mut tracker = ValidatorTracker::new();
    tracker.refresh(vec![validator("a", 10)], 500);
    tracker.update_validator_info(900);
    assert_eq!(tracker.get_validator_count(), 1);
    assert!(tracker.get_validator(&"a".to_string()).is_some());
}

#[test]
fn block_lag_is_the_exact_difference() {
    assert_eq!(block_lag(1_700_000_060, 1_700_000_000), 60);
    assert_eq!(block_lag(1_700_000_000, 1_700_000_060), -60);
}
