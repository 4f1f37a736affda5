use stellar_fee_tracker::dispatch::complete_event;
use stellar_fee_tracker::dispatch::AlertPayload;
use stellar_fee_tracker::horizon::{FeeCharged, HorizonFeeStats};
use stellar_fee_tracker::ratio::Ratio;
use stellar_fee_tracker::repository::{AlertEvent, FeeRepository};
use stellar_fee_tracker::types::FeeDataPoint;

const NOW_MS: i64 = 1_700_000_000_000;

fn make_point(fee_amount: u64, seconds_ago: i64) -> FeeDataPoint {
    FeeDataPoint {
        fee_amount,
        timestamp_ms: NOW_MS - seconds_ago * 1_000,
        transaction_hash: format!("hash_{}", fee_amount),
        ledger_sequence: 1,
    }
}

fn make_event(severity: &str, delivered: bool) -> AlertEvent {
    AlertEvent {
        id: None,
        config_id: None,
        severity: severity.to_string(),
        peak_fee: 8000,
        baseline_fee: Ratio::new(261, 2),
        spike_ratio: Ratio::new(613, 10),
        webhook_url: "https://hooks.example.com/test".to_string(),
        delivered,
        triggered_at_ms: NOW_MS,
    }
}

#[test]
fn insert_and_fetch_roundtrip() {
    let mut repo = FeeRepository::new();
    let points = vec![
        make_point(100, 300),
        make_point(200, 200),
        make_point(300, 100),
    ];

    repo.insert_fee_points(&points).unwrap();

    let since = NOW_MS - 400_000;
    let fetched = repo.fetch_since(since);

    assert_eq!(fetched.len(), 3);
    assert_eq!(fetched[0].fee_amount, 100);
    assert_eq!(fetched[1].fee_amount, 200);
    assert_eq!(fetched[2].fee_amount, 300);
}

#[test]
fn fetch_since_filters_old_points() {
    let mut repo = FeeRepository::new();
    let points = vec![
        make_point(100, 7200),
        make_point(200, 1800),
        make_point(300, 600),
    ];

    repo.insert_fee_points(&points).unwrap();

    let since = NOW_MS - 3_600_000;
    let fetched = repo.fetch_since(since);

    assert_eq!(fetched.len(), 2);
    assert_eq!(fetched[0].fee_amount, 200);
    assert_eq!(fetched[1].fee_amount, 300);
}

#[test]
fn insert_empty_slice_is_ok() {
    let mut repo = FeeRepository::new();
    let result = repo.insert_fee_points(&Vec::new());
    assert!(result.is_ok());
}

#[test]
fn prune_older_than_removes_old_rows() {
    let mut repo = FeeRepository::new();
    let points = vec![
        make_point(100, 7200),
        make_point(200, 1800),
        make_point(300, 600),
    ];

    repo.insert_fee_points(&points).unwrap();

    let cutoff = NOW_MS - 3_600_000;
    let deleted = repo.prune_older_than(cutoff);

    assert_eq!(deleted, 1);

    let remaining = repo.fetch_since(NOW_MS - 86_400_000);
    assert_eq!(remaining.len(), 2);
    for p in &remaining {
        assert!(p.timestamp_ms >= cutoff);
    }
}

#[test]
fn prune_older_than_returns_zero_when_nothing_to_prune() {
    let mut repo = FeeRepository::new();
    let points = vec![make_point(100, 60)];

    repo.insert_fee_points(&points).unwrap();

    let cutoff = NOW_MS - 3_600_000;
    let deleted = repo.prune_older_than(cutoff);

    assert_eq!(deleted, 0);
}

#[test]
fn insert_snapshot_succeeds() {
    let mut repo = FeeRepository::new();
    let stats = HorizonFeeStats {
        last_ledger_base_fee: "100".into(),
        fee_charged: FeeCharged {
            min: "100".into(),
            max: "5000".into(),
            avg: "213".into(),
            p10: "100".into(),
            p25: "100".into(),
            p50: "150".into(),
            p75: "300".into(),
            p90: "500".into(),
            p95: "800".into(),
        },
    };

    let result = repo.insert_snapshot(&stats, NOW_MS);
    assert!(result.is_ok());
}

#[test]
fn fetch_since_returns_empty_when_no_data() {
    let repo = FeeRepository::new();
    let fetched = repo.fetch_since(NOW_MS - 86_400_000);
    assert!(fetched.is_empty());
}

#[test]
fn insert_and_list_alert_config() {
    let mut repo = FeeRepository::new();
    let id = repo.insert_alert_config("https://hooks.example.com/webhook", "Major", NOW_MS);
    assert!(id > 0);
    let configs = repo.list_alert_configs();
    assert_eq!(configs.len(), 1);
    assert_eq!(configs[0].webhook_url, "https://hooks.example.com/webhook");
    assert_eq!(configs[0].threshold, "Major");
    assert!(configs[0].enabled);
}

#[test]
fn update_alert_config_changes_threshold_and_enabled() {
    let mut repo = FeeRepository::new();
    let id = repo.insert_alert_config("https://hooks.example.com/a", "Minor", NOW_MS);
    let updated = repo.update_alert_config(id, "Critical", false);
    assert!(updated);
    let configs = repo.list_alert_configs();
    assert_eq!(configs[0].threshold, "Critical");
    assert!(!configs[0].enabled);
}

#[test]
fn update_alert_config_returns_false_for_missing_id() {
    let mut repo = FeeRepository::new();
    let updated = repo.update_alert_config(9999, "Major", true);
    assert!(!updated);
}

#[test]
fn delete_alert_config_soft_deletes() {
    let mut repo = FeeRepository::new();
    let id = repo.insert_alert_config("https://hooks.example.com/b", "Major", NOW_MS);
    let deleted = repo.delete_alert_config(id);
    assert!(deleted);
    let configs = repo.list_alert_configs();
    assert_eq!(configs.len(), 1);
    assert!(!configs[0].enabled);
}

#[test]
fn delete_alert_config_returns_false_for_missing_id() {
    let mut repo = FeeRepository::new();
    let deleted = repo.delete_alert_config(9999);
    assert!(!deleted);
}

#[test]
fn full_crud_cycle() {
    let mut repo = FeeRepository::new();
    let id = repo.insert_alert_config("https://hooks.example.com/cycle", "Minor", NOW_MS);
    let configs = repo.list_alert_configs();
    assert_eq!(configs.len(), 1);
    repo.update_alert_config(id, "Major", true);
    let configs = repo.list_alert_configs();
    assert_eq!(configs[0].threshold, "Major");
    repo.delete_alert_config(id);
    let configs = repo.list_alert_configs();
    assert!(!configs[0].enabled);
}

#[test]
fn log_and_query_five_events() {
    let mut repo = FeeRepository::new();
    for _ in 0..5 {
        repo.log_alert_event(&make_event("Major", true)).unwrap();
    }
    let events = repo.query_alert_history(20, None, None);
    assert_eq!(events.len(), 5);
}

#[test]
fn filter_by_severity() {
    let mut repo = FeeRepository::new();
    repo.log_alert_event(&make_event("Minor", true)).unwrap();
    repo.log_alert_event(&make_event("Major", true)).unwrap();
    repo.log_alert_event(&make_event("Critical", false)).unwrap();

    let major = repo.query_alert_history(20, Some(&"Major".to_string()), None);
    assert_eq!(major.len(), 1);
    assert_eq!(major[0].severity, "Major");

    let critical = repo.query_alert_history(20, Some(&"Critical".to_string()), None);
    assert_eq!(critical.len(), 1);
    assert_eq!(critical[0].severity, "Critical");
}

#[test]
fn filter_by_delivered() {
    let mut repo = FeeRepository::new();
    repo.log_alert_event(&make_event("Major", true)).unwrap();
    repo.log_alert_event(&make_event("Major", false)).unwrap();
    repo.log_alert_event(&make_event("Major", true)).unwrap();

    let delivered = repo.query_alert_history(20, None, Some(true));
    assert_eq!(delivered.len(), 2);

    let failed = repo.query_alert_history(20, None, Some(false));
    assert_eq!(failed.len(), 1);
}

#[test]
fn limit_clamped_to_100() {
    let mut repo = FeeRepository::new();
    for _ in 0..5 {
        repo.log_alert_event(&make_event("Major", true)).unwrap();
    }
    // Requesting 999 is clamped to 100; only 5 rows exist anyway.
    let events = repo.query_alert_history(999, None, None);
    assert_eq!(events.len(), 5);
    // A small limit caps the returned page.
    let events = repo.query_alert_history(2, None, None);
    assert_eq!(events.len(), 2);
}

#[test]
fn count_alert_events_total() {
    let mut repo = FeeRepository::new();
    for _ in 0..5 {
        repo.log_alert_event(&make_event("Major", true)).unwrap();
    }
    let total = repo.count_alert_events(None, None);
    assert_eq!(total, 5);
}

#[test]
fn count_alert_events_filtered() {
    let mut repo = FeeRepository::new();
    repo.log_alert_event(&make_event("Minor", true)).unwrap();
    repo.log_alert_event(&make_event("Major", true)).unwrap();
    repo.log_alert_event(&make_event("Critical", false)).unwrap();

    let major_count = repo.count_alert_events(Some(&"Major".to_string()), None);
    assert_eq!(major_count, 1);

    let delivered_count = repo.count_alert_events(None, Some(true));
    assert_eq!(delivered_count, 2);

    let critical_failed = repo.count_alert_events(Some(&"Critical".to_string()), Some(false));
    assert_eq!(critical_failed, 1);
}

#[test]
fn logged_event_has_assigned_id() {
    let mut repo = FeeRepository::new();
    repo.log_alert_event(&make_event("Major", true)).unwrap();
    let events = repo.query_alert_history(1, None, None);
    assert!(events[0].id.is_some());
    assert!(events[0].id.unwrap() > 0);
}

#[test]
fn dispatch_logs_event_to_database() {
    let mut repo = FeeRepository::new();

    let payload = AlertPayload {
        config_id: None,
        severity: "Major".to_string(),
        peak_fee: 8000,
        baseline_fee: Ratio::new(261, 2),
        spike_ratio: Ratio::new(613, 10),
        webhook_url: "https://hooks.example.com/test".to_string(),
    };

    // A delivery attempt, failed here, still produces exactly one row.
    let event = complete_event(&payload, false, NOW_MS);
    repo.log_alert_event(&event).unwrap();

    let events = repo.query_alert_history(10, None, None);
    assert_eq!(events.len(), 1);
    assert_eq!(events[0].severity, "Major");
    assert_eq!(events[0].peak_fee, 8000);
    assert!(!events[0].delivered);
}

#[test]
fn query_orders_by_trigger_time_descending() {
    let mut repo = FeeRepository::new();
    let mut early = make_event("Major", true);
    early.triggered_at_ms = NOW_MS - 1_000;
    let mut late = make_event("Major", true);
    late.triggered_at_ms = NOW_MS + 1_000;
    repo.log_alert_event(&early).unwrap();
    repo.log_alert_event(&late).unwrap();
    let events = repo.query_alert_history(10, None, None);
    assert_eq!(events[0].triggered_at_ms, NOW_MS + 1_000);
    assert_eq!(events[1].triggered_at_ms, NOW_MS - 1_000);
}
