use stellar_fee_tracker::store::FeeHistoryStore;
use stellar_fee_tracker::types::FeeDataPoint;

const NOW_MS: i64 = 1_700_000_000_000;

fn make_point(fee_amount: u64, minutes_ago: i64) -> FeeDataPoint {
    FeeDataPoint {
        fee_amount,
        timestamp_ms: NOW_MS - minutes_ago * 60_000,
        transaction_hash: format!("hash_{}", fee_amount),
        ledger_sequence: fee_amount,
    }
}

#[test]
fn push_adds_point_to_store() {
    let mut store = FeeHistoryStore::new(10);
    store.push(make_point(100, 1));
    assert_eq!(store.len(), 1);
}

#[test]
fn push_evicts_oldest_when_at_capacity() {
    let mut store = FeeHistoryStore::new(3);
    store.push(make_point(100, 3));
    store.push(make_point(200, 2));
    store.push(make_point(300, 1));
    store.push(make_point(400, 0));

    assert_eq!(store.len(), 3);
    let all = store.get_last_n(10);
    assert_eq!(all[0].fee_amount, 200);
    assert_eq!(all[2].fee_amount, 400);
}

#[test]
fn push_exactly_at_capacity_does_not_evict() {
    let mut store = FeeHistoryStore::new(3);
    store.push(make_point(1, 2));
    store.push(make_point(2, 1));
    store.push(make_point(3, 0));
    assert_eq!(store.len(), 3);
}

#[test]
fn new_store_is_empty() {
    let store = FeeHistoryStore::new(10);
    assert!(store.is_empty());
    assert_eq!(store.len(), 0);
}

#[test]
fn clear_empties_the_store() {
    let mut store = FeeHistoryStore::new(10);
    store.push(make_point(100, 1));
    store.push(make_point(200, 0));
    store.clear();
    assert!(store.is_empty());
    assert_eq!(store.len(), 0);
}

#[test]
fn get_since_returns_points_on_or_after_cutoff() {
    let mut store = FeeHistoryStore::new(10);
    store.push(make_point(100, 60));
    store.push(make_point(200, 30));
    store.push(make_point(300, 5));

    let cutoff = NOW_MS - 31 * 60_000;
    let result = store.get_since(cutoff);

    assert_eq!(result.len(), 2);
    assert_eq!(result[0].fee_amount, 200);
    assert_eq!(result[1].fee_amount, 300);
}

#[test]
fn get_since_returns_empty_when_all_points_are_before_cutoff() {
    let mut store = FeeHistoryStore::new(10);
    store.push(make_point(100, 120));

    let cutoff = NOW_MS - 60 * 60_000;
    assert!(store.get_since(cutoff).is_empty());
}

#[test]
fn get_since_returns_all_when_all_points_are_after_cutoff() {
    let mut store = FeeHistoryStore::new(10);
    store.push(make_point(100, 5));
    store.push(make_point(200, 2));

    let cutoff = NOW_MS - 60 * 60_000;
    assert_eq!(store.get_since(cutoff).len(), 2);
}

#[test]
fn get_last_n_returns_n_most_recent() {
    let mut store = FeeHistoryStore::new(10);
    for i in 1..=5u64 {
        store.push(make_point(i * 100, (6 - i) as i64));
    }

    let result = store.get_last_n(3);
    assert_eq!(result.len(), 3);
    assert_eq!(result[0].fee_amount, 300);
    assert_eq!(result[1].fee_amount, 400);
    assert_eq!(result[2].fee_amount, 500);
}

#[test]
fn get_last_n_returns_all_when_n_exceeds_store_size() {
    let mut store = FeeHistoryStore::new(10);
    store.push(make_point(100, 2));
    store.push(make_point(200, 1));

    let result = store.get_last_n(100);
    assert_eq!(result.len(), 2);
}

#[test]
fn get_last_n_zero_returns_empty() {
    let mut store = FeeHistoryStore::new(10);
    store.push(make_point(100, 1));
    assert!(store.get_last_n(0).is_empty());
}

#[test]
fn get_last_n_on_empty_store_returns_empty() {
    let store = FeeHistoryStore::new(10);
    assert!(store.get_last_n(5).is_empty());
}

#[test]
fn push_batch_keeps_most_recent_suffix() {
    let mut store = FeeHistoryStore::new(3);
    let batch: Vec<FeeDataPoint> = (1..=5u64).map(|i| make_point(i * 10, 0)).collect();
    store.push_batch(&batch);
    assert_eq!(store.len(), 3);
    let kept = store.get_last_n(10);
    assert_eq!(kept[0].fee_amount, 30);
    assert_eq!(kept[1].fee_amount, 40);
    assert_eq!(kept[2].fee_amount, 50);
}
