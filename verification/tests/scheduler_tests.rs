use stellar_fee_tracker::engine::{FeeInsightsEngine, InsightsConfig};
use stellar_fee_tracker::errors::ProviderError;
use stellar_fee_tracker::metrics::AppMetrics;
use stellar_fee_tracker::repository::FeeRepository;
use stellar_fee_tracker::scheduler::{
    backoff_delay_ms, fetch_with_retry_plan, run_tick, FetchOutcome,
};
use stellar_fee_tracker::store::{FeeHistoryStore, DEFAULT_CAPACITY};
use stellar_fee_tracker::types::FeeDataPoint;

const NOW_MS: i64 = 1_700_000_000_000;
const WEEK_MS: i64 = 7 * 86_400_000;

fn make_point(fee_amount: u64) -> FeeDataPoint {
    FeeDataPoint {
        fee_amount,
        timestamp_ms: NOW_MS - 60_000,
        transaction_hash: format!("hash_{}", fee_amount),
        ledger_sequence: 1,
    }
}

struct Fixture {
    store: FeeHistoryStore,
    engine: FeeInsightsEngine,
    repo: FeeRepository,
    metrics: AppMetrics,
}

fn fixture() -> Fixture {
    Fixture {
        store: FeeHistoryStore::new(DEFAULT_CAPACITY),
        engine: FeeInsightsEngine::new(InsightsConfig::default(), NOW_MS),
        repo: FeeRepository::new(),
        metrics: AppMetrics::new(),
    }
}

fn tick(f: &mut Fixture, outcome: Option<Vec<FeeDataPoint>>) -> Vec<stellar_fee_tracker::types::FeeSpike> {
    run_tick(
        &mut f.store,
        &mut f.engine,
        &mut f.repo,
        &mut f.metrics,
        outcome,
        NOW_MS,
        WEEK_MS,
    )
}

#[test]
fn poll_once_pushes_points_into_store() {
    let mut f = fixture();
    let points = vec![make_point(100), make_point(200), make_point(300)];

    tick(&mut f, Some(points));

    assert_eq!(f.store.len(), 3);
}

#[test]
fn poll_once_runs_insights_engine() {
    let mut f = fixture();
    let points = vec![make_point(100), make_point(150), make_point(200)];

    tick(&mut f, Some(points));

    assert!(f.engine.get_last_update().is_some());
}

#[test]
fn poll_once_on_provider_error_does_not_push_to_store() {
    let mut f = fixture();

    tick(&mut f, None);

    assert!(f.store.is_empty());
    assert_eq!(f.metrics.poll_errors_total, 1);
}

#[test]
fn two_poll_cycles_accumulate_data_in_store() {
    let mut f = fixture();
    let points = vec![make_point(100), make_point(200)];

    tick(&mut f, Some(points.clone()));
    tick(&mut f, Some(points));

    assert_eq!(f.store.len(), 4);
}

#[test]
fn poll_once_with_empty_provider_response_leaves_store_unchanged() {
    let mut f = fixture();

    tick(&mut f, Some(Vec::new()));

    assert!(f.store.is_empty());
    assert_eq!(f.metrics.polls_total, 1);
    assert_eq!(f.metrics.poll_errors_total, 0);
}

#[test]
fn successful_tick_advances_counters_and_persists() {
    // One tick with three valid samples: the store grows by three, the
    // engine's last update advances, the repository receives the
    // insert, the poll counter increments once, the error counter not
    // at all.
    let mut f = fixture();
    let points = vec![make_point(100), make_point(150), make_point(200)];

    tick(&mut f, Some(points));

    assert_eq!(f.store.len(), 3);
    assert_eq!(f.engine.get_last_update(), Some(NOW_MS));
    assert_eq!(f.repo.fetch_since(NOW_MS - WEEK_MS).len(), 3);
    assert_eq!(f.metrics.polls_total, 1);
    assert_eq!(f.metrics.poll_errors_total, 0);
}

#[test]
fn exhausted_tick_advances_nothing_but_the_error_counter() {
    // Upstream unavailable for the whole retry budget: no state
    // advances, one poll error is counted, nothing is persisted.
    let mut f = fixture();
    let outcomes = vec![
        FetchOutcome::Transient,
        FetchOutcome::Transient,
        FetchOutcome::Transient,
    ];
    let plan = fetch_with_retry_plan(&outcomes, 3);
    assert_eq!(plan.calls, 3);
    assert!(plan.result.is_none());

    tick(&mut f, plan.result);

    assert!(f.store.is_empty());
    assert!(f.engine.get_last_update().is_none());
    assert!(f.repo.fetch_since(NOW_MS - WEEK_MS).is_empty());
    assert_eq!(f.metrics.polls_total, 1);
    assert_eq!(f.metrics.poll_errors_total, 1);
}

#[test]
fn fetch_with_retry_returns_points_on_success() {
    let outcomes = vec![
        FetchOutcome::Success(vec![make_point(100), make_point(200)]),
        FetchOutcome::Transient,
        FetchOutcome::Transient,
    ];
    let plan = fetch_with_retry_plan(&outcomes, 3);

    assert!(plan.result.is_some());
    assert_eq!(plan.result.unwrap().len(), 2);
}

#[test]
fn fetch_with_retry_retries_on_network_error_and_succeeds() {
    let outcomes = vec![
        FetchOutcome::Transient,
        FetchOutcome::Transient,
        FetchOutcome::Transient,
    ];
    let plan = fetch_with_retry_plan(&outcomes, 3);

    assert!(plan.result.is_none());
    assert_eq!(plan.calls, 3);
}

#[test]
fn fetch_with_retry_does_not_retry_on_parse_error() {
    let outcomes = vec![
        FetchOutcome::Permanent,
        FetchOutcome::Transient,
        FetchOutcome::Transient,
    ];
    let plan = fetch_with_retry_plan(&outcomes, 3);

    assert!(plan.result.is_none());
    assert_eq!(plan.calls, 1);
}

#[test]
fn fetch_with_retry_returns_none_when_all_attempts_exhausted() {
    let outcomes = vec![
        FetchOutcome::Transient,
        FetchOutcome::Transient,
        FetchOutcome::Transient,
    ];
    let plan = fetch_with_retry_plan(&outcomes, 3);

    assert!(plan.result.is_none());
    assert_eq!(plan.calls, 3);
}

#[test]
fn fetch_with_retry_succeeds_on_first_attempt_makes_one_call() {
    let outcomes = vec![
        FetchOutcome::Success(vec![make_point(100)]),
        FetchOutcome::Transient,
        FetchOutcome::Transient,
    ];
    let plan = fetch_with_retry_plan(&outcomes, 3);

    assert!(plan.result.is_some());
    assert_eq!(plan.calls, 1);
}

#[test]
fn transient_then_success_uses_two_calls() {
    let outcomes = vec![
        FetchOutcome::Transient,
        FetchOutcome::Success(vec![make_point(100)]),
        FetchOutcome::Transient,
    ];
    let plan = fetch_with_retry_plan(&outcomes, 3);

    assert!(plan.result.is_some());
    assert_eq!(plan.calls, 2);
}

#[test]
fn format_errors_are_permanent_and_network_errors_are_not() {
    assert!(ProviderError::FormatError {
        message: "bad json".to_string()
    }
    .is_permanent());
    assert!(!ProviderError::NetworkError {
        message: "timeout".to_string()
    }
    .is_permanent());
    assert!(!ProviderError::ServiceUnavailable.is_permanent());
    assert!(!ProviderError::RateLimitExceeded.is_permanent());
}

#[test]
fn backoff_delay_is_capped_at_thirty_seconds() {
    for attempt in 0..10 {
        let d = backoff_delay_ms(1_000, attempt);
        assert!(d <= 30_000);
    }
    // With a zero base delay the jitter is below one, so the delay is
    // exactly the saturated exponential capped at thirty seconds.
    assert_eq!(backoff_delay_ms(0, 5), 0);
}

#[test]
fn counters_increment_correctly() {
    let mut metrics = AppMetrics::new();
    metrics.inc_polls();
    metrics.inc_polls();
    metrics.inc_polls();
    metrics.inc_poll_errors();
    assert_eq!(metrics.polls_total, 3);
    assert_eq!(metrics.poll_errors_total, 1);
}

#[test]
fn gauge_set_and_get() {
    let mut metrics = AppMetrics::new();
    metrics.set_fee_points_stored(42);
    assert_eq!(metrics.fee_points_stored, 42);
}
