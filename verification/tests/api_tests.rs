use stellar_fee_tracker::api::{
    compute_etag, if_none_match_matches, parse_window, percentile_nearest_rank, compute_summary,
    current_fee_response_of, fee_trend_response,
};
use stellar_fee_tracker::engine::{FeeInsightsEngine, InsightsConfig};
use stellar_fee_tracker::horizon::{FeeCharged, HorizonFeeStats};
use stellar_fee_tracker::types::{trend_indicator_to_string, FeeDataPoint, TrendIndicator};

const NOW_MS: i64 = 1_700_000_000_000;

fn point(fee_amount: u64, minutes_ago: i64, seq: u64) -> FeeDataPoint {
    FeeDataPoint {
        fee_amount,
        timestamp_ms: NOW_MS - minutes_ago * 60_000,
        transaction_hash: format!("tx-{}", seq),
        ledger_sequence: seq,
    }
}

#[test]
fn etag_is_quoted() {
    let etag = compute_etag(br#"{"ok":true}"#);
    assert!(etag.starts_with('"'));
    assert!(etag.ends_with('"'));
}

#[test]
fn if_none_match_matches_exact_tag() {
    assert!(if_none_match_matches(Some("\"abc\""), "\"abc\""));
    assert!(!if_none_match_matches(Some("\"abc\""), "\"def\""));
}

#[test]
fn if_none_match_matches_star_and_lists() {
    assert!(if_none_match_matches(Some("*"), "\"abc\""));
    assert!(if_none_match_matches(Some("\"x\", \"abc\""), "\"abc\""));
    assert!(!if_none_match_matches(None, "\"abc\""));
}

#[test]
fn trend_indicator_declining_serialises_to_human_readable_string() {
    assert_eq!(
        trend_indicator_to_string(&TrendIndicator::Declining),
        "Declining"
    );
}

#[test]
fn parse_window_accepts_the_three_named_windows() {
    assert_eq!(parse_window("1h"), Some(3_600_000));
    assert_eq!(parse_window("6h"), Some(21_600_000));
    assert_eq!(parse_window("24h"), Some(86_400_000));
    assert_eq!(parse_window("invalid"), None);
}

#[test]
fn percentile_nearest_rank_picks_expected_values() {
    let sorted = vec![100u64, 200, 300, 400, 500];
    assert_eq!(percentile_nearest_rank(&sorted, 50), 300);
    assert_eq!(percentile_nearest_rank(&sorted, 95), 500);
    assert_eq!(percentile_nearest_rank(&sorted, 0), 100);
    assert_eq!(percentile_nearest_rank(&Vec::new(), 50), 0);
}

#[test]
fn summary_matches_the_sample_set() {
    // Twenty samples over the last twenty minutes, fees 100..2000.
    let fees: Vec<FeeDataPoint> = (0..20u64)
        .map(|i| point((i + 1) * 100, 20 - i as i64, i + 1))
        .collect();
    let summary = compute_summary(&fees).unwrap();
    assert_eq!(summary.min, 100);
    assert_eq!(summary.max, 2000);
    let total: u64 = (1..=20u64).map(|i| i * 100).sum();
    assert_eq!(summary.avg.num as u64, total);
    assert_eq!(summary.avg.den, 20);
    assert_eq!(summary.p50, 1000);
    assert_eq!(summary.p95, 1900);
}

#[test]
fn summary_of_empty_batch_is_all_zero() {
    let summary = compute_summary(&Vec::new()).unwrap();
    assert_eq!(summary.min, 0);
    assert_eq!(summary.max, 0);
    assert_eq!(summary.avg.num, 0);
    assert_eq!(summary.p50, 0);
    assert_eq!(summary.p95, 0);
}

#[test]
fn current_fee_response_carries_all_percentiles() {
    let stats = HorizonFeeStats {
        last_ledger_base_fee: "100".to_string(),
        fee_charged: FeeCharged {
            min: "100".to_string(),
            max: "5000".to_string(),
            avg: "213".to_string(),
            p10: "100".to_string(),
            p25: "100".to_string(),
            p50: "150".to_string(),
            p75: "300".to_string(),
            p90: "500".to_string(),
            p95: "800".to_string(),
        },
    };
    let response = current_fee_response_of(stats);
    assert_eq!(response.base_fee, "100");
    assert_eq!(response.percentiles.p10, "100");
    assert_eq!(response.percentiles.p50, "150");
    assert_eq!(response.percentiles.p95, "800");
}

#[test]
fn fee_trend_returns_null_changes_for_partial_windows() {
    let engine = FeeInsightsEngine::new(InsightsConfig::default(), NOW_MS);
    let insights = engine.get_current_insights(NOW_MS);
    let response = fee_trend_response(&insights);
    assert!(response.changes.one_h_pct.is_none());
    assert!(response.changes.six_h_pct.is_none());
    assert!(response.changes.twenty_four_h_pct.is_none());
}

#[test]
fn fee_trend_reports_trend_and_spike_count() {
    let mut engine = FeeInsightsEngine::new(InsightsConfig::default(), NOW_MS);
    let mut points: Vec<FeeDataPoint> = vec![
        point(100, 60, 1),
        point(100, 50, 2),
        point(100, 40, 3),
        point(100, 30, 4),
        point(100, 20, 5),
        point(500, 10, 6),
        point(100, 0, 7),
    ];
    points.sort_by_key(|p| p.timestamp_ms);
    engine.process_fee_data(&points, NOW_MS).unwrap();
    let insights = engine.get_current_insights(NOW_MS);
    let response = fee_trend_response(&insights);
    assert_eq!(response.last_updated_ms, NOW_MS);
    assert_eq!(
        response.recent_spike_count,
        insights.congestion_trends.recent_spikes.len()
    );
}
