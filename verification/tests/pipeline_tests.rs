use stellar_fee_tracker::calculator::{AverageConfig, RollingAverageCalculator};
use stellar_fee_tracker::detector::{CongestionDetector, SpikeConfig};
use stellar_fee_tracker::dispatch::plan_dispatch;
use stellar_fee_tracker::horizon::{convert_to_fee_data_point, HorizonTransactionRecord};
use stellar_fee_tracker::parse::parse_u64;
use stellar_fee_tracker::ratio::Ratio;
use stellar_fee_tracker::repository::{is_valid_threshold, FeeRepository};
use stellar_fee_tracker::store::FeeHistoryStore;
use stellar_fee_tracker::tracker::{ExtremesConfig, ExtremesTracker};
use stellar_fee_tracker::types::{FeeDataPoint, FeeSpike, SpikeSeverity, TimeWindow};

const NOW_MS: i64 = 1_700_000_000_000;

fn point(fee_amount: u64, minutes_ago: i64, seq: u64) -> FeeDataPoint {
    FeeDataPoint {
        fee_amount,
        timestamp_ms: NOW_MS - minutes_ago * 60_000,
        transaction_hash: format!("tx-{}", seq),
        ledger_sequence: seq,
    }
}

#[test]
fn store_retains_most_recent_samples_in_order() {
    // Feeding more samples than the capacity keeps exactly the most
    // recent capacity-many, in insertion order.
    let mut store = FeeHistoryStore::new(4);
    let batch: Vec<FeeDataPoint> = (1..=10u64).map(|i| point(i, 10 - i as i64, i)).collect();
    store.push_batch(&batch);
    assert_eq!(store.len(), 4);
    let kept = store.get_last_n(10);
    let fees: Vec<u64> = kept.iter().map(|p| p.fee_amount).collect();
    assert_eq!(fees, vec![7, 8, 9, 10]);
}

#[test]
fn short_window_average_of_five_equal_fees() {
    // Five fees of 100 within the last half hour against a short
    // window that asks for two samples: the mean is exactly 100, the
    // count five, and the result is not partial.
    let windows = vec![
        TimeWindow {
            name: "short_term".to_string(),
            duration_ms: 3_600_000,
            min_samples: 2,
        },
        TimeWindow {
            name: "medium_term".to_string(),
            duration_ms: 6 * 3_600_000,
            min_samples: 2,
        },
        TimeWindow {
            name: "long_term".to_string(),
            duration_ms: 24 * 3_600_000,
            min_samples: 2,
        },
    ];
    let mut calculator = RollingAverageCalculator::new(AverageConfig::default(), windows);
    for i in 0..5u64 {
        calculator.add_data_point(point(100, 5 + i as i64 * 5, i + 1), NOW_MS);
    }
    let averages = calculator.calculate_averages(NOW_MS).unwrap();
    assert_eq!(averages.short_term.value.num, 500);
    assert_eq!(averages.short_term.value.den, 5);
    assert_eq!(averages.short_term.sample_count, 5);
    assert!(!averages.short_term.is_partial);
}

#[test]
fn tracker_finds_min_and_max_in_batch() {
    let mut tracker = ExtremesTracker::new(ExtremesConfig::default(), NOW_MS);
    let batch = vec![point(150, 0, 1), point(50, 0, 2), point(300, 0, 3)];
    tracker.update_with_fees(&batch, NOW_MS).unwrap();
    let extremes = tracker.get_current_extremes().unwrap();
    assert_eq!(extremes.current_min.value, 50);
    assert_eq!(extremes.current_max.value, 300);
    assert!(extremes.current_min.value <= extremes.current_max.value);
    let fees: Vec<u64> = batch.iter().map(|p| p.fee_amount).collect();
    assert!(fees.contains(&extremes.current_min.value));
    assert!(fees.contains(&extremes.current_max.value));
}

#[test]
fn detector_emits_one_spike_with_exact_ratio() {
    // Threshold 2.0, minimum duration one minute, baseline 100, fees
    // 100@-30m, 250@-20m, 300@-15m, 100@-10m: exactly one spike with
    // peak 300, ratio exactly 3, severity Moderate.
    let config = SpikeConfig {
        threshold_num: 2,
        threshold_den: 1,
        minimum_spike_duration_ms: 60_000,
        congestion_window_ms: 3_600_000,
    };
    let detector = CongestionDetector::new(config);
    let baseline = Ratio::new(100, 1);
    let fees = vec![
        point(100, 30, 1),
        point(250, 20, 2),
        point(300, 15, 3),
        point(100, 10, 4),
    ];
    let spikes = detector.detect_spikes(&fees, &baseline).unwrap();
    assert_eq!(spikes.len(), 1);
    assert_eq!(spikes[0].peak_fee, 300);
    assert_eq!(spikes[0].spike_ratio.num, 300);
    assert_eq!(spikes[0].spike_ratio.den, 100);
    assert_eq!(spikes[0].severity, SpikeSeverity::Moderate);
}

#[test]
fn every_emitted_spike_reaches_threshold_and_duration() {
    let config = SpikeConfig {
        threshold_num: 2,
        threshold_den: 1,
        minimum_spike_duration_ms: 300_000,
        congestion_window_ms: 3_600_000,
    };
    let detector = CongestionDetector::new(config);
    let baseline = Ratio::new(100, 1);
    let fees = vec![
        point(100, 50, 1),
        point(210, 40, 2),
        point(220, 30, 3),
        point(100, 25, 4),
        point(500, 20, 5),
        point(100, 19, 6),
    ];
    let spikes = detector.detect_spikes(&fees, &baseline).unwrap();
    for spike in &spikes {
        // peak >= baseline * 2 and duration >= 5 minutes
        assert!(spike.peak_fee as u128 * spike.baseline_fee.den as u128
            >= 2 * spike.baseline_fee.num as u128);
        assert!(spike.duration_ms >= 300_000);
    }
    // The short 500-fee blip lasted under the minimum and is not
    // emitted; the 210/220 run is.
    assert_eq!(spikes.len(), 1);
    assert_eq!(spikes[0].peak_fee, 220);
}

#[test]
fn severity_boundaries_match_the_table() {
    let detector = CongestionDetector::new(SpikeConfig::default());
    assert_eq!(detector.classify_spike_severity(&Ratio::new(29, 10)), SpikeSeverity::Minor);
    assert_eq!(detector.classify_spike_severity(&Ratio::new(3, 1)), SpikeSeverity::Moderate);
    assert_eq!(detector.classify_spike_severity(&Ratio::new(49, 10)), SpikeSeverity::Moderate);
    assert_eq!(detector.classify_spike_severity(&Ratio::new(5, 1)), SpikeSeverity::Major);
    assert_eq!(detector.classify_spike_severity(&Ratio::new(99, 10)), SpikeSeverity::Major);
    assert_eq!(detector.classify_spike_severity(&Ratio::new(10, 1)), SpikeSeverity::Critical);
}

#[test]
fn dispatch_plan_covers_exactly_the_matching_configs() {
    // A Critical spike against two enabled configs (Major, Critical)
    // and one disabled (Minor): exactly two payloads, one per enabled
    // config, each referencing its config id.
    let mut repo = FeeRepository::new();
    let major_id = repo.insert_alert_config("https://hooks.example.com/major", "Major", NOW_MS);
    let critical_id =
        repo.insert_alert_config("https://hooks.example.com/critical", "Critical", NOW_MS);
    let minor_id = repo.insert_alert_config("https://hooks.example.com/minor", "Minor", NOW_MS);
    repo.delete_alert_config(minor_id);

    let spike = FeeSpike {
        peak_fee: 8000,
        baseline_fee: Ratio::new(100, 1),
        spike_ratio: Ratio::new(8000, 100),
        start_time_ms: NOW_MS - 600_000,
        duration_ms: 600_000,
        severity: SpikeSeverity::Critical,
    };
    let configs = repo.list_alert_configs();
    let payloads = plan_dispatch(&spike, &configs);

    assert_eq!(payloads.len(), 2);
    assert_eq!(payloads[0].config_id, Some(major_id));
    assert_eq!(payloads[1].config_id, Some(critical_id));
    for p in &payloads {
        assert_eq!(p.severity, "Critical");
        assert_eq!(p.peak_fee, 8000);
    }
}

#[test]
fn moderate_spike_matches_only_minor_threshold() {
    let mut repo = FeeRepository::new();
    repo.insert_alert_config("https://hooks.example.com/minor", "Minor", NOW_MS);
    repo.insert_alert_config("https://hooks.example.com/major", "Major", NOW_MS);

    let spike = FeeSpike {
        peak_fee: 350,
        baseline_fee: Ratio::new(100, 1),
        spike_ratio: Ratio::new(350, 100),
        start_time_ms: NOW_MS - 600_000,
        duration_ms: 600_000,
        severity: SpikeSeverity::Moderate,
    };
    let payloads = plan_dispatch(&spike, &repo.list_alert_configs());
    assert_eq!(payloads.len(), 1);
    assert_eq!(payloads[0].webhook_url, "https://hooks.example.com/minor");
}

#[test]
fn threshold_labels_are_the_three_documented_ones() {
    assert!(is_valid_threshold("Minor"));
    assert!(is_valid_threshold("Major"));
    assert!(is_valid_threshold("Critical"));
    assert!(!is_valid_threshold("Moderate"));
    assert!(!is_valid_threshold("Catastrophic"));
    assert!(!is_valid_threshold(""));
}

#[test]
fn parse_u64_accepts_digits_and_rejects_the_rest() {
    assert_eq!(parse_u64("0"), Some(0));
    assert_eq!(parse_u64("123"), Some(123));
    assert_eq!(parse_u64("18446744073709551615"), Some(u64::MAX));
    assert_eq!(parse_u64("18446744073709551616"), None);
    assert_eq!(parse_u64(""), None);
    assert_eq!(parse_u64("12a"), None);
    assert_eq!(parse_u64("-5"), None);
    assert_eq!(parse_u64(" 5"), None);
}

#[test]
fn convert_record_parses_fee_and_timestamp() {
    let record = HorizonTransactionRecord {
        hash: "abc123".to_string(),
        ledger: 50_000_000,
        created_at: "2024-01-01T00:00:00Z".to_string(),
        fee_charged: "1500".to_string(),
        successful: true,
    };
    let p = convert_to_fee_data_point(record).unwrap();
    assert_eq!(p.fee_amount, 1500);
    // 2024-01-01T00:00:00Z is 1704067200 seconds after the epoch.
    assert_eq!(p.timestamp_ms, 1_704_067_200_000);
    assert_eq!(p.transaction_hash, "abc123");
    assert_eq!(p.ledger_sequence, 50_000_000);
}

#[test]
fn convert_record_rejects_failures_and_bad_fields() {
    let failed = HorizonTransactionRecord {
        hash: "abc".to_string(),
        ledger: 1,
        created_at: "2024-01-01T00:00:00Z".to_string(),
        fee_charged: "100".to_string(),
        successful: false,
    };
    assert!(convert_to_fee_data_point(failed).is_err());

    let bad_fee = HorizonTransactionRecord {
        hash: "abc".to_string(),
        ledger: 1,
        created_at: "2024-01-01T00:00:00Z".to_string(),
        fee_charged: "1.5".to_string(),
        successful: true,
    };
    assert!(convert_to_fee_data_point(bad_fee).is_err());

    let bad_time = HorizonTransactionRecord {
        hash: "abc".to_string(),
        ledger: 1,
        created_at: "yesterday".to_string(),
        fee_charged: "100".to_string(),
        successful: true,
    };
    assert!(convert_to_fee_data_point(bad_time).is_err());
}

#[test]
fn analyze_with_no_spikes_reports_normal_trend() {
    let mut detector = CongestionDetector::new(SpikeConfig::default());
    let baseline = Ratio::new(100, 1);
    let fees = vec![point(100, 30, 1), point(110, 20, 2), point(120, 10, 3)];
    let analysis = detector.analyze_congestion(&fees, &baseline, NOW_MS).unwrap();
    assert!(analysis.new_spikes.is_empty());
    assert_eq!(
        analysis.trends.current_trend,
        stellar_fee_tracker::types::TrendIndicator::Normal
    );
    assert_eq!(
        analysis.trends.trend_strength,
        stellar_fee_tracker::types::TrendStrength::Weak
    );
    assert!(analysis.trends.predicted_duration_min.is_none());
}

#[test]
fn analyze_with_one_critical_spike_reports_congested() {
    let config = SpikeConfig {
        threshold_num: 2,
        threshold_den: 1,
        minimum_spike_duration_ms: 60_000,
        congestion_window_ms: 3_600_000,
    };
    let mut detector = CongestionDetector::new(config);
    let baseline = Ratio::new(100, 1);
    let fees = vec![point(1000, 20, 1), point(1000, 10, 2), point(100, 5, 3)];
    let analysis = detector.analyze_congestion(&fees, &baseline, NOW_MS).unwrap();
    assert_eq!(analysis.new_spikes.len(), 1);
    assert_eq!(analysis.new_spikes[0].severity, SpikeSeverity::Critical);
    assert_eq!(
        analysis.trends.current_trend,
        stellar_fee_tracker::types::TrendIndicator::Congested
    );
    // One Critical spike scores 8 + 0.5: Moderate strength, so the
    // 15-minute spike predicts 22 minutes of congestion.
    assert_eq!(
        analysis.trends.trend_strength,
        stellar_fee_tracker::types::TrendStrength::Moderate
    );
    assert_eq!(analysis.trends.predicted_duration_min, Some(22));
}

#[test]
fn analyze_with_one_minor_spike_reports_rising() {
    let config = SpikeConfig {
        threshold_num: 2,
        threshold_den: 1,
        minimum_spike_duration_ms: 60_000,
        congestion_window_ms: 3_600_000,
    };
    let mut detector = CongestionDetector::new(config);
    let baseline = Ratio::new(100, 1);
    let fees = vec![point(250, 20, 1), point(250, 10, 2), point(100, 5, 3)];
    let analysis = detector.analyze_congestion(&fees, &baseline, NOW_MS).unwrap();
    assert_eq!(analysis.new_spikes.len(), 1);
    assert_eq!(analysis.new_spikes[0].severity, SpikeSeverity::Minor);
    assert_eq!(
        analysis.trends.current_trend,
        stellar_fee_tracker::types::TrendIndicator::Rising
    );
    assert_eq!(
        analysis.trends.trend_strength,
        stellar_fee_tracker::types::TrendStrength::Weak
    );
    assert_eq!(analysis.trends.predicted_duration_min, Some(15));
}

#[test]
fn analyze_removes_stale_spikes_behind_fresh_ones() {
    // A late-arriving batch can put a spike with an older start time
    // behind a fresher one in the ring; once the window moves past the
    // older spike it must be removed wherever it sits.
    let config = SpikeConfig {
        threshold_num: 2,
        threshold_den: 1,
        minimum_spike_duration_ms: 60_000,
        congestion_window_ms: 3_600_000,
    };
    let mut detector = CongestionDetector::new(config);
    let baseline = Ratio::new(100, 1);

    // Fresh spike A, starting twelve minutes ago.
    let batch_a = vec![point(300, 12, 1), point(100, 8, 2)];
    detector.analyze_congestion(&batch_a, &baseline, NOW_MS).unwrap();
    // Late batch with spike B, starting forty minutes ago: B sits
    // behind A in the ring with an older start time.
    let batch_b = vec![point(300, 40, 3), point(100, 35, 4)];
    let second = detector.analyze_congestion(&batch_b, &baseline, NOW_MS).unwrap();
    assert_eq!(second.trends.recent_spikes.len(), 2);

    // Half an hour later the window covers only the last hour from
    // then: B (started 70 minutes before) is stale, A is not.
    let later = NOW_MS + 30 * 60_000;
    let third = detector
        .analyze_congestion(&vec![point(100, -29, 5)], &baseline, later)
        .unwrap();
    assert_eq!(third.trends.recent_spikes.len(), 1);
    assert_eq!(third.trends.recent_spikes[0].start_time_ms, NOW_MS - 12 * 60_000);
}

#[test]
fn prune_leaves_no_row_below_cutoff() {
    let mut repo = FeeRepository::new();
    let batch: Vec<FeeDataPoint> = (0..10u64).map(|i| point(100 + i, i as i64 * 60, i)).collect();
    repo.insert_fee_points(&batch).unwrap();
    let cutoff = NOW_MS - 5 * 3_600_000 + 1;
    repo.prune_older_than(cutoff);
    for p in repo.fetch_since(i64::MIN / 2) {
        assert!(p.timestamp_ms >= cutoff);
    }
}
