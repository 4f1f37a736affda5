use stellar_fee_tracker::calculator::{AverageConfig, RollingAverageCalculator};
use stellar_fee_tracker::detector::{CongestionDetector, SpikeConfig};
use stellar_fee_tracker::engine::{FeeInsightsEngine, InsightsConfig};
use stellar_fee_tracker::ratio::Ratio;
use stellar_fee_tracker::tracker::{ExtremesConfig, ExtremesTracker};
use stellar_fee_tracker::types::{FeeDataPoint, SpikeSeverity, TimeWindow};

const NOW_MS: i64 = 1_700_000_000_000;

fn point(fee_amount: u64, minutes_ago: i64, hash: &str, seq: u64) -> FeeDataPoint {
    FeeDataPoint {
        fee_amount,
        timestamp_ms: NOW_MS - minutes_ago * 60_000,
        transaction_hash: hash.to_string(),
        ledger_sequence: seq,
    }
}

fn window(name: &str, hours: i64, min_samples: usize) -> TimeWindow {
    TimeWindow {
        name: name.to_string(),
        duration_ms: hours * 3_600_000,
        min_samples,
    }
}

fn three_windows(min_samples: usize) -> Vec<TimeWindow> {
    vec![
        window("short_term", 1, min_samples),
        window("medium_term", 6, min_samples),
        window("long_term", 24, min_samples),
    ]
}

fn ratio_as_f64(r: &Ratio) -> f64 {
    r.num as f64 / r.den as f64
}

#[test]
fn test_rolling_average_calculator_creation() {
    let config = AverageConfig::default();
    let time_windows = vec![window("test", 1, 5)];
    let _calculator = RollingAverageCalculator::new(config, time_windows);
}

#[test]
fn test_rolling_average_basic_calculation() {
    let config = AverageConfig::default();
    let mut calculator = RollingAverageCalculator::new(config, three_windows(2));

    calculator.add_data_point(point(100, 30, "hash1", 1), NOW_MS);
    calculator.add_data_point(point(200, 15, "hash2", 2), NOW_MS);

    let averages = calculator.calculate_averages(NOW_MS).unwrap();

    assert_eq!(ratio_as_f64(&averages.short_term.value), 150.0);
    assert_eq!(averages.short_term.sample_count, 2);
    assert!(!averages.short_term.is_partial);
}

#[test]
fn test_rolling_average_partial_results() {
    let config = AverageConfig::default();
    let mut calculator = RollingAverageCalculator::new(config, three_windows(5));

    calculator.add_data_point(point(100, 30, "hash1", 1), NOW_MS);
    calculator.add_data_point(point(200, 15, "hash2", 2), NOW_MS);

    let averages = calculator.calculate_averages(NOW_MS).unwrap();

    assert!(averages.short_term.is_partial);
    assert_eq!(averages.short_term.sample_count, 2);
}

#[test]
fn test_rolling_average_time_window_expiration() {
    let config = AverageConfig::default();
    let time_windows = vec![
        TimeWindow {
            name: "short_term".to_string(),
            duration_ms: 30 * 60_000,
            min_samples: 1,
        },
        window("medium_term", 6, 1),
        window("long_term", 24, 1),
    ];
    let mut calculator = RollingAverageCalculator::new(config, time_windows);

    calculator.add_data_point(point(100, 120, "hash1", 1), NOW_MS);
    calculator.add_data_point(point(200, 15, "hash2", 2), NOW_MS);

    let averages = calculator.calculate_averages(NOW_MS).unwrap();

    assert_eq!(ratio_as_f64(&averages.short_term.value), 200.0);
    assert_eq!(averages.short_term.sample_count, 1);
}

#[test]
fn test_circular_buffer_capacity_limit() {
    let config = AverageConfig {
        max_buffer_size: 3,
        min_samples_for_calculation: 1,
    };
    let mut calculator = RollingAverageCalculator::new(config, three_windows(1));

    for i in 0..5u64 {
        calculator.add_data_point(
            point((i + 1) * 100, i as i64 * 5, &format!("hash{}", i), i + 1),
            NOW_MS,
        );
    }

    let averages = calculator.calculate_averages(NOW_MS).unwrap();

    assert_eq!(averages.short_term.sample_count, 3);
    assert_eq!(ratio_as_f64(&averages.short_term.value), 400.0);
}

#[test]
fn test_rolling_average_empty_dataset() {
    let config = AverageConfig::default();
    let calculator = RollingAverageCalculator::new(config, three_windows(1));
    let averages = calculator.calculate_averages(NOW_MS).unwrap();

    assert_eq!(ratio_as_f64(&averages.short_term.value), 0.0);
    assert_eq!(averages.short_term.sample_count, 0);
    assert!(averages.short_term.is_partial);
}

#[test]
fn test_extremes_tracker_creation() {
    let config = ExtremesConfig::default();
    let tracker = ExtremesTracker::new(config, NOW_MS);
    assert!(!tracker.has_current_data());
}

#[test]
fn test_extremes_identification() {
    let config = ExtremesConfig::default();
    let mut tracker = ExtremesTracker::new(config, NOW_MS);

    let fee_data = vec![
        point(150, 0, "hash1", 1),
        point(50, 0, "hash2", 2),
        point(300, 0, "hash3", 3),
    ];

    tracker.update_with_fees(&fee_data, NOW_MS).unwrap();
    let extremes = tracker.get_current_extremes().unwrap();

    assert_eq!(extremes.current_min.value, 50);
    assert_eq!(extremes.current_min.transaction_hash, "hash2");
    assert_eq!(extremes.current_max.value, 300);
    assert_eq!(extremes.current_max.transaction_hash, "hash3");
}

#[test]
fn test_extremes_tie_breaking() {
    let config = ExtremesConfig::default();
    let mut tracker = ExtremesTracker::new(config, NOW_MS);

    let fee_data = vec![
        FeeDataPoint {
            fee_amount: 100,
            timestamp_ms: NOW_MS + 1_000,
            transaction_hash: "hash1".to_string(),
            ledger_sequence: 1,
        },
        FeeDataPoint {
            fee_amount: 100,
            timestamp_ms: NOW_MS + 2_000,
            transaction_hash: "hash2".to_string(),
            ledger_sequence: 2,
        },
    ];

    tracker.update_with_fees(&fee_data, NOW_MS).unwrap();
    let extremes = tracker.get_current_extremes().unwrap();

    assert_eq!(extremes.current_min.value, 100);
    assert_eq!(extremes.current_min.transaction_hash, "hash2");
}

#[test]
fn test_extremes_metadata_preservation() {
    let config = ExtremesConfig::default();
    let mut tracker = ExtremesTracker::new(config, NOW_MS);

    let fee_data = vec![point(200, 0, "test_hash_123", 12345)];

    tracker.update_with_fees(&fee_data, NOW_MS).unwrap();
    let extremes = tracker.get_current_extremes().unwrap();

    assert_eq!(extremes.current_min.transaction_hash, "test_hash_123");
    assert_eq!(extremes.current_max.transaction_hash, "test_hash_123");
    assert_eq!(extremes.current_min.timestamp_ms, NOW_MS);
    assert_eq!(extremes.current_max.timestamp_ms, NOW_MS);
}

#[test]
fn test_congestion_detector_creation() {
    let config = SpikeConfig::default();
    let detector = CongestionDetector::new(config);
    assert_eq!(detector.get_recent_spikes().len(), 0);
}

#[test]
fn test_spike_detection_basic() {
    let config = SpikeConfig {
        threshold_num: 2,
        threshold_den: 1,
        minimum_spike_duration_ms: 60_000,
        congestion_window_ms: 3_600_000,
    };
    let detector = CongestionDetector::new(config);

    let baseline = Ratio::new(100, 1);
    let fee_data = vec![
        point(100, 30, "hash1", 1),
        point(250, 20, "hash2", 2),
        point(300, 15, "hash3", 3),
        point(100, 10, "hash4", 4),
    ];

    let spikes = detector.detect_spikes(&fee_data, &baseline).unwrap();

    assert_eq!(spikes.len(), 1);
    assert_eq!(spikes[0].peak_fee, 300);
    assert_eq!(ratio_as_f64(&spikes[0].baseline_fee), 100.0);
    assert_eq!(ratio_as_f64(&spikes[0].spike_ratio), 3.0);
}

#[test]
fn test_spike_severity_classification() {
    let config = SpikeConfig::default();
    let detector = CongestionDetector::new(config);

    assert_eq!(detector.classify_spike_severity(&Ratio::new(3, 2)), SpikeSeverity::Minor);
    assert_eq!(detector.classify_spike_severity(&Ratio::new(7, 2)), SpikeSeverity::Moderate);
    assert_eq!(detector.classify_spike_severity(&Ratio::new(7, 1)), SpikeSeverity::Major);
    assert_eq!(detector.classify_spike_severity(&Ratio::new(15, 1)), SpikeSeverity::Critical);
}

#[test]
fn test_spike_ratio_calculation() {
    let config = SpikeConfig {
        threshold_num: 2,
        threshold_den: 1,
        minimum_spike_duration_ms: 1_000,
        congestion_window_ms: 3_600_000,
    };
    let detector = CongestionDetector::new(config);

    let baseline = Ratio::new(200, 1);
    let fee_data = vec![
        FeeDataPoint {
            fee_amount: 600,
            timestamp_ms: NOW_MS,
            transaction_hash: "hash1".to_string(),
            ledger_sequence: 1,
        },
        FeeDataPoint {
            fee_amount: 100,
            timestamp_ms: NOW_MS + 2_000,
            transaction_hash: "hash2".to_string(),
            ledger_sequence: 2,
        },
    ];

    let spikes = detector.detect_spikes(&fee_data, &baseline).unwrap();

    assert_eq!(spikes.len(), 1);
    assert_eq!(ratio_as_f64(&spikes[0].spike_ratio), 3.0);
    assert_eq!(ratio_as_f64(&spikes[0].baseline_fee), 200.0);
}

#[test]
fn test_fee_amount_validation() {
    let config = InsightsConfig::default();
    let engine = FeeInsightsEngine::new(config, NOW_MS);

    let invalid_data = vec![point(0, 0, "hash1", 1)];
    let result = engine.validate_fee_data(&invalid_data, NOW_MS);
    assert!(result.is_err());
    assert!(result.unwrap_err().message().contains("Zero fee amount"));

    let invalid_data = vec![point(2_000_000_000, 0, "hash1", 1)];
    let result = engine.validate_fee_data(&invalid_data, NOW_MS);
    assert!(result.is_err());
    assert!(result.unwrap_err().message().contains("Unreasonably large fee amount"));

    let valid_data = vec![point(100, 0, "hash1", 1)];
    assert!(engine.validate_fee_data(&valid_data, NOW_MS).is_ok());
}

#[test]
fn test_timestamp_validation() {
    let config = InsightsConfig::default();
    let engine = FeeInsightsEngine::new(config, NOW_MS);

    let invalid_data = vec![FeeDataPoint {
        fee_amount: 100,
        timestamp_ms: NOW_MS + 2 * 3_600_000,
        transaction_hash: "hash1".to_string(),
        ledger_sequence: 1,
    }];
    let result = engine.validate_fee_data(&invalid_data, NOW_MS);
    assert!(result.is_err());
    assert!(result.unwrap_err().message().contains("Future timestamp"));

    let valid_data = vec![point(100, 30, "hash1", 1)];
    assert!(engine.validate_fee_data(&valid_data, NOW_MS).is_ok());
}

#[test]
fn test_transaction_hash_validation() {
    let config = InsightsConfig::default();
    let engine = FeeInsightsEngine::new(config, NOW_MS);

    let invalid_data = vec![point(100, 0, "", 1)];
    let result = engine.validate_fee_data(&invalid_data, NOW_MS);
    assert!(result.is_err());
    assert!(result.unwrap_err().message().contains("Empty transaction hash"));

    let valid_data = vec![point(100, 0, "valid_hash_123", 1)];
    assert!(engine.validate_fee_data(&valid_data, NOW_MS).is_ok());
}

#[test]
fn test_large_number_accuracy() {
    let config = AverageConfig::default();
    let mut calculator = RollingAverageCalculator::new(config, three_windows(1));

    calculator.add_data_point(point(999_999_999, 30, "hash1", 1), NOW_MS);
    calculator.add_data_point(point(999_999_998, 15, "hash2", 2), NOW_MS);

    let averages = calculator.calculate_averages(NOW_MS).unwrap();

    // The mean is held exactly as a rational: the full sum over the count.
    assert_eq!(averages.short_term.value.num, 999_999_999 + 999_999_998);
    assert_eq!(averages.short_term.value.den, 2);
    let expected_average = (999_999_999.0f64 + 999_999_998.0f64) / 2.0;
    assert_eq!(ratio_as_f64(&averages.short_term.value), expected_average);
}

#[test]
fn test_type_conversion_correctness() {
    let fee_amount: u64 = 123_456_789;
    let converted: f64 = fee_amount as f64;
    let back_converted: u64 = converted as u64;
    assert_eq!(fee_amount, back_converted);

    let max_safe: u64 = (1u64 << 53) - 1;
    let converted_max: f64 = max_safe as f64;
    let back_converted_max: u64 = converted_max as u64;
    assert_eq!(max_safe, back_converted_max);
}

#[test]
fn test_division_by_zero_handling() {
    let config = SpikeConfig::default();
    let detector = CongestionDetector::new(config);

    let fee_data = vec![point(100, 0, "hash1", 1)];

    let result = detector.detect_spikes(&fee_data, &Ratio { num: 0, den: 1 });
    assert!(result.is_err());
    assert!(result.unwrap_err().message().contains("Baseline must be positive"));

    let result = detector.detect_spikes(&fee_data, &Ratio { num: -100, den: 1 });
    assert!(result.is_err());
    assert!(result.unwrap_err().message().contains("Baseline must be positive"));
}

#[test]
fn test_decimal_precision_maintenance() {
    let config = SpikeConfig::default();
    let detector = CongestionDetector::new(config);

    let baseline = Ratio::new(100, 1);
    let fee_data = vec![
        FeeDataPoint {
            fee_amount: 333,
            timestamp_ms: NOW_MS,
            transaction_hash: "hash1".to_string(),
            ledger_sequence: 1,
        },
        FeeDataPoint {
            fee_amount: 100,
            timestamp_ms: NOW_MS + 600_000,
            transaction_hash: "hash2".to_string(),
            ledger_sequence: 2,
        },
    ];

    let spikes = detector.detect_spikes(&fee_data, &baseline).unwrap();

    assert_eq!(spikes.len(), 1);
    assert_eq!(ratio_as_f64(&spikes[0].spike_ratio), 3.33);
}

#[test]
fn test_full_engine_integration() {
    let config = InsightsConfig::default();
    let mut engine = FeeInsightsEngine::new(config, NOW_MS);

    let fee_data = vec![
        point(100, 60, "hash1", 1),
        point(150, 45, "hash2", 2),
        point(500, 30, "hash3", 3),
        point(120, 15, "hash4", 4),
    ];

    let result = engine.process_fee_data(&fee_data, NOW_MS);
    assert!(result.is_ok());

    let update = result.unwrap();
    assert!(ratio_as_f64(&update.insights.rolling_averages.short_term.value) > 0.0);
    assert!(update.insights.extremes.current_min.value > 0);
    assert!(update.insights.extremes.current_max.value > 0);
    assert_eq!(update.data_points_processed, 4);
}

#[test]
fn test_engine_reset_functionality() {
    let config = InsightsConfig::default();
    let mut engine = FeeInsightsEngine::new(config, NOW_MS);

    let fee_data = vec![point(200, 30, "hash1", 1)];
    let _result = engine.process_fee_data(&fee_data, NOW_MS);

    let reset_result = engine.reset(NOW_MS);
    assert!(reset_result.is_ok());

    assert!(engine.get_last_update().is_none());
    let insights = engine.get_current_insights(NOW_MS);
    assert_eq!(insights.rolling_averages.short_term.sample_count, 0);
}
