//! Central fee-insights engine.
//!
//! Owns the rolling-average calculator, the extremes tracker, and the
//! congestion detector; validates incoming samples, feeds every
//! component, and assembles one coherent snapshot per update.

use vstd::prelude::*;
use crate::calculator::{
    calc_window_step, spec_window_average, AverageConfig, RollingAverageCalculator,
};
use crate::detector::{
    ring_after, spec_detect, spec_trend_indicator, spec_trend_strength, CongestionDetector,
    SpikeConfig, SPIKE_HISTORY_CAP,
};
use crate::errors::{InsightsError, ValidationFault, ValidationIssue};
use crate::parse::spec_decimal_digits;
use crate::ratio::Ratio;
use crate::sort::spec_sort_by_time;
use crate::tracker::{fresh_period, period_feed, ExtremesConfig, ExtremesTracker};
use crate::types::{
    all_arithmetic_ok, AverageResult, CurrentInsights, DataQuality, ExtremeValue, FeeDataPoint, FeeExtremes,
    FeeSpike, InsightsUpdate, RollingAverages, TimeWindow, TrendIndicator, CongestionTrends,
    HOUR_MS, MAX_FEE_STROOPS, MAX_TIME_MS,
};

verus! {

/// Configuration for the fee-insights engine.
#[derive(Debug)]
pub struct InsightsConfig {
    pub polling_interval_ms: i64,
    pub time_windows: Vec<TimeWindow>,
    pub spike_detection: SpikeConfig,
    pub storage_retention_ms: i64,
}

impl InsightsConfig {
    /// A usable configuration.
    pub open spec fn wf(self) -> bool {
        &&& 1 <= self.polling_interval_ms <= MAX_TIME_MS
        &&& forall|i: int|
            0 <= i < self.time_windows@.len() ==> (#[trigger] self.time_windows@[i]).wf()
        &&& self.spike_detection.wf()
        &&& 0 <= self.storage_retention_ms <= MAX_TIME_MS
    }
}

impl Clone for InsightsConfig {
    fn clone(&self) -> (r: Self)
        ensures
            r.polling_interval_ms == self.polling_interval_ms,
            r.time_windows@ == self.time_windows@,
            r.spike_detection == self.spike_detection,
            r.storage_retention_ms == self.storage_retention_ms,
    {
        let mut windows: Vec<TimeWindow> = Vec::new();
        let mut i: usize = 0;
        while i < self.time_windows.len()
            invariant
                0 <= i <= self.time_windows@.len(),
                windows@ == self.time_windows@.subrange(0, i as int),
            decreases self.time_windows@.len() - i,
        {
            windows.push(self.time_windows[i].clone());
            proof {
                assert(self.time_windows@.subrange(0, i + 1 as int)
                    =~= self.time_windows@.subrange(0, i as int).push(self.time_windows@[i as int]));
            }
            i = i + 1;
        }
        proof {
            assert(self.time_windows@.subrange(0, self.time_windows@.len() as int)
                =~= self.time_windows@);
        }
        InsightsConfig {
            polling_interval_ms: self.polling_interval_ms,
            time_windows: windows,
            spike_detection: self.spike_detection,
            storage_retention_ms: self.storage_retention_ms,
        }
    }
}

/// The three windows the engine reports on, with their default
/// durations and sample thresholds.
pub fn default_time_windows() -> (r: Vec<TimeWindow>)
    ensures
        r@.len() == 3,
        r@[0].name@ == "short_term"@ && r@[0].duration_ms == HOUR_MS && r@[0].min_samples == 10,
        r@[1].name@ == "medium_term"@ && r@[1].duration_ms == 6 * HOUR_MS
            && r@[1].min_samples == 30,
        r@[2].name@ == "long_term"@ && r@[2].duration_ms == 24 * HOUR_MS
            && r@[2].min_samples == 100,
        forall|i: int| 0 <= i < r@.len() ==> (#[trigger] r@[i]).wf(),
{
    let mut windows: Vec<TimeWindow> = Vec::new();
    windows.push(TimeWindow {
        name: "short_term".to_owned(),
        duration_ms: 3_600_000,
        min_samples: 10,
    });
    windows.push(TimeWindow {
        name: "medium_term".to_owned(),
        duration_ms: 21_600_000,
        min_samples: 30,
    });
    windows.push(TimeWindow {
        name: "long_term".to_owned(),
        duration_ms: 86_400_000,
        min_samples: 100,
    });
    windows
}

impl Default for InsightsConfig {
    /// The default: one-minute polling, the three named windows,
    /// default spike detection, seven days of retention.
    fn default() -> (r: Self)
        ensures
            r.polling_interval_ms == 60_000,
            r.time_windows@.len() == 3,
            r.time_windows@[0].name@ == "short_term"@,
            r.time_windows@[1].name@ == "medium_term"@,
            r.time_windows@[2].name@ == "long_term"@,
            r.spike_detection.threshold_num == 2 && r.spike_detection.threshold_den == 1,
            r.storage_retention_ms == 604_800_000,
            r.wf(),
    {
        InsightsConfig {
            polling_interval_ms: 60_000,
            time_windows: default_time_windows(),
            spike_detection: SpikeConfig::default(),
            storage_retention_ms: 604_800_000,
        }
    }
}

/// What validation finds wrong with one sample at instant `now`, if
/// anything: a zero fee, a fee beyond the accepted maximum, an empty
/// transaction hash, a timestamp more than one hour in the future, or
/// a timestamp before the epoch.
pub open spec fn spec_fault_of(f: FeeDataPoint, now_ms: i64) -> Option<ValidationFault> {
    if f.fee_amount == 0 {
        Some(ValidationFault::ZeroFee)
    } else if f.fee_amount > MAX_FEE_STROOPS {
        Some(ValidationFault::FeeTooLarge)
    } else if f.transaction_hash@.len() == 0 {
        Some(ValidationFault::EmptyTransactionHash)
    } else if f.timestamp_ms > now_ms + HOUR_MS {
        Some(ValidationFault::FutureTimestamp)
    } else if f.timestamp_ms < 0 {
        Some(ValidationFault::NegativeTimestamp)
    } else {
        None
    }
}

/// A sample is valid exactly when validation finds no fault with it.
pub proof fn lemma_fault_none_is_valid(f: FeeDataPoint, now_ms: i64)
    ensures
        spec_fault_of(f, now_ms) is None <==> f.valid_at(now_ms),
{
}

/// Every sample of the batch passes validation at `now`.
pub open spec fn all_valid(data: Seq<FeeDataPoint>, now_ms: i64) -> bool {
    forall|i: int| 0 <= i < data.len() ==> spec_fault_of(#[trigger] data[i], now_ms) is None
}

/// The readable text of a validation fault.
pub open spec fn spec_fault_text(f: ValidationFault) -> Seq<char> {
    match f {
        ValidationFault::ZeroFee => "Zero fee amount"@,
        ValidationFault::FeeTooLarge => "Unreasonably large fee amount"@,
        ValidationFault::EmptyTransactionHash => "Empty transaction hash"@,
        ValidationFault::FutureTimestamp => "Future timestamp"@,
        ValidationFault::NegativeTimestamp => "Timestamp before the epoch"@,
    }
}

/// The message an invalid batch is rejected with: the first faulty
/// sample's fault text followed by its index (offset by `base`);
/// nothing when every sample is valid.
pub open spec fn spec_validation_message(
    data: Seq<FeeDataPoint>,
    now_ms: i64,
    base: int,
) -> Option<Seq<char>>
    decreases data.len(),
{
    if data.len() == 0 {
        None
    } else {
        match spec_fault_of(data[0], now_ms) {
            Some(f) => Some(spec_fault_text(f) + " at index "@ + spec_decimal_digits(base)),
            None => spec_validation_message(data.drop_first(), now_ms, base + 1),
        }
    }
}

/// The rejection message names the first faulty index.
proof fn lemma_validation_message_at(data: Seq<FeeDataPoint>, now_ms: i64, k: int, base: int)
    requires
        0 <= k < data.len(),
        spec_fault_of(data[k], now_ms) is Some,
        forall|j: int| 0 <= j < k ==> spec_fault_of(#[trigger] data[j], now_ms) is None,
    ensures
        spec_validation_message(data, now_ms, base) == Some(
            spec_fault_text(spec_fault_of(data[k], now_ms)->0) + " at index "@
                + spec_decimal_digits(base + k),
        ),
    decreases k,
{
    if k > 0 {
        assert(spec_fault_of(data[0], now_ms) is None);
        let d = data.drop_first();
        assert(d[k - 1] == data[k]);
        assert forall|j: int| 0 <= j < k - 1 implies spec_fault_of(
            #[trigger] d[j],
            now_ms,
        ) is None by {
            assert(d[j] == data[j + 1]);
        }
        lemma_validation_message_at(d, now_ms, k - 1, base + 1);
    }
}

/// A whole batch folded into one window buffer, sample by sample.
pub open spec fn calc_buf_feed(
    buf: Seq<FeeDataPoint>,
    data: Seq<FeeDataPoint>,
    w: TimeWindow,
    cap: int,
    now_ms: i64,
) -> Seq<FeeDataPoint>
    decreases data.len(),
{
    if data.len() == 0 {
        buf
    } else {
        calc_buf_feed(calc_window_step(buf, data[0], w, cap, now_ms), data.drop_first(), w, cap, now_ms)
    }
}

/// Appending one sample to the batch extends the buffer fold by one
/// step.
pub proof fn lemma_calc_buf_feed_snoc(
    buf: Seq<FeeDataPoint>,
    batch: Seq<FeeDataPoint>,
    x: FeeDataPoint,
    w: TimeWindow,
    cap: int,
    now_ms: i64,
)
    ensures
        calc_buf_feed(buf, batch.push(x), w, cap, now_ms) == calc_window_step(
            calc_buf_feed(buf, batch, w, cap, now_ms),
            x,
            w,
            cap,
            now_ms,
        ),
    decreases batch.len(),
{
    let bp = batch.push(x);
    if batch.len() == 0 {
        assert(bp[0] == x);
        assert(bp.drop_first() =~= Seq::<FeeDataPoint>::empty());
        assert(calc_buf_feed(buf, bp, w, cap, now_ms)
            == calc_buf_feed(calc_window_step(buf, x, w, cap, now_ms), bp.drop_first(), w, cap, now_ms));
    } else {
        assert(bp[0] == batch[0]);
        assert(bp.drop_first() =~= batch.drop_first().push(x));
        lemma_calc_buf_feed_snoc(
            calc_window_step(buf, batch[0], w, cap, now_ms),
            batch.drop_first(),
            x,
            w,
            cap,
            now_ms,
        );
        assert(calc_buf_feed(buf, bp, w, cap, now_ms)
            == calc_buf_feed(
                calc_window_step(buf, bp[0], w, cap, now_ms),
                bp.drop_first(),
                w,
                cap,
                now_ms,
            ));
        assert(calc_buf_feed(buf, batch, w, cap, now_ms)
            == calc_buf_feed(
                calc_window_step(buf, batch[0], w, cap, now_ms),
                batch.drop_first(),
                w,
                cap,
                now_ms,
            ));
    }
}

/// Feeding in-window samples into an in-window buffer with room for
/// all of them appends every sample and evicts none.
pub proof fn lemma_feed_in_window(
    buf: Seq<FeeDataPoint>,
    data: Seq<FeeDataPoint>,
    w: TimeWindow,
    cap: int,
    now_ms: i64,
)
    requires
        buf.len() + data.len() <= cap,
        forall|i: int| 0 <= i < buf.len() ==> crate::calculator::in_window(#[trigger] buf[i], w, now_ms),
        forall|i: int| 0 <= i < data.len() ==> crate::calculator::in_window(#[trigger] data[i], w, now_ms),
    ensures
        calc_buf_feed(buf, data, w, cap, now_ms) == buf + data,
    decreases data.len(),
{
    if data.len() == 0 {
        assert(buf + data =~= buf);
    } else {
        let pushed = buf.push(data[0]);
        assert(calc_window_step(buf, data[0], w, cap, now_ms) == pushed) by {
            assert(crate::calculator::in_window(data[0], w, now_ms));
            assert(crate::buffer::spec_fifo_push(buf, data[0], cap) == pushed);
            if pushed.len() > 0 {
                assert(pushed[0] == if buf.len() > 0 {
                    buf[0]
                } else {
                    data[0]
                });
                assert(crate::calculator::in_window(pushed[0], w, now_ms));
            }
            assert(crate::calculator::evict_stale(pushed, w, now_ms) == pushed);
        }
        assert(forall|i: int|
            0 <= i < pushed.len() ==> crate::calculator::in_window(#[trigger] pushed[i], w, now_ms));
        assert(forall|i: int|
            0 <= i < data.drop_first().len()
                ==> crate::calculator::in_window(#[trigger] data.drop_first()[i], w, now_ms)) by {
            assert(forall|i: int|
                0 <= i < data.drop_first().len() ==> #[trigger] data.drop_first()[i] == data[i + 1]);
        }
        lemma_feed_in_window(pushed, data.drop_first(), w, cap, now_ms);
        assert(pushed + data.drop_first() =~= buf + data);
    }
}

/// Rolling-average law: a batch that lies entirely inside a window
/// and fits its fresh buffer yields, once fed, exactly the batch as
/// buffer contents, so the reported average is exactly the mean of
/// the batch fees over its length, and the partial flag holds exactly
/// when the batch is smaller than the window's sample threshold.
pub proof fn lemma_average_of_recent_batch(
    data: Seq<FeeDataPoint>,
    w: TimeWindow,
    cap: int,
    now_ms: i64,
)
    requires
        data.len() >= 1,
        data.len() <= cap,
        cap <= 1_000_000_000,
        all_arithmetic_ok(data),
        forall|i: int| 0 <= i < data.len() ==> crate::calculator::in_window(#[trigger] data[i], w, now_ms),
    ensures
        ({
            let buf = calc_buf_feed(Seq::empty(), data, w, cap, now_ms);
            let a = spec_window_average(buf, w, now_ms);
            &&& buf == data
            &&& a.value.num == crate::calculator::spec_fee_sum(data)
            &&& a.value.den == data.len()
            &&& a.sample_count == data.len()
            &&& (a.is_partial <==> data.len() < w.min_samples)
        }),
{
    lemma_feed_in_window(Seq::empty(), data, w, cap, now_ms);
    assert(Seq::<FeeDataPoint>::empty() + data =~= data);
    crate::calculator::lemma_fee_sum_bound(data);
    assert(crate::calculator::spec_fee_sum(data)
        <= data.len() * (MAX_FEE_STROOPS as int));
    assert(data.len() * (MAX_FEE_STROOPS as int)
        <= 1_000_000_000 * (MAX_FEE_STROOPS as int));
}

/// Expected number of samples between two updates: at least one, and
/// one per polling interval since the previous update.
pub open spec fn spec_expected_points(last: Option<i64>, now_ms: i64, poll_ms: i64) -> int
    recommends
        poll_ms >= 1,
{
    match last {
        None => 1,
        Some(l) => {
            let d: int = now_ms - l;
            if d <= 0 {
                1
            } else {
                let q: int = d / (poll_ms as int);
                if q < 1 {
                    1
                } else {
                    q
                }
            }
        },
    }
}

/// Whether any sample of the batch is more than one hour older than
/// `now`.
pub open spec fn spec_has_gaps(data: Seq<FeeDataPoint>, now_ms: i64) -> bool {
    exists|i: int| 0 <= i < data.len() && now_ms - (#[trigger] data[i]).timestamp_ms > HOUR_MS
}

/// Recognizes the placeholder extremes reported while the tracker has
/// no data: the network base fee of 100 stroops at instant `now`, in
/// an empty period.
pub open spec fn is_default_extremes(e: FeeExtremes, now_ms: i64) -> bool {
    &&& e.current_min.value == 100
    &&& e.current_min.timestamp_ms == now_ms
    &&& e.current_min.transaction_hash@ == "unknown"@
    &&& e.current_max.value == 100
    &&& e.current_max.timestamp_ms == now_ms
    &&& e.current_max.transaction_hash@ == "unknown"@
    &&& e.period_start_ms == now_ms
    &&& e.period_end_ms == now_ms
}

/// Recognizes the placeholder average reported while a window has no
/// data: the base fee of 100 stroops, zero samples, partial, over the
/// fallback window named "default".
pub open spec fn is_default_average(a: AverageResult, now_ms: i64) -> bool {
    &&& a.value == (Ratio { num: 100, den: 1 })
    &&& a.sample_count == 0
    &&& a.is_partial
    &&& a.calculated_at_ms == now_ms
    &&& a.time_window.name@ == "default"@
    &&& a.time_window.duration_ms == HOUR_MS
    &&& a.time_window.min_samples == 1
}

/// Central fee-insights engine that orchestrates all analysis.
pub struct FeeInsightsEngine {
    config: InsightsConfig,
    calculator: RollingAverageCalculator,
    tracker: ExtremesTracker,
    detector: CongestionDetector,
    last_update: Option<i64>,
}

impl FeeInsightsEngine {
    /// The engine's configuration.
    pub closed spec fn spec_config(self) -> InsightsConfig {
        self.config
    }

    /// The rolling-average calculator.
    pub closed spec fn spec_calculator(self) -> RollingAverageCalculator {
        self.calculator
    }

    /// The extremes tracker.
    pub closed spec fn spec_tracker(self) -> ExtremesTracker {
        self.tracker
    }

    /// The congestion detector.
    pub closed spec fn spec_detector(self) -> CongestionDetector {
        self.detector
    }

    /// Instant of the last successful update, if any.
    pub closed spec fn spec_last_update(self) -> Option<i64> {
        self.last_update
    }

    /// Structural invariant: configuration and every component
    /// well-formed, the detector configured with the engine's spike
    /// settings, and the last-update instant inside the time model.
    pub closed spec fn wf(self) -> bool {
        &&& self.config.wf()
        &&& self.calculator.wf()
        &&& self.tracker.wf()
        &&& self.detector.wf()
        &&& self.detector.spec_config() == self.config.spike_detection
        &&& match self.last_update {
            Some(t) => 0 <= t <= MAX_TIME_MS,
            None => true,
        }
    }

    /// A well-formed engine has well-formed components.
    pub proof fn lemma_wf_facts(self)
        requires
            self.wf(),
        ensures
            self.spec_config().wf(),
            self.spec_calculator().wf(),
            self.spec_tracker().wf(),
            self.spec_detector().wf(),
            self.spec_detector().spec_config() == self.spec_config().spike_detection,
    {
    }

    /// Create a new fee-insights engine; its first tracking period
    /// starts at `now`.
    pub fn new(config: InsightsConfig, now_ms: i64) -> (r: Self)
        requires
            config.wf(),
            0 <= now_ms <= MAX_TIME_MS,
        ensures
            r.wf(),
            r.spec_config().polling_interval_ms == config.polling_interval_ms,
            r.spec_config().time_windows@ == config.time_windows@,
            r.spec_config().spike_detection == config.spike_detection,
            r.spec_config().storage_retention_ms == config.storage_retention_ms,
            r.spec_last_update() is None,
            r.spec_calculator().win_count() == config.time_windows@.len(),
            forall|i: int|
                0 <= i < config.time_windows@.len()
                    ==> #[trigger] r.spec_calculator().win(i) == config.time_windows@[i],
            forall|i: int|
                0 <= i < config.time_windows@.len()
                    ==> #[trigger] r.spec_calculator().bufview(i) == Seq::<FeeDataPoint>::empty(),
            r.spec_detector().spec_recent() == Seq::<FeeSpike>::empty(),
            r.spec_detector().spec_history() == Seq::<FeeSpike>::empty(),
            r.spec_tracker().spec_current() == fresh_period(now_ms, 86_400_000),
            r.spec_tracker().spec_history().len() == 0,
    {
        let average_config = AverageConfig::default();
        let extremes_config = ExtremesConfig::default();
        let calculator = RollingAverageCalculator::new(average_config, config.time_windows.clone());
        let tracker = ExtremesTracker::new(extremes_config, now_ms);
        let detector = CongestionDetector::new(config.spike_detection);
        let config2 = InsightsConfig {
            polling_interval_ms: config.polling_interval_ms,
            time_windows: config.time_windows,
            spike_detection: config.spike_detection,
            storage_retention_ms: config.storage_retention_ms,
        };
        FeeInsightsEngine { config: config2, calculator, tracker, detector, last_update: None }
    }

    /// Validate a batch of samples at instant `now`. Fails with the
    /// index and reason of the first invalid sample, if any.
    pub fn validate_fee_data(&self, data: &Vec<FeeDataPoint>, now_ms: i64) -> (r: Result<
        (),
        ValidationIssue,
    >)
        requires
            0 <= now_ms <= MAX_TIME_MS,
        ensures
            match r {
                Ok(()) => {
                    &&& all_valid(data@, now_ms)
                    &&& forall|i: int|
                        0 <= i < data@.len() ==> (#[trigger] data@[i]).valid_at(now_ms)
                },
                Err(issue) => {
                    &&& issue.index < data@.len()
                    &&& spec_fault_of(data@[issue.index as int], now_ms) == Some(issue.fault)
                    &&& forall|j: int|
                        0 <= j < issue.index
                            ==> spec_fault_of(#[trigger] data@[j], now_ms) is None
                },
            },
    {
        let mut i: usize = 0;
        while i < data.len()
            invariant
                0 <= i <= data@.len(),
                0 <= now_ms <= MAX_TIME_MS,
                forall|j: int| 0 <= j < i ==> spec_fault_of(#[trigger] data@[j], now_ms) is None,
            decreases data@.len() - i,
        {
            let f = &data[i];
            let fault = if f.fee_amount == 0 {
                Some(ValidationFault::ZeroFee)
            } else if f.fee_amount > MAX_FEE_STROOPS {
                Some(ValidationFault::FeeTooLarge)
            } else if f.transaction_hash.as_str().is_empty() {
                Some(ValidationFault::EmptyTransactionHash)
            } else if f.timestamp_ms > now_ms + HOUR_MS {
                Some(ValidationFault::FutureTimestamp)
            } else if f.timestamp_ms < 0 {
                Some(ValidationFault::NegativeTimestamp)
            } else {
                None
            };
            proof {
                assert(fault == spec_fault_of(data@[i as int], now_ms));
            }
            match fault {
                Some(fault) => {
                    return Err(ValidationIssue { index: i, fault });
                },
                None => {},
            }
            i = i + 1;
        }
        proof {
            assert forall|k: int| 0 <= k < data@.len()
                implies (#[trigger] data@[k]).valid_at(now_ms) by {
                lemma_fault_none_is_valid(data@[k], now_ms);
            }
        }
        Ok(())
    }

    /// Process one batch of fee samples at instant `now` and update
    /// every component.
    ///
    /// An empty batch and a batch with an invalid sample are rejected
    /// as invalid data before any state changes. Otherwise every
    /// sample is fed to the calculator, the batch to the tracker, the
    /// medium-term average becomes this tick's baseline, and the
    /// detector analyzes the batch against it; the call fails after
    /// those updates only when a named window is missing from the
    /// calculator (a configuration error) or the medium-term window is
    /// still empty, leaving no positive baseline (invalid data).
    pub fn process_fee_data(&mut self, data: &Vec<FeeDataPoint>, now_ms: i64) -> (r: Result<
        InsightsUpdate,
        InsightsError,
    >)
        requires
            old(self).wf(),
            0 <= now_ms <= MAX_TIME_MS - HOUR_MS,
        ensures
            final(self).wf(),
            match r {
                Ok(update) => {
                    &&& data@.len() > 0
                    &&& all_valid(data@, now_ms)
                    &&& final(self).spec_last_update() == Some(now_ms)
                    &&& final(self).spec_calculator().win_count()
                        == old(self).spec_calculator().win_count()
                    &&& forall|wi: int|
                        0 <= wi < old(self).spec_calculator().win_count()
                            ==> #[trigger] final(self).spec_calculator().win(wi)
                                == old(self).spec_calculator().win(wi)
                    &&& forall|wi: int|
                        0 <= wi < old(self).spec_calculator().win_count()
                            ==> #[trigger] final(self).spec_calculator().bufview(wi)
                                == calc_buf_feed(
                                old(self).spec_calculator().bufview(wi),
                                data@,
                                old(self).spec_calculator().win(wi),
                                old(self).spec_calculator().spec_buffer_cap(),
                                now_ms,
                            )
                    &&& ({
                        let cal = final(self).spec_calculator();
                        &&& cal.spec_find_window("short_term"@) matches Some(si)
                            && update.insights.rolling_averages.short_term
                                == spec_window_average(cal.bufview(si), cal.win(si), now_ms)
                        &&& cal.spec_find_window("medium_term"@) matches Some(mi)
                            && update.insights.rolling_averages.medium_term
                                == spec_window_average(cal.bufview(mi), cal.win(mi), now_ms)
                        &&& cal.spec_find_window("long_term"@) matches Some(li)
                            && update.insights.rolling_averages.long_term
                                == spec_window_average(cal.bufview(li), cal.win(li), now_ms)
                    })
                    &&& update.insights.rolling_averages.medium_term.value.num > 0
                    &&& update.new_spikes@ == spec_detect(
                        spec_sort_by_time(data@),
                        update.insights.rolling_averages.medium_term.value,
                        old(self).spec_config().spike_detection,
                    )
                    &&& ({
                        let rotated = now_ms >= old(self).spec_tracker().spec_current().period_end_ms;
                        let base = if rotated {
                            fresh_period(
                                now_ms,
                                old(self).spec_tracker().spec_config().tracking_period_ms,
                            )
                        } else {
                            old(self).spec_tracker().spec_current()
                        };
                        final(self).spec_tracker().spec_current() == period_feed(base, data@)
                    })
                    &&& final(self).spec_detector().spec_recent() == ring_after(
                        old(self).spec_detector().spec_recent(),
                        update.new_spikes@,
                        (now_ms - old(self).spec_config().spike_detection.congestion_window_ms) as i64,
                        SPIKE_HISTORY_CAP as int,
                    )
                    &&& final(self).spec_detector().spec_history()
                        == crate::buffer::spec_fifo_push_all(
                        old(self).spec_detector().spec_history(),
                        update.new_spikes@,
                        SPIKE_HISTORY_CAP as int,
                    )
                    &&& update.insights.congestion_trends.current_trend
                        == spec_trend_indicator(final(self).spec_detector().spec_recent())
                    &&& update.insights.congestion_trends.trend_strength
                        == spec_trend_strength(final(self).spec_detector().spec_recent())
                    &&& update.insights.congestion_trends.recent_spikes@
                        == final(self).spec_detector().spec_recent()
                    &&& (match final(self).spec_tracker().spec_current().spec_to_fee_extremes() {
                        Some(e) => update.insights.extremes == e,
                        None => is_default_extremes(update.insights.extremes, now_ms),
                    })
                    &&& update.insights.last_updated_ms == now_ms
                    &&& ({
                        let expected = spec_expected_points(
                            old(self).spec_last_update(),
                            now_ms,
                            old(self).spec_config().polling_interval_ms,
                        );
                        &&& update.insights.data_quality.completeness.den == expected
                        &&& update.insights.data_quality.completeness.num
                            == if data@.len() < expected {
                                data@.len() as int
                            } else {
                                expected
                            }
                    })
                    &&& update.insights.data_quality.freshness_ms as int
                        == (match old(self).spec_last_update() {
                        Some(l) => now_ms - l,
                        None => 0,
                    })
                    &&& update.insights.data_quality.has_gaps == spec_has_gaps(data@, now_ms)
                    &&& update.insights.data_quality.last_gap_ms == if spec_has_gaps(
                        data@,
                        now_ms,
                    ) {
                        Some(now_ms)
                    } else {
                        None
                    }
                    &&& update.data_points_processed == data@.len()
                    &&& update.processing_time_ms == 0
                },
                Err(e) => {
                    &&& final(self).spec_last_update() == old(self).spec_last_update()
                    &&& {
                        ||| (data@.len() == 0 && *final(self) == *old(self)
                            && (e matches InsightsError::InvalidData { message }
                            && message@ == "No fee data provided"@))
                        ||| (!all_valid(data@, now_ms) && *final(self) == *old(self)
                            && (e matches InsightsError::InvalidData { message }
                            && Some(message@) == spec_validation_message(data@, now_ms, 0)))
                        ||| (e is ConfigError && {
                            ||| final(self).spec_calculator().spec_find_window("short_term"@)
                                is None
                            ||| final(self).spec_calculator().spec_find_window("medium_term"@)
                                is None
                            ||| final(self).spec_calculator().spec_find_window("long_term"@)
                                is None
                        })
                        ||| (e is InvalidData && {
                            &&& final(self).spec_calculator().spec_find_window("medium_term"@)
                                matches Some(mi)
                            &&& final(self).spec_calculator().bufview(mi).len() == 0
                        })
                    }
                },
            },
            ({
                let cal0 = old(self).spec_calculator();
                &&& data@.len() > 0
                &&& all_valid(data@, now_ms)
                &&& cal0.spec_find_window("short_term"@) is Some
                &&& cal0.spec_find_window("long_term"@) is Some
                &&& (cal0.spec_find_window("medium_term"@) matches Some(mi)
                    && calc_buf_feed(
                    cal0.bufview(mi),
                    data@,
                    cal0.win(mi),
                    cal0.spec_buffer_cap(),
                    now_ms,
                ).len() > 0)
            }) ==> r is Ok,
    {
        proof {
            self.lemma_wf_facts();
            self.calculator.lemma_wf_facts();
        }
        if data.len() == 0 {
            return Err(InsightsError::invalid_data("No fee data provided".to_owned()));
        }
        match self.validate_fee_data(data, now_ms) {
            Ok(()) => {},
            Err(issue) => {
                let msg = issue.message().concat(" at index ").concat(
                    crate::parse::format_u64(issue.index as u64).as_str(),
                );
                proof {
                    assert(spec_fault_of(data@[issue.index as int], now_ms)
                        == Some(issue.fault));
                    assert(!all_valid(data@, now_ms));
                    lemma_validation_message_at(data@, now_ms, issue.index as int, 0);
                    assert(msg@ == spec_fault_text(issue.fault) + " at index "@
                        + spec_decimal_digits(issue.index as int));
                }
                return Err(InsightsError::invalid_data(msg));
            },
        }
        proof {
            assert(all_arithmetic_ok(data@)) by {
                assert forall|i: int| 0 <= i < data@.len()
                    implies (#[trigger] data@[i]).arithmetic_ok() by {
                    assert(data@[i].valid_at(now_ms));
                }
            }
        }
        let ghost cal0 = self.calculator;
        let ghost cap = self.calculator.spec_buffer_cap();
        proof {
            assert forall|wi: int| 0 <= wi < cal0.win_count()
                implies calc_buf_feed(
                    #[trigger] cal0.bufview(wi),
                    data@.subrange(0, 0),
                    cal0.win(wi),
                    cap,
                    now_ms,
                ) == cal0.bufview(wi) by {
                assert(data@.subrange(0, 0) =~= Seq::<FeeDataPoint>::empty());
            }
        }
        let mut k: usize = 0;
        while k < data.len()
            invariant
                0 <= k <= data@.len(),
                self.calculator.wf(),
                self.config == old(self).config,
                self.tracker == old(self).tracker,
                self.detector == old(self).detector,
                self.last_update == old(self).last_update,
                old(self).wf(),
                all_arithmetic_ok(data@),
                0 <= now_ms <= MAX_TIME_MS,
                cal0 == old(self).spec_calculator(),
                cap == cal0.spec_buffer_cap(),
                self.calculator.win_count() == cal0.win_count(),
                self.calculator.spec_buffer_cap() == cap,
                self.calculator.spec_config() == cal0.spec_config(),
                forall|wi: int|
                    0 <= wi < cal0.win_count()
                        ==> #[trigger] self.calculator.win(wi) == cal0.win(wi),
                forall|wi: int|
                    0 <= wi < cal0.win_count()
                        ==> #[trigger] self.calculator.bufview(wi) == calc_buf_feed(
                            cal0.bufview(wi),
                            data@.subrange(0, k as int),
                            cal0.win(wi),
                            cap,
                            now_ms,
                        ),
            decreases data@.len() - k,
        {
            let ghost pre = self.calculator;
            let point = data[k].clone();
            proof {
                assert(data@[k as int].arithmetic_ok());
            }
            self.calculator.add_data_point(point, now_ms);
            proof {
                assert forall|wi: int| 0 <= wi < cal0.win_count()
                    implies #[trigger] self.calculator.bufview(wi) == calc_buf_feed(
                        cal0.bufview(wi),
                        data@.subrange(0, k + 1 as int),
                        cal0.win(wi),
                        cap,
                        now_ms,
                    ) by {
                    lemma_calc_buf_feed_snoc(
                        cal0.bufview(wi),
                        data@.subrange(0, k as int),
                        data@[k as int],
                        cal0.win(wi),
                        cap,
                        now_ms,
                    );
                    assert(data@.subrange(0, k + 1 as int)
                        =~= data@.subrange(0, k as int).push(data@[k as int]));
                    assert(self.calculator.bufview(wi) == calc_window_step(
                        pre.bufview(wi),
                        data@[k as int],
                        pre.win(wi),
                        cap,
                        now_ms,
                    ));
                }
            }
            k = k + 1;
        }
        proof {
            assert forall|wi: int| 0 <= wi < cal0.win_count()
                implies #[trigger] self.calculator.bufview(wi) == calc_buf_feed(
                    cal0.bufview(wi),
                    data@,
                    cal0.win(wi),
                    cap,
                    now_ms,
                ) by {
                assert(data@.subrange(0, data@.len() as int) =~= data@);
            }
        }
        let tracker_result = self.tracker.update_with_fees(data, now_ms);
        proof {
            assert(tracker_result is Ok);
        }
        let averages = match self.calculator.calculate_averages(now_ms) {
            Ok(a) => a,
            Err(e) => {
                proof {
                    RollingAverageCalculator::lemma_find_window_stable(
                        cal0,
                        self.calculator,
                        "short_term"@,
                    );
                    RollingAverageCalculator::lemma_find_window_stable(
                        cal0,
                        self.calculator,
                        "medium_term"@,
                    );
                    RollingAverageCalculator::lemma_find_window_stable(
                        cal0,
                        self.calculator,
                        "long_term"@,
                    );
                }
                return Err(e);
            },
        };
        let baseline = averages.medium_term.value;
        proof {
            self.calculator.lemma_wf_facts();
            let mi = self.calculator.spec_find_window("medium_term"@)->0;
            assert(averages.medium_term
                == spec_window_average(self.calculator.bufview(mi), self.calculator.win(mi), now_ms));
            let mbuf = self.calculator.bufview(mi);
            assert(0 <= mi < self.calculator.win_count());
            assert(all_arithmetic_ok(mbuf));
            if mbuf.len() == 0 {
                assert(baseline.num == 0);
            } else {
                crate::calculator::lemma_fee_sum_lower(mbuf);
                crate::calculator::lemma_fee_sum_bound(mbuf);
                assert(baseline.num >= mbuf.len());
                assert(baseline.den == mbuf.len());
                assert(mbuf.len() <= 1_000_000_000);
            }
            assert(crate::detector::baseline_ok(baseline));
        }
        let analysis = match self.detector.analyze_congestion(data, &baseline, now_ms) {
            Ok(a) => a,
            Err(e) => {
                proof {
                    let mi = self.calculator.spec_find_window("medium_term"@)->0;
                    assert(self.calculator.bufview(mi).len() == 0);
                    RollingAverageCalculator::lemma_find_window_stable(
                        cal0,
                        self.calculator,
                        "medium_term"@,
                    );
                    assert(self.calculator.bufview(mi) == calc_buf_feed(
                        cal0.bufview(mi),
                        data@,
                        cal0.win(mi),
                        cap,
                        now_ms,
                    ));
                }
                return Err(e);
            },
        };
        let extremes = match self.tracker.get_current_extremes() {
            Ok(e) => e,
            Err(_) => self.create_default_extremes(now_ms),
        };
        let data_quality = self.compute_data_quality(data, now_ms);
        self.last_update = Some(now_ms);
        let insights = CurrentInsights {
            rolling_averages: averages,
            extremes,
            congestion_trends: analysis.trends,
            last_updated_ms: now_ms,
            data_quality,
        };
        Ok(
            InsightsUpdate {
                insights,
                processing_time_ms: 0,
                data_points_processed: data.len(),
                new_spikes: analysis.new_spikes,
            },
        )
    }

    /// The placeholder extremes used while the tracker has no data.
    fn create_default_extremes(&self, now_ms: i64) -> (r: FeeExtremes)
        ensures
            is_default_extremes(r, now_ms),
    {
        let default_min = ExtremeValue {
            value: 100,
            timestamp_ms: now_ms,
            transaction_hash: "unknown".to_owned(),
        };
        let default_max = ExtremeValue {
            value: 100,
            timestamp_ms: now_ms,
            transaction_hash: "unknown".to_owned(),
        };
        FeeExtremes {
            current_min: default_min,
            current_max: default_max,
            period_start_ms: now_ms,
            period_end_ms: now_ms,
        }
    }

    /// Data-quality indicators for one processed batch.
    fn compute_data_quality(&self, data: &Vec<FeeDataPoint>, now_ms: i64) -> (r: DataQuality)
        requires
            self.wf(),
            0 <= now_ms <= MAX_TIME_MS,
            all_arithmetic_ok(data@),
        ensures
            ({
                let expected = spec_expected_points(
                    self.spec_last_update(),
                    now_ms,
                    self.spec_config().polling_interval_ms,
                );
                &&& r.completeness.den == expected
                &&& r.completeness.num == if data@.len() < expected {
                    data@.len() as int
                } else {
                    expected
                }
            }),
            r.freshness_ms as int == (match self.spec_last_update() {
                Some(l) => now_ms - l,
                None => 0,
            }),
            r.has_gaps == spec_has_gaps(data@, now_ms),
            r.last_gap_ms == if spec_has_gaps(data@, now_ms) {
                Some(now_ms)
            } else {
                None
            },
    {
        let expected: i64 = match self.last_update {
            None => 1,
            Some(l) => {
                let d = now_ms - l;
                if d <= 0 {
                    1
                } else {
                    let q = d / self.config.polling_interval_ms;
                    if q < 1 {
                        1
                    } else {
                        q
                    }
                }
            },
        };
        let num: i64 = if (data.len() as u64) < (expected as u64) {
            data.len() as i64
        } else {
            expected
        };
        let completeness = Ratio { num, den: expected as u64 };
        let freshness_ms: i64 = match self.last_update {
            Some(l) => now_ms - l,
            None => 0,
        };
        let mut has_gaps = false;
        let mut i: usize = 0;
        while i < data.len()
            invariant
                0 <= i <= data@.len(),
                0 <= now_ms <= MAX_TIME_MS,
                all_arithmetic_ok(data@),
                has_gaps == spec_has_gaps(data@.subrange(0, i as int), now_ms),
            decreases data@.len() - i,
        {
            let ghost prefix = data@.subrange(0, i as int);
            proof {
                assert(data@[i as int].arithmetic_ok());
            }
            if now_ms - data[i].timestamp_ms > 3_600_000 {
                has_gaps = true;
            }
            proof {
                assert(data@.subrange(0, i + 1 as int)
                    =~= prefix.push(data@[i as int]));
                assert forall|j: int| 0 <= j < prefix.len()
                    implies #[trigger] data@.subrange(0, i + 1 as int)[j] == prefix[j] by {}
                if has_gaps {
                    if now_ms - data@[i as int].timestamp_ms > HOUR_MS {
                        assert(data@.subrange(0, i + 1 as int)[i as int] == data@[i as int]);
                        assert(spec_has_gaps(data@.subrange(0, i + 1 as int), now_ms));
                    } else {
                        let w = choose|w: int|
                            0 <= w < prefix.len() && now_ms - (#[trigger] prefix[w]).timestamp_ms
                                > HOUR_MS;
                        assert(data@.subrange(0, i + 1 as int)[w] == prefix[w]);
                        assert(spec_has_gaps(data@.subrange(0, i + 1 as int), now_ms));
                    }
                } else {
                    assert forall|w: int| 0 <= w < i + 1
                        implies now_ms - (#[trigger] data@.subrange(0, i + 1 as int)[w]).timestamp_ms
                            <= HOUR_MS by {
                        if w < i {
                            assert(data@.subrange(0, i + 1 as int)[w] == prefix[w]);
                            assert(!(now_ms - prefix[w].timestamp_ms > HOUR_MS));
                        } else {
                            assert(data@.subrange(0, i + 1 as int)[w] == data@[i as int]);
                        }
                    }
                }
            }
            i = i + 1;
        }
        proof {
            assert(data@.subrange(0, data@.len() as int) =~= data@);
        }
        let last_gap_ms = if has_gaps {
            Some(now_ms)
        } else {
            None
        };
        DataQuality { completeness, freshness_ms, has_gaps, last_gap_ms }
    }

    /// The engine's configuration.
    pub fn get_config(&self) -> (r: &InsightsConfig)
        ensures
            r == self.spec_config(),
    {
        &self.config
    }

    /// Instant of the last successful update, if any.
    pub fn get_last_update(&self) -> (r: Option<i64>)
        ensures
            r == self.spec_last_update(),
    {
        self.last_update
    }

    /// The placeholder averages reported while no window average is
    /// available.
    fn create_default_rolling_averages(&self, now_ms: i64) -> (r: RollingAverages)
        ensures
            is_default_average(r.short_term, now_ms),
            is_default_average(r.medium_term, now_ms),
            is_default_average(r.long_term, now_ms),
    {
        let short_term = default_average(now_ms);
        let medium_term = default_average(now_ms);
        let long_term = default_average(now_ms);
        RollingAverages { short_term, medium_term, long_term }
    }

    /// Best-effort rolling averages: the current window averages, or
    /// the placeholder when a named window is missing.
    pub fn get_rolling_averages(&self, now_ms: i64) -> (r: RollingAverages)
        requires
            self.wf(),
        ensures
            ({
                let cal = self.spec_calculator();
                if cal.spec_find_window("short_term"@) is Some
                    && cal.spec_find_window("medium_term"@) is Some
                    && cal.spec_find_window("long_term"@) is Some {
                    &&& r.short_term == spec_window_average(
                        cal.bufview(cal.spec_find_window("short_term"@)->0),
                        cal.win(cal.spec_find_window("short_term"@)->0),
                        now_ms,
                    )
                    &&& r.medium_term == spec_window_average(
                        cal.bufview(cal.spec_find_window("medium_term"@)->0),
                        cal.win(cal.spec_find_window("medium_term"@)->0),
                        now_ms,
                    )
                    &&& r.long_term == spec_window_average(
                        cal.bufview(cal.spec_find_window("long_term"@)->0),
                        cal.win(cal.spec_find_window("long_term"@)->0),
                        now_ms,
                    )
                } else {
                    &&& is_default_average(r.short_term, now_ms)
                    &&& is_default_average(r.medium_term, now_ms)
                    &&& is_default_average(r.long_term, now_ms)
                }
            }),
    {
        match self.calculator.calculate_averages(now_ms) {
            Ok(a) => a,
            Err(_) => self.create_default_rolling_averages(now_ms),
        }
    }

    /// Best-effort extremes: the current period's, or the placeholder
    /// while the period has no data.
    pub fn get_extremes(&self, now_ms: i64) -> (r: FeeExtremes)
        ensures
            match self.spec_tracker().spec_current().spec_to_fee_extremes() {
                Some(e) => r == e,
                None => is_default_extremes(r, now_ms),
            },
    {
        match self.tracker.get_current_extremes() {
            Ok(e) => e,
            Err(_) => self.create_default_extremes(now_ms),
        }
    }

    /// Best-effort congestion view: the stored recent spikes and
    /// their strength, with a normal trend and no prediction.
    pub fn get_congestion_trends(&self) -> (r: CongestionTrends)
        requires
            self.wf(),
        ensures
            r.current_trend is Normal,
            r.recent_spikes@ == self.spec_detector().spec_recent(),
            r.trend_strength == spec_trend_strength(self.spec_detector().spec_recent()),
            r.predicted_duration_min is None,
    {
        CongestionTrends {
            current_trend: TrendIndicator::Normal,
            recent_spikes: self.detector.get_recent_spikes(),
            trend_strength: self.detector.calculate_trend_strength(),
            predicted_duration_min: None,
        }
    }

    /// A best-effort snapshot of the engine's current state: window
    /// averages (or placeholders), current extremes (or placeholders),
    /// the recent spikes with their strength, and nominal data
    /// quality. Never fails.
    pub fn get_current_insights(&self, now_ms: i64) -> (r: CurrentInsights)
        requires
            self.wf(),
        ensures
            ({
                let cal = self.spec_calculator();
                if cal.spec_find_window("short_term"@) is Some
                    && cal.spec_find_window("medium_term"@) is Some
                    && cal.spec_find_window("long_term"@) is Some {
                    &&& r.rolling_averages.short_term == spec_window_average(
                        cal.bufview(cal.spec_find_window("short_term"@)->0),
                        cal.win(cal.spec_find_window("short_term"@)->0),
                        now_ms,
                    )
                    &&& r.rolling_averages.medium_term == spec_window_average(
                        cal.bufview(cal.spec_find_window("medium_term"@)->0),
                        cal.win(cal.spec_find_window("medium_term"@)->0),
                        now_ms,
                    )
                    &&& r.rolling_averages.long_term == spec_window_average(
                        cal.bufview(cal.spec_find_window("long_term"@)->0),
                        cal.win(cal.spec_find_window("long_term"@)->0),
                        now_ms,
                    )
                } else {
                    &&& is_default_average(r.rolling_averages.short_term, now_ms)
                    &&& is_default_average(r.rolling_averages.medium_term, now_ms)
                    &&& is_default_average(r.rolling_averages.long_term, now_ms)
                }
            }),
            (match self.spec_tracker().spec_current().spec_to_fee_extremes() {
                Some(e) => r.extremes == e,
                None => is_default_extremes(r.extremes, now_ms),
            }),
            r.congestion_trends.current_trend is Normal,
            r.congestion_trends.recent_spikes@ == self.spec_detector().spec_recent(),
            r.congestion_trends.trend_strength
                == spec_trend_strength(self.spec_detector().spec_recent()),
            r.congestion_trends.predicted_duration_min is None,
            r.last_updated_ms == (match self.spec_last_update() {
                Some(t) => t,
                None => now_ms,
            }),
            r.data_quality.completeness == (Ratio { num: 1, den: 1 }),
            r.data_quality.freshness_ms == 0,
            !r.data_quality.has_gaps,
            r.data_quality.last_gap_ms is None,
    {
        let rolling_averages = self.get_rolling_averages(now_ms);
        let extremes = self.get_extremes(now_ms);
        let congestion_trends = self.get_congestion_trends();
        let data_quality = DataQuality {
            completeness: Ratio { num: 1, den: 1 },
            freshness_ms: 0,
            has_gaps: false,
            last_gap_ms: None,
        };
        let last_updated_ms = match self.last_update {
            Some(t) => t,
            None => now_ms,
        };
        CurrentInsights {
            rolling_averages,
            extremes,
            congestion_trends,
            last_updated_ms,
            data_quality,
        }
    }

    /// Reset every component and clear the last-update instant; the
    /// fresh tracking period starts at `now`.
    pub fn reset(&mut self, now_ms: i64) -> (r: Result<(), InsightsError>)
        requires
            old(self).wf(),
            0 <= now_ms <= MAX_TIME_MS,
        ensures
            r is Ok,
            final(self).wf(),
            final(self).spec_config() == old(self).spec_config(),
            final(self).spec_last_update() is None,
            forall|i: int|
                0 <= i < final(self).spec_calculator().win_count()
                    ==> #[trigger] final(self).spec_calculator().bufview(i)
                        == Seq::<FeeDataPoint>::empty(),
            final(self).spec_calculator().win_count()
                == old(self).spec_config().time_windows@.len(),
            final(self).spec_detector().spec_recent() == Seq::<FeeSpike>::empty(),
            final(self).spec_detector().spec_history() == Seq::<FeeSpike>::empty(),
            final(self).spec_tracker().spec_current().min_value is None,
            final(self).spec_tracker().spec_current().max_value is None,
    {
        let average_config = AverageConfig::default();
        self.calculator = RollingAverageCalculator::new(
            average_config,
            self.config.time_windows.clone(),
        );
        let extremes_config = ExtremesConfig::default();
        self.tracker = ExtremesTracker::new(extremes_config, now_ms);
        self.detector.clear_history();
        self.last_update = None;
        Ok(())
    }
}

/// The placeholder average: the base fee of 100 stroops over the
/// fallback window.
fn default_average(now_ms: i64) -> (r: AverageResult)
    ensures
        is_default_average(r, now_ms),
{
    AverageResult {
        value: Ratio { num: 100, den: 1 },
        sample_count: 0,
        is_partial: true,
        calculated_at_ms: now_ms,
        time_window: TimeWindow {
            name: "default".to_owned(),
            duration_ms: 3_600_000,
            min_samples: 1,
        },
    }
}

} // verus!

