//! Congestion detection through fee-spike analysis.
//!
//! Spike extraction sweeps time-ordered samples against a baseline: a
//! run of samples at or above `baseline * threshold` forms a candidate
//! spike, which is emitted when its duration reaches the configured
//! minimum. Detected spikes feed a bounded ring of recent spikes from
//! which the congestion trend, its strength, and a duration prediction
//! are derived.
//!
//! The threshold multiplier is an exact rational `threshold_num /
//! threshold_den`. Trend comparisons over spikes with unrelated
//! baselines are made at per-mille precision: each spike ratio is
//! scaled by 1000 and rounded down before averaging.

use vstd::prelude::*;
use crate::buffer::{spec_fifo_push, CircularBuffer};
use crate::errors::InsightsError;
use crate::ratio::Ratio;
use crate::sort::{sort_by_time, spec_sort_by_time, time_sorted};
use crate::types::{
    all_arithmetic_ok, CongestionTrends, FeeDataPoint, FeeSpike, SpikeSeverity, TrendIndicator,
    TrendStrength, MAX_TIME_MS,
};

verus! {

/// Most spikes the recent ring and the total history each retain.
pub const SPIKE_HISTORY_CAP: usize = 1000;

/// Configuration for spike detection.
#[derive(Clone, Copy, Debug)]
pub struct SpikeConfig {
    /// Numerator of the spike threshold multiplier.
    pub threshold_num: u32,
    /// Denominator of the spike threshold multiplier.
    pub threshold_den: u32,
    /// A candidate spike must last at least this long to be emitted.
    pub minimum_spike_duration_ms: i64,
    /// Spikes younger than this window count as recent.
    pub congestion_window_ms: i64,
}

impl SpikeConfig {
    /// A usable configuration: a positive multiplier with bounded
    /// terms, and periods inside the supported time model.
    pub open spec fn wf(self) -> bool {
        &&& 1 <= self.threshold_num <= 1_000_000
        &&& 1 <= self.threshold_den <= 1_000
        &&& 0 <= self.minimum_spike_duration_ms <= MAX_TIME_MS
        &&& 0 < self.congestion_window_ms <= MAX_TIME_MS
    }
}

impl Default for SpikeConfig {
    /// The default: double the baseline, five minutes minimum
    /// duration, a one-hour congestion window.
    fn default() -> (r: Self)
        ensures
            r.threshold_num == 2 && r.threshold_den == 1,
            r.minimum_spike_duration_ms == 300_000,
            r.congestion_window_ms == 3_600_000,
            r.wf(),
    {
        SpikeConfig {
            threshold_num: 2,
            threshold_den: 1,
            minimum_spike_duration_ms: 300_000,
            congestion_window_ms: 3_600_000,
        }
    }
}

/// A baseline the detector accepts: well-formed with a denominator
/// small enough that `peak * den` fits a ratio numerator. Baselines
/// produced by the calculator (a fee sum over a sample count) satisfy
/// this.
pub open spec fn baseline_ok(b: Ratio) -> bool {
    &&& b.wf()
    &&& 1 <= b.den <= 1_000_000_000
}

/// Whether a fee reaches `baseline * threshold`, stated without
/// division: fee * b.den * t_den >= b.num * t_num.
pub open spec fn above_threshold(fee: u64, b: Ratio, cfg: SpikeConfig) -> bool {
    (fee as int) * (b.den as int) * (cfg.threshold_den as int)
        >= (b.num as int) * (cfg.threshold_num as int)
}

/// Severity of a spike ratio per the classification table:
/// below 3 Minor, [3, 5) Moderate, [5, 10) Major, 10 and above
/// Critical.
pub open spec fn spec_classify(r: Ratio) -> SpikeSeverity {
    if r.num >= 10 * r.den {
        SpikeSeverity::Critical
    } else if r.num >= 5 * r.den {
        SpikeSeverity::Major
    } else if r.num >= 3 * r.den {
        SpikeSeverity::Moderate
    } else {
        SpikeSeverity::Minor
    }
}

/// The exact ratio `peak / baseline`: (peak * b.den) / b.num.
pub open spec fn spec_ratio_of(peak: u64, b: Ratio) -> Ratio {
    Ratio { num: (peak * b.den) as i64, den: b.num as u64 }
}

/// A fresh candidate spike opened at sample `f`.
pub open spec fn spec_open_spike(f: FeeDataPoint, b: Ratio, cfg: SpikeConfig) -> FeeSpike {
    FeeSpike {
        peak_fee: f.fee_amount,
        baseline_fee: b,
        spike_ratio: spec_ratio_of(f.fee_amount, b),
        start_time_ms: f.timestamp_ms,
        duration_ms: 0,
        severity: spec_classify(spec_ratio_of(f.fee_amount, b)),
    }
}

/// State of the sweep: spikes emitted so far and the open candidate.
pub struct SweepState {
    pub spikes: Seq<FeeSpike>,
    pub open_spike: Option<FeeSpike>,
}

/// One sample folded into the sweep. An above-threshold sample opens
/// or extends the candidate (raising its peak when higher and
/// stretching its duration to the sample); a below-threshold sample
/// closes the candidate, which is emitted when its duration reaches
/// the minimum.
pub open spec fn sweep_step(st: SweepState, f: FeeDataPoint, b: Ratio, cfg: SpikeConfig) -> SweepState {
    if above_threshold(f.fee_amount, b, cfg) {
        match st.open_spike {
            None => SweepState { spikes: st.spikes, open_spike: Some(spec_open_spike(f, b, cfg)) },
            Some(sp) => {
                let sp1 = if f.fee_amount > sp.peak_fee {
                    FeeSpike {
                        peak_fee: f.fee_amount,
                        spike_ratio: spec_ratio_of(f.fee_amount, b),
                        severity: spec_classify(spec_ratio_of(f.fee_amount, b)),
                        ..sp
                    }
                } else {
                    sp
                };
                let sp2 = FeeSpike {
                    duration_ms: (f.timestamp_ms - sp.start_time_ms) as i64,
                    ..sp1
                };
                SweepState { spikes: st.spikes, open_spike: Some(sp2) }
            },
        }
    } else {
        match st.open_spike {
            None => st,
            Some(sp) => {
                let closed = FeeSpike {
                    duration_ms: (f.timestamp_ms - sp.start_time_ms) as i64,
                    ..sp
                };
                SweepState {
                    spikes: if closed.duration_ms >= cfg.minimum_spike_duration_ms {
                        st.spikes.push(closed)
                    } else {
                        st.spikes
                    },
                    open_spike: None,
                }
            },
        }
    }
}

/// The sweep folded over a whole sequence of samples.
pub open spec fn sweep_fold(st: SweepState, s: Seq<FeeDataPoint>, b: Ratio, cfg: SpikeConfig) -> SweepState
    decreases s.len(),
{
    if s.len() == 0 {
        st
    } else {
        sweep_fold(sweep_step(st, s[0], b, cfg), s.drop_first(), b, cfg)
    }
}

/// Spikes detected in the time-ordered sample sequence `s`: the sweep
/// result, with a still-open candidate closed at the last sample's
/// timestamp and emitted when long enough.
pub open spec fn spec_detect(s: Seq<FeeDataPoint>, b: Ratio, cfg: SpikeConfig) -> Seq<FeeSpike> {
    let fin = sweep_fold(
        SweepState { spikes: Seq::empty(), open_spike: None },
        s,
        b,
        cfg,
    );
    match fin.open_spike {
        None => fin.spikes,
        Some(sp) => {
            let closed = FeeSpike {
                duration_ms: (s.last().timestamp_ms - sp.start_time_ms) as i64,
                ..sp
            };
            if closed.duration_ms >= cfg.minimum_spike_duration_ms {
                fin.spikes.push(closed)
            } else {
                fin.spikes
            }
        },
    }
}

/// A spike whose fields are internally consistent against baseline `b`
/// and configuration `cfg`: the ratio is exactly peak over baseline,
/// the severity matches the ratio, the peak reaches the threshold, and
/// the magnitudes lie in range.
pub open spec fn spike_consistent(sp: FeeSpike, b: Ratio, cfg: SpikeConfig) -> bool {
    &&& sp.baseline_fee == b
    &&& sp.spike_ratio == spec_ratio_of(sp.peak_fee, b)
    &&& sp.severity == spec_classify(sp.spike_ratio)
    &&& above_threshold(sp.peak_fee, b, cfg)
    &&& 1 <= sp.peak_fee <= 1_000_000_000
    &&& 0 <= sp.start_time_ms <= MAX_TIME_MS
    &&& 0 <= sp.duration_ms <= MAX_TIME_MS
}

/// Bounds needed to do trend arithmetic on a stored spike.
pub open spec fn spike_arith_ok(sp: FeeSpike) -> bool {
    &&& sp.spike_ratio.wf()
    &&& sp.spike_ratio.num >= 0
    &&& 0 <= sp.duration_ms <= MAX_TIME_MS
}

/// Every spike of `s` satisfies `spike_arith_ok`.
pub open spec fn all_spikes_arith_ok(s: Seq<FeeSpike>) -> bool {
    forall|i: int| 0 <= i < s.len() ==> spike_arith_ok(#[trigger] s[i])
}

/// A consistent spike supports trend arithmetic.
pub proof fn lemma_consistent_spike_arith_ok(sp: FeeSpike, b: Ratio, cfg: SpikeConfig)
    requires
        spike_consistent(sp, b, cfg),
        baseline_ok(b),
        b.num > 0,
    ensures
        spike_arith_ok(sp),
{
    assert((sp.peak_fee as int) * (b.den as int) <= 1_000_000_000 * (b.den as int))
        by (nonlinear_arith)
        requires
            1 <= sp.peak_fee <= 1_000_000_000,
            b.den >= 1,
    ;
    assert(1_000_000_000 * (b.den as int) <= 1_000_000_000_000_000_000);
}

/// Every spike that `spec_detect` emits over a time-ordered sample
/// sequence reaches the threshold, lasts at least the configured
/// minimum, carries the exact ratio of its peak over the baseline, and
/// is classified by that ratio. This is the detector's emission
/// guarantee.
pub proof fn lemma_detect_spikes_sound(s: Seq<FeeDataPoint>, b: Ratio, cfg: SpikeConfig)
    requires
        time_sorted(s),
        all_arithmetic_ok(s),
        baseline_ok(b),
        b.num > 0,
        cfg.wf(),
    ensures
        forall|k: int|
            0 <= k < spec_detect(s, b, cfg).len() ==> {
                let sp = #[trigger] spec_detect(s, b, cfg)[k];
                &&& spike_consistent(sp, b, cfg)
                &&& sp.duration_ms >= cfg.minimum_spike_duration_ms
            },
{
    let st0 = SweepState { spikes: Seq::empty(), open_spike: None };
    lemma_sweep_fold_sound(st0, s, b, cfg);
    let fin = sweep_fold(st0, s, b, cfg);
    match fin.open_spike {
        Some(sp) => {
            assert(s.len() > 0);
            assert(s[s.len() - 1].arithmetic_ok());
            assert(0 <= s.last().timestamp_ms - sp.start_time_ms <= MAX_TIME_MS);
        },
        None => {},
    }
}

/// The sweep preserves its invariant over any time-ordered suffix.
proof fn lemma_sweep_fold_sound(st: SweepState, s: Seq<FeeDataPoint>, b: Ratio, cfg: SpikeConfig)
    requires
        time_sorted(s),
        all_arithmetic_ok(s),
        baseline_ok(b),
        b.num > 0,
        cfg.wf(),
        sweep_inv_start(st, b, cfg),
        match st.open_spike {
            Some(sp) => s.len() > 0 ==> sp.start_time_ms <= s[0].timestamp_ms,
            None => true,
        },
    ensures
        ({
            let fin = sweep_fold(st, s, b, cfg);
            &&& (forall|k: int|
                0 <= k < fin.spikes.len() ==> {
                    let sp = #[trigger] fin.spikes[k];
                    &&& spike_consistent(sp, b, cfg)
                    &&& sp.duration_ms >= cfg.minimum_spike_duration_ms
                })
            &&& match fin.open_spike {
                Some(sp) => {
                    &&& spike_consistent(sp, b, cfg)
                    &&& s.len() > 0 ==> sp.start_time_ms <= s.last().timestamp_ms
                    &&& st.open_spike is None ==> s.len() > 0
                },
                None => true,
            }
        }),
    decreases s.len(),
{
    if s.len() > 0 {
        let f = s[0];
        assert(f.arithmetic_ok());
        let st1 = sweep_step(st, f, b, cfg);
        if above_threshold(f.fee_amount, b, cfg) {
            match st.open_spike {
                None => {
                    lemma_open_spike_consistent(f, b, cfg);
                },
                Some(sp) => {
                    if f.fee_amount > sp.peak_fee {
                        lemma_open_spike_consistent(f, b, cfg);
                    }
                    assert(0 <= f.timestamp_ms - sp.start_time_ms <= MAX_TIME_MS);
                },
            }
        } else {
            match st.open_spike {
                Some(sp) => {
                    assert(0 <= f.timestamp_ms - sp.start_time_ms <= MAX_TIME_MS);
                },
                None => {},
            }
        }
        assert(time_sorted(s.drop_first()) && all_arithmetic_ok(s.drop_first())) by {
            assert(forall|j: int|
                0 <= j < s.drop_first().len() ==> #[trigger] s.drop_first()[j] == s[j + 1]);
        }
        match st1.open_spike {
            Some(sp1) => {
                if s.drop_first().len() > 0 {
                    assert(s.drop_first()[0] == s[1]);
                    assert(crate::sort::time_le(s[0], s[1]));
                }
            },
            None => {},
        }
        lemma_sweep_fold_sound(st1, s.drop_first(), b, cfg);
        if s.drop_first().len() > 0 {
            assert(s.drop_first().last() == s.last());
        }
    }
}

/// The part of the sweep invariant that does not mention the samples.
pub open spec fn sweep_inv_start(st: SweepState, b: Ratio, cfg: SpikeConfig) -> bool {
    &&& (forall|k: int|
        0 <= k < st.spikes.len() ==> {
            let sp = #[trigger] st.spikes[k];
            &&& spike_consistent(sp, b, cfg)
            &&& sp.duration_ms >= cfg.minimum_spike_duration_ms
        })
    &&& match st.open_spike {
        Some(sp) => spike_consistent(sp, b, cfg),
        None => true,
    }
}

/// A spike opened at an in-range sample is consistent.
proof fn lemma_open_spike_consistent(f: FeeDataPoint, b: Ratio, cfg: SpikeConfig)
    requires
        f.arithmetic_ok(),
        baseline_ok(b),
        b.num > 0,
        above_threshold(f.fee_amount, b, cfg),
    ensures
        spike_consistent(spec_open_spike(f, b, cfg), b, cfg),
        spec_ratio_of(f.fee_amount, b).wf(),
{
    lemma_ratio_of_wf(f.fee_amount, b);
}

/// The ratio of an in-range peak over an accepted baseline is
/// well-formed.
pub proof fn lemma_ratio_of_wf(peak: u64, b: Ratio)
    requires
        1 <= peak <= 1_000_000_000,
        baseline_ok(b),
        b.num > 0,
    ensures
        spec_ratio_of(peak, b).wf(),
        spec_ratio_of(peak, b).num >= 1,
        spec_ratio_of(peak, b).num == (peak as int) * (b.den as int),
{
    assert(1 <= (peak as int) * (b.den as int) <= 1_000_000_000_000_000_000)
        by (nonlinear_arith)
        requires
            1 <= peak <= 1_000_000_000,
            1 <= b.den <= 1_000_000_000,
    ;
}

/// Whether `fee` reaches `baseline * threshold`.
fn above_threshold_exec(fee: u64, b: &Ratio, cfg: &SpikeConfig) -> (r: bool)
    requires
        1 <= fee <= 1_000_000_000,
        baseline_ok(*b),
        cfg.wf(),
    ensures
        r == above_threshold(fee, *b, *cfg),
{
    proof {
        assert(0 <= (fee as int) * (b.den as int) <= 1_000_000_000_000_000_000)
            by (nonlinear_arith)
            requires
                1 <= fee <= 1_000_000_000,
                1 <= b.den <= 1_000_000_000,
        ;
        assert((fee as int) * (b.den as int) * (cfg.threshold_den as int)
            <= 1_000_000_000_000_000_000 * 1_000int) by (nonlinear_arith)
            requires
                1 <= fee <= 1_000_000_000,
                1 <= b.den <= 1_000_000_000,
                1 <= cfg.threshold_den <= 1_000,
        ;
        assert((fee as int) * (b.den as int) * (cfg.threshold_den as int) >= 0)
            by (nonlinear_arith)
            requires
                fee >= 1,
                b.den >= 1,
                cfg.threshold_den >= 1,
        ;
        assert(-1_000_000_000_000_000_000 * 1_000_000int
            <= (b.num as int) * (cfg.threshold_num as int)
            <= 1_000_000_000_000_000_000 * 1_000_000int) by (nonlinear_arith)
            requires
                -1_000_000_000_000_000_000 <= b.num <= 1_000_000_000_000_000_000,
                1 <= cfg.threshold_num <= 1_000_000,
        ;
    }
    let lhs: i128 = (fee as i128) * (b.den as i128) * (cfg.threshold_den as i128);
    let rhs: i128 = (b.num as i128) * (cfg.threshold_num as i128);
    lhs >= rhs
}

/// The exact ratio `peak / baseline`.
fn ratio_of_exec(peak: u64, b: &Ratio) -> (r: Ratio)
    requires
        1 <= peak <= 1_000_000_000,
        baseline_ok(*b),
        b.num > 0,
    ensures
        r == spec_ratio_of(peak, *b),
        r.wf(),
{
    proof {
        lemma_ratio_of_wf(peak, *b);
    }
    Ratio { num: (peak * b.den) as i64, den: b.num as u64 }
}

/// The ring with every spike that started before `cutoff` removed,
/// wherever it sits; the surviving spikes keep their order.
pub open spec fn ring_clean(s: Seq<FeeSpike>, cutoff_ms: i64) -> Seq<FeeSpike>
    decreases s.len(),
{
    if s.len() == 0 {
        Seq::empty()
    } else {
        let prev = ring_clean(s.drop_last(), cutoff_ms);
        if s.last().start_time_ms >= cutoff_ms {
            prev.push(s.last())
        } else {
            prev
        }
    }
}

/// Every spike a cleaned ring retains started at or after the cutoff.
pub proof fn lemma_ring_clean_within(s: Seq<FeeSpike>, cutoff_ms: i64)
    ensures
        forall|k: int|
            0 <= k < ring_clean(s, cutoff_ms).len()
                ==> (#[trigger] ring_clean(s, cutoff_ms)[k]).start_time_ms >= cutoff_ms,
    decreases s.len(),
{
    if s.len() > 0 {
        lemma_ring_clean_within(s.drop_last(), cutoff_ms);
    }
}

/// New spikes folded into the ring one by one: each is appended (the
/// oldest evicted when the ring is full) and stale spikes are then
/// removed from the front.
pub open spec fn ring_add_all(
    s: Seq<FeeSpike>,
    new: Seq<FeeSpike>,
    cutoff_ms: i64,
    cap: int,
) -> Seq<FeeSpike>
    decreases new.len(),
{
    if new.len() == 0 {
        s
    } else {
        ring_add_all(
            ring_clean(spec_fifo_push(s, new[0], cap), cutoff_ms),
            new.drop_first(),
            cutoff_ms,
            cap,
        )
    }
}

/// The recent ring after one analysis call: the new spikes folded in,
/// then a final cleaning pass.
pub open spec fn ring_after(
    s: Seq<FeeSpike>,
    new: Seq<FeeSpike>,
    cutoff_ms: i64,
    cap: int,
) -> Seq<FeeSpike> {
    ring_clean(ring_add_all(s, new, cutoff_ms, cap), cutoff_ms)
}

/// Cleaning spikes that all support arithmetic keeps that property.
pub proof fn lemma_ring_clean_ok(s: Seq<FeeSpike>, cutoff_ms: i64)
    requires
        all_spikes_arith_ok(s),
    ensures
        all_spikes_arith_ok(ring_clean(s, cutoff_ms)),
        ring_clean(s, cutoff_ms).len() <= s.len(),
    decreases s.len(),
{
    if s.len() > 0 {
        assert(all_spikes_arith_ok(s.drop_last())) by {
            assert(forall|i: int|
                0 <= i < s.drop_last().len() ==> #[trigger] s.drop_last()[i] == s[i]);
        }
        lemma_ring_clean_ok(s.drop_last(), cutoff_ms);
        assert(s.last() == s[s.len() - 1]);
    }
}

/// A FIFO push of an arithmetic-ready spike keeps the ring
/// arithmetic-ready.
pub proof fn lemma_fifo_push_spike_ok(s: Seq<FeeSpike>, x: FeeSpike, cap: int)
    requires
        cap >= 1,
        all_spikes_arith_ok(s),
        spike_arith_ok(x),
    ensures
        all_spikes_arith_ok(spec_fifo_push(s, x, cap)),
{
    let t = spec_fifo_push(s, x, cap);
    assert forall|i: int| 0 <= i < t.len() implies spike_arith_ok(#[trigger] t[i]) by {
        if s.len() >= cap {
            let d = s.drop_first();
            assert(t == d.push(x));
            if i < t.len() - 1 {
                assert(t[i] == d[i]);
                assert(d[i] == s[i + 1]);
            } else {
                assert(t[i] == x);
            }
        } else {
            assert(t == s.push(x));
            if i < t.len() - 1 {
                assert(t[i] == s[i]);
            } else {
                assert(t[i] == x);
            }
        }
    }
}

/// Doubled trend-strength score of a spike sequence: the sum of the
/// doubled severity weights plus one point per spike (the halved count
/// bonus, doubled).
pub open spec fn spec_score2(s: Seq<FeeSpike>) -> int
    decreases s.len(),
{
    if s.len() == 0 {
        0
    } else {
        spec_score2(s.drop_last()) + s.last().severity.spec_weight2() + 1
    }
}

/// Trend strength from the doubled score: 20 or more is Strong
/// (score 10), 8 or more is Moderate (score 4), anything else Weak.
pub open spec fn spec_trend_strength(s: Seq<FeeSpike>) -> TrendStrength {
    let sc = spec_score2(s);
    if sc >= 20 {
        TrendStrength::Strong
    } else if sc >= 8 {
        TrendStrength::Moderate
    } else {
        TrendStrength::Weak
    }
}

/// Sum of the per-mille spike ratios of a sequence.
pub open spec fn spec_milli_sum(s: Seq<FeeSpike>) -> int
    decreases s.len(),
{
    if s.len() == 0 {
        0
    } else {
        spec_milli_sum(s.drop_last()) + s.last().spike_ratio.spec_milli()
    }
}

/// Congestion trend of the recent ring. With three or more spikes the
/// mean per-mille ratio of the newest two is compared against the mean
/// of the older ones: more than 1.2 times it is Rising, less than 0.8
/// times it is Declining, otherwise Congested. With one or two spikes
/// the latest severity decides: Major or Critical is Congested,
/// anything else Rising. An empty ring is Normal.
pub open spec fn spec_trend_indicator(s: Seq<FeeSpike>) -> TrendIndicator {
    if s.len() == 0 {
        TrendIndicator::Normal
    } else if s.len() >= 3 {
        let n = s.len() as int;
        let recent2 = s[n - 1].spike_ratio.spec_milli() + s[n - 2].spike_ratio.spec_milli();
        let older = spec_milli_sum(s.subrange(0, n - 2));
        if 5 * recent2 * (n - 2) > 12 * older {
            TrendIndicator::Rising
        } else if 5 * recent2 * (n - 2) < 8 * older {
            TrendIndicator::Declining
        } else {
            TrendIndicator::Congested
        }
    } else {
        match s[s.len() - 1].severity {
            SpikeSeverity::Major => TrendIndicator::Congested,
            SpikeSeverity::Critical => TrendIndicator::Congested,
            _ => TrendIndicator::Rising,
        }
    }
}

/// Sum of the whole-minute durations of a spike sequence.
pub open spec fn spec_minutes_sum(s: Seq<FeeSpike>) -> int
    decreases s.len(),
{
    if s.len() == 0 {
        0
    } else {
        spec_minutes_sum(s.drop_last()) + s.last().duration_ms / 60_000
    }
}

/// Predicted congestion duration in minutes: the mean whole-minute
/// spike duration scaled by the trend strength (Strong doubles it,
/// Moderate adds half, Weak keeps it); none while no spike is recent.
pub open spec fn spec_predicted_duration(s: Seq<FeeSpike>) -> Option<int> {
    if s.len() == 0 {
        None
    } else {
        let avg = spec_minutes_sum(s) / (s.len() as int);
        Some(
            match spec_trend_strength(s) {
                TrendStrength::Strong => 2 * avg,
                TrendStrength::Moderate => (3 * avg) / 2,
                TrendStrength::Weak => avg,
            },
        )
    }
}

/// Result of one congestion analysis: the trends and, for the
/// dispatcher, the spikes newly emitted by this call.
pub struct CongestionAnalysis {
    pub trends: CongestionTrends,
    pub new_spikes: Vec<FeeSpike>,
}

/// Detector for network congestion through fee-spike analysis.
pub struct CongestionDetector {
    config: SpikeConfig,
    recent_spikes: CircularBuffer<FeeSpike>,
    historical_spikes: CircularBuffer<FeeSpike>,
}

impl CongestionDetector {
    /// The configuration.
    pub closed spec fn spec_config(self) -> SpikeConfig {
        self.config
    }

    /// Spikes inside the congestion window, oldest first.
    pub closed spec fn spec_recent(self) -> Seq<FeeSpike> {
        self.recent_spikes@
    }

    /// The bounded total history of emitted spikes, oldest first.
    pub closed spec fn spec_history(self) -> Seq<FeeSpike> {
        self.historical_spikes@
    }

    /// Structural invariant: usable configuration, both spike stores
    /// bounded, and every stored recent spike fit for trend
    /// arithmetic.
    pub closed spec fn wf(self) -> bool {
        &&& self.config.wf()
        &&& self.recent_spikes.wf()
        &&& self.recent_spikes.spec_capacity() == SPIKE_HISTORY_CAP
        &&& self.historical_spikes.wf()
        &&& self.historical_spikes.spec_capacity() == SPIKE_HISTORY_CAP
        &&& all_spikes_arith_ok(self.spec_recent())
    }

    /// A well-formed detector has a usable configuration and a bounded
    /// recent ring of arithmetic-ready spikes.
    pub proof fn lemma_wf_facts(self)
        requires
            self.wf(),
        ensures
            self.spec_config().wf(),
            self.spec_recent().len() <= SPIKE_HISTORY_CAP,
            self.spec_history().len() <= SPIKE_HISTORY_CAP,
            all_spikes_arith_ok(self.spec_recent()),
    {
        self.recent_spikes.lemma_wf_len();
        self.historical_spikes.lemma_wf_len();
    }

    /// Create a new congestion detector.
    pub fn new(config: SpikeConfig) -> (r: Self)
        requires
            config.wf(),
        ensures
            r.wf(),
            r.spec_config() == config,
            r.spec_recent() == Seq::<FeeSpike>::empty(),
            r.spec_history() == Seq::<FeeSpike>::empty(),
    {
        CongestionDetector {
            config,
            recent_spikes: CircularBuffer::new(SPIKE_HISTORY_CAP),
            historical_spikes: CircularBuffer::new(SPIKE_HISTORY_CAP),
        }
    }

    /// Severity of a spike ratio per the classification table.
    pub fn classify_spike_severity(&self, spike_ratio: &Ratio) -> (r: SpikeSeverity)
        requires
            spike_ratio.wf(),
        ensures
            r == spec_classify(*spike_ratio),
    {
        let num: i128 = spike_ratio.num as i128;
        let den: i128 = spike_ratio.den as i128;
        if num >= 10 * den {
            SpikeSeverity::Critical
        } else if num >= 5 * den {
            SpikeSeverity::Major
        } else if num >= 3 * den {
            SpikeSeverity::Moderate
        } else {
            SpikeSeverity::Minor
        }
    }

    /// Detect fee spikes in the given samples against `baseline`.
    ///
    /// An empty batch yields no spikes. A baseline that is not
    /// strictly positive is rejected as invalid data. Otherwise the
    /// result is exactly the sweep over the samples ordered by
    /// timestamp (ties by ledger sequence); every emitted spike
    /// reaches the threshold, lasts at least the minimum duration,
    /// and carries the exact ratio of its peak over the baseline
    /// together with the severity that ratio classifies to.
    pub fn detect_spikes(&self, fees: &Vec<FeeDataPoint>, baseline: &Ratio) -> (r: Result<
        Vec<FeeSpike>,
        InsightsError,
    >)
        requires
            self.wf(),
            all_arithmetic_ok(fees@),
            baseline_ok(*baseline),
        ensures
            match r {
                Ok(spikes) => {
                    &&& (fees@.len() == 0 ==> spikes@ == Seq::<FeeSpike>::empty())
                    &&& (fees@.len() > 0 ==> {
                        &&& baseline.spec_is_positive()
                        &&& spikes@ == spec_detect(
                            spec_sort_by_time(fees@),
                            *baseline,
                            self.spec_config(),
                        )
                    })
                    &&& forall|k: int|
                        0 <= k < spikes@.len() ==> {
                            let sp = #[trigger] spikes@[k];
                            &&& spike_consistent(sp, *baseline, self.spec_config())
                            &&& sp.duration_ms >= self.spec_config().minimum_spike_duration_ms
                        }
                },
                Err(e) => {
                    &&& fees@.len() > 0
                    &&& !baseline.spec_is_positive()
                    &&& e is InvalidData
                },
            },
    {
        let ghost cfg = self.spec_config();
        if fees.len() == 0 {
            return Ok(Vec::new());
        }
        if !baseline.is_positive() {
            return Err(InsightsError::invalid_data("Baseline must be positive".to_owned()));
        }
        let sorted = sort_by_time(fees);
        proof {
            assert(all_arithmetic_ok(sorted@)) by {
                assert forall|j: int| 0 <= j < sorted@.len()
                    implies (#[trigger] sorted@[j]).arithmetic_ok() by {
                    assert(fees@.contains(sorted@[j]));
                    let w = choose|w: int| 0 <= w < fees@.len() && fees@[w] == sorted@[j];
                    assert(fees@[w].arithmetic_ok());
                }
            }
        }
        let mut spikes: Vec<FeeSpike> = Vec::new();
        let mut open: Option<FeeSpike> = None;
        let ghost st0 = SweepState { spikes: Seq::empty(), open_spike: None };
        proof {
            assert(sorted@.subrange(0, sorted@.len() as int) =~= sorted@);
        }
        let n = sorted.len();
        let mut i: usize = 0;
        while i < n
            invariant
                0 <= i <= n,
                n == sorted@.len(),
                n >= 1,
                time_sorted(sorted@),
                all_arithmetic_ok(sorted@),
                baseline_ok(*baseline),
                baseline.num > 0,
                cfg == self.spec_config(),
                cfg.wf(),
                sweep_fold(
                    SweepState { spikes: spikes@, open_spike: open },
                    sorted@.subrange(i as int, n as int),
                    *baseline,
                    cfg,
                ) == sweep_fold(st0, sorted@, *baseline, cfg),
                match open {
                    Some(sp) => {
                        &&& i > 0
                        &&& 0 <= sp.start_time_ms <= sorted@[i - 1].timestamp_ms
                    },
                    None => true,
                },
            decreases n - i,
        {
            let ghost st_pre = SweepState { spikes: spikes@, open_spike: open };
            let ghost rest = sorted@.subrange(i as int, n as int);
            let fee_amount = sorted[i].fee_amount;
            let ts = sorted[i].timestamp_ms;
            proof {
                assert(sorted@[i as int].arithmetic_ok());
                if i > 0 {
                    assert(crate::sort::time_le(sorted@[i - 1], sorted@[i as int]));
                }
            }
            if above_threshold_exec(fee_amount, baseline, &self.config) {
                match open {
                    None => {
                        let ratio = ratio_of_exec(fee_amount, baseline);
                        open = Some(FeeSpike {
                            peak_fee: fee_amount,
                            baseline_fee: *baseline,
                            spike_ratio: ratio,
                            start_time_ms: ts,
                            duration_ms: 0,
                            severity: self.classify_spike_severity(&ratio),
                        });
                    },
                    Some(sp) => {
                        let mut sp1 = sp;
                        if fee_amount > sp.peak_fee {
                            let ratio = ratio_of_exec(fee_amount, baseline);
                            sp1.peak_fee = fee_amount;
                            sp1.spike_ratio = ratio;
                            sp1.severity = self.classify_spike_severity(&ratio);
                        }
                        sp1.duration_ms = ts - sp.start_time_ms;
                        open = Some(sp1);
                    },
                }
            } else {
                match open {
                    Some(sp) => {
                        let mut closed = sp;
                        closed.duration_ms = ts - sp.start_time_ms;
                        if closed.duration_ms >= self.config.minimum_spike_duration_ms {
                            spikes.push(closed);
                        }
                        open = None;
                    },
                    None => {},
                }
            }
            proof {
                assert(rest[0] == sorted@[i as int]);
                assert(rest.drop_first() =~= sorted@.subrange(i + 1 as int, n as int));
                assert(SweepState { spikes: spikes@, open_spike: open }
                    == sweep_step(st_pre, rest[0], *baseline, cfg));
            }
            i = i + 1;
        }
        proof {
            assert(sorted@.subrange(n as int, n as int) =~= Seq::<FeeDataPoint>::empty());
        }
        match open {
            Some(sp) => {
                let last_ts = sorted[n - 1].timestamp_ms;
                proof {
                    assert(sorted@[n - 1].arithmetic_ok());
                    assert(crate::sort::time_le(sorted@[i - 1], sorted@[n - 1]) || i == n);
                    assert(sp.start_time_ms <= last_ts);
                }
                let mut closed = sp;
                closed.duration_ms = last_ts - sp.start_time_ms;
                if closed.duration_ms >= self.config.minimum_spike_duration_ms {
                    spikes.push(closed);
                }
            },
            None => {},
        }
        proof {
            lemma_detect_spikes_sound(sorted@, *baseline, cfg);
            assert(spikes@ == spec_detect(sorted@, *baseline, cfg));
        }
        Ok(spikes)
    }

    /// Remove every spike that started before `cutoff` from the ring,
    /// wherever it sits, keeping the order of the survivors.
    fn clean_recent(&mut self, cutoff_ms: i64)
        requires
            old(self).wf(),
        ensures
            final(self).wf(),
            final(self).spec_config() == old(self).spec_config(),
            final(self).spec_history() == old(self).spec_history(),
            final(self).spec_recent() == ring_clean(old(self).spec_recent(), cutoff_ms),
    {
        let ghost start = self.recent_spikes@;
        proof {
            self.recent_spikes.lemma_wf_len();
            lemma_ring_clean_ok(start, cutoff_ms);
        }
        let mut kept: Vec<FeeSpike> = Vec::new();
        let snapshot = self.recent_spikes.iter();
        let n = snapshot.len();
        let mut i: usize = 0;
        proof {
            assert(start.subrange(0, 0) =~= Seq::<FeeSpike>::empty());
        }
        while i < n
            invariant
                0 <= i <= n,
                n == start.len(),
                snapshot@ == start,
                kept@ == ring_clean(start.subrange(0, i as int), cutoff_ms),
            decreases n - i,
        {
            let ghost prefix = start.subrange(0, i as int);
            proof {
                assert(start.subrange(0, i + 1 as int) =~= prefix.push(start[i as int]));
                assert(start.subrange(0, i + 1 as int).drop_last() =~= prefix);
            }
            let sp = *vecdeque_spike(snapshot, i);
            if sp.start_time_ms >= cutoff_ms {
                kept.push(sp);
            }
            i = i + 1;
        }
        proof {
            assert(start.subrange(0, n as int) =~= start);
        }
        while self.recent_spikes.len() > 0
            invariant
                self.recent_spikes.wf(),
                self.config == old(self).config,
                self.historical_spikes == old(self).historical_spikes,
                self.recent_spikes.spec_capacity() == old(self).recent_spikes.spec_capacity(),
            decreases self.recent_spikes@.len(),
        {
            let _ = self.recent_spikes.pop_front();
        }
        proof {
            assert(self.recent_spikes@ =~= Seq::<FeeSpike>::empty());
        }
        proof {
            old(self).recent_spikes.lemma_wf_len();
            assert(kept@.len() <= old(self).recent_spikes.spec_capacity());
            assert(all_spikes_arith_ok(kept@));
        }
        let mut k: usize = 0;
        while k < kept.len()
            invariant
                0 <= k <= kept@.len(),
                kept@ == ring_clean(start, cutoff_ms),
                kept@.len() <= old(self).recent_spikes.spec_capacity(),
                all_spikes_arith_ok(kept@),
                self.recent_spikes.wf(),
                self.config == old(self).config,
                self.historical_spikes == old(self).historical_spikes,
                self.recent_spikes.spec_capacity() == old(self).recent_spikes.spec_capacity(),
                self.recent_spikes@ == kept@.subrange(0, k as int),
                all_spikes_arith_ok(self.recent_spikes@),
            decreases kept@.len() - k,
        {
            proof {
                assert(self.recent_spikes@.len() < self.recent_spikes.spec_capacity());
                assert(spike_arith_ok(kept@[k as int]));
            }
            self.recent_spikes.push(kept[k]);
            proof {
                assert(self.recent_spikes@ =~= kept@.subrange(0, k + 1 as int));
            }
            k = k + 1;
        }
        proof {
            assert(kept@.subrange(0, kept@.len() as int) =~= kept@);
        }
    }

    /// Append one emitted spike to the recent ring and remove stale
    /// spikes from the front.
    fn add_spike(&mut self, spike: FeeSpike, cutoff_ms: i64)
        requires
            old(self).wf(),
            spike_arith_ok(spike),
        ensures
            final(self).wf(),
            final(self).spec_config() == old(self).spec_config(),
            final(self).spec_history() == old(self).spec_history(),
            final(self).spec_recent() == ring_clean(
                spec_fifo_push(old(self).spec_recent(), spike, SPIKE_HISTORY_CAP as int),
                cutoff_ms,
            ),
    {
        self.recent_spikes.push(spike);
        proof {
            lemma_fifo_push_spike_ok(
                old(self).spec_recent(),
                spike,
                SPIKE_HISTORY_CAP as int,
            );
        }
        self.clean_recent(cutoff_ms);
    }

    /// Analyze congestion: detect new spikes in `current_fees` against
    /// `baseline`, fold them into the bounded recent ring and the
    /// bounded total history, and derive the current trend, its
    /// strength, and a duration prediction from the ring.
    pub fn analyze_congestion(
        &mut self,
        current_fees: &Vec<FeeDataPoint>,
        baseline: &Ratio,
        now_ms: i64,
    ) -> (r: Result<CongestionAnalysis, InsightsError>)
        requires
            old(self).wf(),
            all_arithmetic_ok(current_fees@),
            baseline_ok(*baseline),
            0 <= now_ms <= MAX_TIME_MS,
        ensures
            final(self).wf(),
            final(self).spec_config() == old(self).spec_config(),
            match r {
                Ok(a) => {
                    &&& (current_fees@.len() == 0 ==> a.new_spikes@ == Seq::<FeeSpike>::empty())
                    &&& (current_fees@.len() > 0 ==> {
                        &&& baseline.spec_is_positive()
                        &&& a.new_spikes@ == spec_detect(
                            spec_sort_by_time(current_fees@),
                            *baseline,
                            old(self).spec_config(),
                        )
                    })
                    &&& final(self).spec_recent() == ring_after(
                        old(self).spec_recent(),
                        a.new_spikes@,
                        (now_ms - old(self).spec_config().congestion_window_ms) as i64,
                        SPIKE_HISTORY_CAP as int,
                    )
                    &&& final(self).spec_history() == crate::buffer::spec_fifo_push_all(
                        old(self).spec_history(),
                        a.new_spikes@,
                        SPIKE_HISTORY_CAP as int,
                    )
                    &&& forall|k: int|
                        0 <= k < final(self).spec_recent().len()
                            ==> (#[trigger] final(self).spec_recent()[k]).start_time_ms
                                >= now_ms - old(self).spec_config().congestion_window_ms
                    &&& a.trends.current_trend == spec_trend_indicator(final(self).spec_recent())
                    &&& a.trends.trend_strength == spec_trend_strength(final(self).spec_recent())
                    &&& (match a.trends.predicted_duration_min {
                        Some(m) => spec_predicted_duration(final(self).spec_recent())
                            == Some(m as int),
                        None => spec_predicted_duration(final(self).spec_recent()) is None,
                    })
                    &&& a.trends.recent_spikes@ == final(self).spec_recent()
                },
                Err(e) => {
                    &&& current_fees@.len() > 0
                    &&& !baseline.spec_is_positive()
                    &&& e is InvalidData
                    &&& *final(self) == *old(self)
                },
            },
    {
        let new_spikes = match self.detect_spikes(current_fees, baseline) {
            Ok(s) => s,
            Err(e) => {
                return Err(e);
            },
        };
        proof {
            assert forall|k: int| 0 <= k < new_spikes@.len()
                implies spike_arith_ok(#[trigger] new_spikes@[k]) by {
                lemma_consistent_spike_arith_ok(new_spikes@[k], *baseline, self.spec_config());
            }
        }
        let cutoff: i64 = now_ms - self.config.congestion_window_ms;
        let ghost rec0 = self.spec_recent();
        let ghost hist0 = self.spec_history();
        proof {
            assert(new_spikes@.subrange(0, new_spikes@.len() as int) =~= new_spikes@);
        }
        let mut k: usize = 0;
        while k < new_spikes.len()
            invariant
                0 <= k <= new_spikes@.len(),
                self.wf(),
                self.config == old(self).config,
                forall|j: int|
                    0 <= j < new_spikes@.len() ==> spike_arith_ok(#[trigger] new_spikes@[j]),
                ring_add_all(
                    self.spec_recent(),
                    new_spikes@.subrange(k as int, new_spikes@.len() as int),
                    cutoff,
                    SPIKE_HISTORY_CAP as int,
                ) == ring_add_all(rec0, new_spikes@, cutoff, SPIKE_HISTORY_CAP as int),
                self.spec_history() == crate::buffer::spec_fifo_push_all(
                    hist0,
                    new_spikes@.subrange(0, k as int),
                    SPIKE_HISTORY_CAP as int,
                ),
            decreases new_spikes@.len() - k,
        {
            let ghost rest = new_spikes@.subrange(k as int, new_spikes@.len() as int);
            let ghost recpre = self.spec_recent();
            let ghost histpre = self.spec_history();
            let sp = new_spikes[k];
            self.add_spike(sp, cutoff);
            self.historical_spikes.push(sp);
            proof {
                assert(rest[0] == new_spikes@[k as int]);
                assert(rest.drop_first()
                    =~= new_spikes@.subrange(k + 1 as int, new_spikes@.len() as int));
                assert(new_spikes@.subrange(0, k + 1 as int)
                    =~= new_spikes@.subrange(0, k as int).push(new_spikes@[k as int]));
                lemma_push_all_snoc(
                    hist0,
                    new_spikes@.subrange(0, k as int),
                    new_spikes@[k as int],
                    SPIKE_HISTORY_CAP as int,
                );
            }
            k = k + 1;
        }
        proof {
            assert(new_spikes@.subrange(new_spikes@.len() as int, new_spikes@.len() as int)
                =~= Seq::<FeeSpike>::empty());
            assert(new_spikes@.subrange(0, new_spikes@.len() as int) =~= new_spikes@);
        }
        self.clean_recent(cutoff);
        proof {
            lemma_ring_clean_within(
                ring_add_all(rec0, new_spikes@, cutoff, SPIKE_HISTORY_CAP as int),
                cutoff,
            );
        }
        let current_trend = self.determine_trend_indicator();
        let trend_strength = self.calculate_trend_strength();
        let predicted_duration_min = self.predict_duration();
        let recent = self.get_recent_spikes();
        Ok(
            CongestionAnalysis {
                trends: CongestionTrends {
                    current_trend,
                    recent_spikes: recent,
                    trend_strength,
                    predicted_duration_min,
                },
                new_spikes,
            },
        )
    }

    /// Trend strength over the current recent ring.
    pub fn calculate_trend_strength(&self) -> (r: TrendStrength)
        requires
            self.wf(),
        ensures
            r == spec_trend_strength(self.spec_recent()),
    {
        proof {
            self.lemma_wf_facts();
        }
        let d = self.recent_spikes.iter();
        let n = d.len();
        let mut score: u64 = 0;
        let ghost s = self.spec_recent();
        proof {
            assert(s.subrange(0, 0) =~= Seq::<FeeSpike>::empty());
        }
        let mut i: usize = 0;
        while i < n
            invariant
                0 <= i <= n,
                n == s.len(),
                n <= SPIKE_HISTORY_CAP,
                d@ == s,
                score as int == spec_score2(s.subrange(0, i as int)),
                score <= 17 * (i as int),
            decreases n - i,
        {
            let w = vecdeque_spike(d, i).severity.weight2();
            proof {
                assert(s.subrange(0, i + 1 as int).drop_last() =~= s.subrange(0, i as int));
            }
            score = score + w + 1;
            i = i + 1;
        }
        proof {
            assert(s.subrange(0, n as int) =~= s);
        }
        if score >= 20 {
            TrendStrength::Strong
        } else if score >= 8 {
            TrendStrength::Moderate
        } else {
            TrendStrength::Weak
        }
    }

    /// Sum of the per-mille ratios of the first `count` ring spikes.
    fn milli_sum_prefix(&self, count: usize) -> (r: i128)
        requires
            self.wf(),
            count <= self.spec_recent().len(),
        ensures
            r == spec_milli_sum(self.spec_recent().subrange(0, count as int)),
            0 <= r <= (count as int) * 1_000_000_000_000_000_000_000,
    {
        proof {
            self.lemma_wf_facts();
        }
        let d = self.recent_spikes.iter();
        let ghost s = self.spec_recent();
        let mut sum: i128 = 0;
        proof {
            assert(s.subrange(0, 0) =~= Seq::<FeeSpike>::empty());
        }
        let mut i: usize = 0;
        while i < count
            invariant
                0 <= i <= count,
                count <= s.len(),
                s.len() <= SPIKE_HISTORY_CAP,
                d@ == s,
                self.wf(),
                s == self.spec_recent(),
                sum == spec_milli_sum(s.subrange(0, i as int)),
                0 <= sum <= (i as int) * 1_000_000_000_000_000_000_000,
            decreases count - i,
        {
            let sp = vecdeque_spike(d, i);
            proof {
                assert(spike_arith_ok(s[i as int]));
                assert(s.subrange(0, i + 1 as int).drop_last() =~= s.subrange(0, i as int));
            }
            let m = sp.spike_ratio.milli();
            sum = sum + m;
            i = i + 1;
        }
        sum
    }

    /// Congestion trend over the current recent ring.
    fn determine_trend_indicator(&self) -> (r: TrendIndicator)
        requires
            self.wf(),
        ensures
            r == spec_trend_indicator(self.spec_recent()),
    {
        proof {
            self.lemma_wf_facts();
        }
        let d = self.recent_spikes.iter();
        let n = d.len();
        let ghost s = self.spec_recent();
        if n == 0 {
            return TrendIndicator::Normal;
        }
        if n >= 3 {
            proof {
                assert(spike_arith_ok(s[n - 1]));
                assert(spike_arith_ok(s[n - 2]));
            }
            let m1 = vecdeque_spike(d, n - 1).spike_ratio.milli();
            let m2 = vecdeque_spike(d, n - 2).spike_ratio.milli();
            let older = self.milli_sum_prefix(n - 2);
            let recent2: i128 = m1 + m2;
            proof {
                assert(5 * recent2 * ((n - 2) as int)
                    <= 5 * 2_000_000_000_000_000_000_000 * 1_000int) by (nonlinear_arith)
                    requires
                        0 <= recent2 <= 2_000_000_000_000_000_000_000,
                        1 <= n - 2 <= 1_000,
                ;
                assert(5 * recent2 * ((n - 2) as int) >= 0) by (nonlinear_arith)
                    requires
                        recent2 >= 0,
                        n - 2 >= 1,
                ;
                assert(older <= 1_000int * 1_000_000_000_000_000_000_000) by {
                    assert((n - 2) as int <= 1_000);
                }
            }
            let lhs: i128 = 5 * recent2 * ((n - 2) as i128);
            if lhs > 12 * older {
                TrendIndicator::Rising
            } else if lhs < 8 * older {
                TrendIndicator::Declining
            } else {
                TrendIndicator::Congested
            }
        } else {
            match vecdeque_spike(d, n - 1).severity {
                SpikeSeverity::Major => TrendIndicator::Congested,
                SpikeSeverity::Critical => TrendIndicator::Congested,
                _ => TrendIndicator::Rising,
            }
        }
    }

    /// Predicted congestion duration in minutes over the current ring.
    fn predict_duration(&self) -> (r: Option<i64>)
        requires
            self.wf(),
        ensures
            match r {
                Some(m) => spec_predicted_duration(self.spec_recent()) == Some(m as int),
                None => spec_predicted_duration(self.spec_recent()) is None,
            },
    {
        proof {
            self.lemma_wf_facts();
        }
        let d = self.recent_spikes.iter();
        let n = d.len();
        let ghost s = self.spec_recent();
        if n == 0 {
            return None;
        }
        let mut sum: i64 = 0;
        proof {
            assert(s.subrange(0, 0) =~= Seq::<FeeSpike>::empty());
        }
        let mut i: usize = 0;
        while i < n
            invariant
                0 <= i <= n,
                n == s.len(),
                n <= SPIKE_HISTORY_CAP,
                d@ == s,
                self.wf(),
                s == self.spec_recent(),
                sum == spec_minutes_sum(s.subrange(0, i as int)),
                0 <= sum <= (i as int) * 1_666_666_667,
            decreases n - i,
        {
            proof {
                assert(spike_arith_ok(s[i as int]));
                assert(s.subrange(0, i + 1 as int).drop_last() =~= s.subrange(0, i as int));
            }
            let minutes = vecdeque_spike(d, i).duration_ms / 60_000;
            sum = sum + minutes;
            i = i + 1;
        }
        proof {
            assert(s.subrange(0, n as int) =~= s);
        }
        let avg: i64 = sum / (n as i64);
        proof {
            assert(0 <= avg <= sum) by (nonlinear_arith)
                requires
                    sum >= 0,
                    n >= 1,
                    avg == sum as int / (n as int),
            ;
        }
        let strength = self.calculate_trend_strength();
        let predicted: i64 = match strength {
            TrendStrength::Strong => 2 * avg,
            TrendStrength::Moderate => (3 * avg) / 2,
            TrendStrength::Weak => avg,
        };
        Some(predicted)
    }

    /// The spikes currently inside the congestion window, oldest
    /// first.
    pub fn get_recent_spikes(&self) -> (r: Vec<FeeSpike>)
        ensures
            r@ == self.spec_recent(),
    {
        let d = self.recent_spikes.iter();
        copy_spike_deque(d)
    }

    /// The bounded total history of emitted spikes, oldest first.
    pub fn get_historical_spikes(&self) -> (r: Vec<FeeSpike>)
        ensures
            r@ == self.spec_history(),
    {
        let d = self.historical_spikes.iter();
        copy_spike_deque(d)
    }

    /// Forget all recent and historical spikes.
    pub fn clear_history(&mut self)
        requires
            old(self).wf(),
        ensures
            final(self).wf(),
            final(self).spec_config() == old(self).spec_config(),
            final(self).spec_recent() == Seq::<FeeSpike>::empty(),
            final(self).spec_history() == Seq::<FeeSpike>::empty(),
    {
        while self.recent_spikes.len() > 0
            invariant
                self.recent_spikes.wf(),
                self.config == old(self).config,
                self.historical_spikes == old(self).historical_spikes,
                self.recent_spikes.spec_capacity() == old(self).recent_spikes.spec_capacity(),
                all_spikes_arith_ok(self.recent_spikes@),
            decreases self.recent_spikes@.len(),
        {
            let ghost cur = self.recent_spikes@;
            let _ = self.recent_spikes.pop_front();
            proof {
                assert(all_spikes_arith_ok(self.recent_spikes@)) by {
                    assert(forall|k: int|
                        0 <= k < cur.drop_first().len()
                            ==> #[trigger] cur.drop_first()[k] == cur[k + 1]);
                }
            }
        }
        while self.historical_spikes.len() > 0
            invariant
                self.historical_spikes.wf(),
                self.config == old(self).config,
                self.recent_spikes@ == Seq::<FeeSpike>::empty(),
                self.recent_spikes.wf(),
                self.recent_spikes.spec_capacity() == old(self).recent_spikes.spec_capacity(),
                self.historical_spikes.spec_capacity()
                    == old(self).historical_spikes.spec_capacity(),
            decreases self.historical_spikes@.len(),
        {
            let _ = self.historical_spikes.pop_front();
        }
        proof {
            assert(self.recent_spikes@ =~= Seq::<FeeSpike>::empty());
            assert(self.historical_spikes@ =~= Seq::<FeeSpike>::empty());
        }
    }
}

/// Appending one item to the pushed batch extends the FIFO fold by one
/// push.
proof fn lemma_push_all_snoc(s: Seq<FeeSpike>, batch: Seq<FeeSpike>, x: FeeSpike, cap: int)
    ensures
        crate::buffer::spec_fifo_push_all(s, batch.push(x), cap) == spec_fifo_push(
            crate::buffer::spec_fifo_push_all(s, batch, cap),
            x,
            cap,
        ),
    decreases batch.len(),
{
    let bp = batch.push(x);
    assert(bp.len() > 0);
    if batch.len() == 0 {
        assert(bp[0] == x);
        assert(bp.drop_first() =~= Seq::<FeeSpike>::empty());
        assert(crate::buffer::spec_fifo_push_all(s, bp, cap)
            == crate::buffer::spec_fifo_push_all(spec_fifo_push(s, x, cap), bp.drop_first(), cap));
        assert(crate::buffer::spec_fifo_push_all(
            spec_fifo_push(s, x, cap),
            Seq::<FeeSpike>::empty(),
            cap,
        ) == spec_fifo_push(s, x, cap));
        assert(crate::buffer::spec_fifo_push_all(s, batch, cap) == s);
    } else {
        assert(bp[0] == batch[0]);
        assert(bp.drop_first() =~= batch.drop_first().push(x));
        lemma_push_all_snoc(spec_fifo_push(s, batch[0], cap), batch.drop_first(), x, cap);
        assert(crate::buffer::spec_fifo_push_all(s, bp, cap)
            == crate::buffer::spec_fifo_push_all(
                spec_fifo_push(s, bp[0], cap),
                bp.drop_first(),
                cap,
            ));
        assert(crate::buffer::spec_fifo_push_all(s, batch, cap)
            == crate::buffer::spec_fifo_push_all(
                spec_fifo_push(s, batch[0], cap),
                batch.drop_first(),
                cap,
            ));
    }
}

/// Borrow the `i`-th spike of a deque.
fn vecdeque_spike(d: &std::collections::VecDeque<FeeSpike>, i: usize) -> (r: &FeeSpike)
    requires
        i < d@.len(),
    ensures
        *r == d@[i as int],
{
    &d[i]
}

/// Copy a spike deque into a vector, oldest first.
fn copy_spike_deque(d: &std::collections::VecDeque<FeeSpike>) -> (r: Vec<FeeSpike>)
    ensures
        r@ == d@,
{
    let mut out: Vec<FeeSpike> = Vec::new();
    let mut i: usize = 0;
    while i < d.len()
        invariant
            0 <= i <= d@.len(),
            out@ == d@.subrange(0, i as int),
        decreases d@.len() - i,
    {
        out.push(*vecdeque_spike(d, i));
        proof {
            assert(d@.subrange(0, i + 1 as int)
                =~= d@.subrange(0, i as int).push(d@[i as int]));
        }
        i = i + 1;
    }
    proof {
        assert(d@.subrange(0, d@.len() as int) =~= d@);
    }
    out
}

} // verus!
