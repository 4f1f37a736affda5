//! Core data types of the fee-insights pipeline.

use vstd::prelude::*;
use crate::ratio::Ratio;

verus! {

/// One hour in milliseconds.
pub const HOUR_MS: i64 = 3_600_000;

/// One minute in milliseconds.
pub const MINUTE_MS: i64 = 60_000;

/// One day in milliseconds.
pub const DAY_MS: i64 = 86_400_000;

/// Largest fee amount, in stroops, that validation accepts.
pub const MAX_FEE_STROOPS: u64 = 1_000_000_000;

/// Latest instant, in milliseconds since the Unix epoch, that the
/// library's time model supports (about the year 5138). Keeping every
/// timestamp inside [0, MAX_TIME_MS] lets sums and differences of
/// instants and durations stay inside the machine integers.
pub const MAX_TIME_MS: i64 = 100_000_000_000_000;

/// A single fee sample observed on the network.
#[derive(Debug)]
pub struct FeeDataPoint {
    /// Fee paid, in stroops.
    pub fee_amount: u64,
    /// When the transaction closed, in milliseconds since the Unix epoch.
    pub timestamp_ms: i64,
    /// Hash of the transaction the fee belongs to.
    pub transaction_hash: String,
    /// Ledger sequence number of the transaction.
    pub ledger_sequence: u64,
}

impl Clone for FeeDataPoint {
    fn clone(&self) -> (r: Self)
        ensures
            r == *self,
    {
        FeeDataPoint {
            fee_amount: self.fee_amount,
            timestamp_ms: self.timestamp_ms,
            transaction_hash: self.transaction_hash.clone(),
            ledger_sequence: self.ledger_sequence,
        }
    }
}

impl FeeDataPoint {
    /// A sample the pipeline can do arithmetic on: the fee lies in the
    /// accepted range and the timestamp lies inside the supported time
    /// model.
    pub open spec fn arithmetic_ok(self) -> bool {
        &&& 1 <= self.fee_amount <= MAX_FEE_STROOPS
        &&& 0 <= self.timestamp_ms <= MAX_TIME_MS
    }

    /// Full validation as the engine applies it at `now`: the fee is in
    /// range, the transaction hash is non-empty, and the timestamp is
    /// neither negative nor more than one hour in the future
    /// (clock-skew tolerance).
    pub open spec fn valid_at(self, now_ms: i64) -> bool {
        &&& 1 <= self.fee_amount <= MAX_FEE_STROOPS
        &&& self.transaction_hash@.len() > 0
        &&& 0 <= self.timestamp_ms
        &&& self.timestamp_ms <= now_ms + HOUR_MS
    }
}

/// True when every sample of `s` satisfies `arithmetic_ok`.
pub open spec fn all_arithmetic_ok(s: Seq<FeeDataPoint>) -> bool {
    forall|i: int| 0 <= i < s.len() ==> #[trigger] s[i].arithmetic_ok()
}

/// A named rolling time window.
#[derive(Debug)]
pub struct TimeWindow {
    /// Name the window is identified by, e.g. "short_term".
    pub name: String,
    /// Length of the window in milliseconds.
    pub duration_ms: i64,
    /// Number of samples below which an average over this window is
    /// reported as partial.
    pub min_samples: usize,
}

impl Clone for TimeWindow {
    fn clone(&self) -> (r: Self)
        ensures
            r == *self,
    {
        TimeWindow {
            name: self.name.clone(),
            duration_ms: self.duration_ms,
            min_samples: self.min_samples,
        }
    }
}

impl TimeWindow {
    /// A usable window: positive duration inside the supported time
    /// model, and a positive sample threshold.
    pub open spec fn wf(self) -> bool {
        &&& 0 < self.duration_ms <= MAX_TIME_MS
        &&& self.min_samples >= 1
    }
}

/// Result of one rolling-average computation.
#[derive(Debug)]
pub struct AverageResult {
    /// The mean fee over the window's buffer, as an exact rational.
    /// Zero (0/1) when the buffer is empty.
    pub value: Ratio,
    /// Number of samples the mean was taken over.
    pub sample_count: usize,
    /// Whether the window held fewer samples than it asks for.
    pub is_partial: bool,
    /// Instant the average was computed at, in epoch milliseconds.
    pub calculated_at_ms: i64,
    /// The window the average belongs to.
    pub time_window: TimeWindow,
}

impl Clone for AverageResult {
    fn clone(&self) -> (r: Self)
        ensures
            r == *self,
    {
        AverageResult {
            value: self.value,
            sample_count: self.sample_count,
            is_partial: self.is_partial,
            calculated_at_ms: self.calculated_at_ms,
            time_window: self.time_window.clone(),
        }
    }
}

impl AverageResult {
    /// Structural invariant: the partial flag agrees with the sample
    /// count, and an empty window reports the value zero.
    pub open spec fn wf(self) -> bool {
        &&& self.value.wf()
        &&& self.is_partial == (self.sample_count < self.time_window.min_samples)
        &&& self.sample_count == 0 ==> self.value.num == 0
    }
}

/// Rolling averages over the three named windows the engine reports.
#[derive(Debug)]
pub struct RollingAverages {
    pub short_term: AverageResult,
    pub medium_term: AverageResult,
    pub long_term: AverageResult,
}

impl Clone for RollingAverages {
    fn clone(&self) -> (r: Self)
        ensures
            r == *self,
    {
        RollingAverages {
            short_term: self.short_term.clone(),
            medium_term: self.medium_term.clone(),
            long_term: self.long_term.clone(),
        }
    }
}

/// An extreme fee value with its provenance.
#[derive(Debug)]
pub struct ExtremeValue {
    pub value: u64,
    pub timestamp_ms: i64,
    pub transaction_hash: String,
}

impl Clone for ExtremeValue {
    fn clone(&self) -> (r: Self)
        ensures
            r == *self,
    {
        ExtremeValue {
            value: self.value,
            timestamp_ms: self.timestamp_ms,
            transaction_hash: self.transaction_hash.clone(),
        }
    }
}

/// Minimum and maximum fee of one tracking period.
#[derive(Debug)]
pub struct FeeExtremes {
    pub current_min: ExtremeValue,
    pub current_max: ExtremeValue,
    pub period_start_ms: i64,
    pub period_end_ms: i64,
}

impl Clone for FeeExtremes {
    fn clone(&self) -> (r: Self)
        ensures
            r == *self,
    {
        FeeExtremes {
            current_min: self.current_min.clone(),
            current_max: self.current_max.clone(),
            period_start_ms: self.period_start_ms,
            period_end_ms: self.period_end_ms,
        }
    }
}

/// Severity classification of a fee spike.
#[derive(Clone, Copy, Debug, PartialEq, Eq, Structural)]
pub enum SpikeSeverity {
    Minor,
    Moderate,
    Major,
    Critical,
}

impl SpikeSeverity {
    /// Position in the ordering Minor < Moderate < Major < Critical.
    pub open spec fn spec_rank(self) -> int {
        match self {
            SpikeSeverity::Minor => 0,
            SpikeSeverity::Moderate => 1,
            SpikeSeverity::Major => 2,
            SpikeSeverity::Critical => 3,
        }
    }

    /// Position in the ordering Minor < Moderate < Major < Critical.
    pub fn rank(&self) -> (r: u8)
        ensures
            r as int == self.spec_rank(),
    {
        match self {
            SpikeSeverity::Minor => 0,
            SpikeSeverity::Moderate => 1,
            SpikeSeverity::Major => 2,
            SpikeSeverity::Critical => 3,
        }
    }

    /// Weight of this severity in the trend-strength score, doubled so
    /// that the half-point count bonus stays integral.
    pub open spec fn spec_weight2(self) -> int {
        match self {
            SpikeSeverity::Minor => 2,
            SpikeSeverity::Moderate => 4,
            SpikeSeverity::Major => 8,
            SpikeSeverity::Critical => 16,
        }
    }

    /// Doubled trend-strength weight of this severity.
    pub fn weight2(&self) -> (r: u64)
        ensures
            r as int == self.spec_weight2(),
    {
        match self {
            SpikeSeverity::Minor => 2,
            SpikeSeverity::Moderate => 4,
            SpikeSeverity::Major => 8,
            SpikeSeverity::Critical => 16,
        }
    }

    /// Severity name as text.
    pub fn as_text(&self) -> (r: String)
        ensures
            self is Minor ==> r@ == "Minor"@,
            self is Moderate ==> r@ == "Moderate"@,
            self is Major ==> r@ == "Major"@,
            self is Critical ==> r@ == "Critical"@,
    {
        match self {
            SpikeSeverity::Minor => "Minor".to_owned(),
            SpikeSeverity::Moderate => "Moderate".to_owned(),
            SpikeSeverity::Major => "Major".to_owned(),
            SpikeSeverity::Critical => "Critical".to_owned(),
        }
    }
}

/// A detected fee spike.
#[derive(Clone, Copy, Debug)]
pub struct FeeSpike {
    /// Highest fee observed during the spike, in stroops.
    pub peak_fee: u64,
    /// Baseline the spike was measured against.
    pub baseline_fee: Ratio,
    /// Exactly peak_fee / baseline_fee.
    pub spike_ratio: Ratio,
    /// Timestamp of the first sample of the spike.
    pub start_time_ms: i64,
    /// Time from the first spike sample to the sample that closed it.
    pub duration_ms: i64,
    /// Severity per the classification table.
    pub severity: SpikeSeverity,
}

/// Direction of the congestion trend.
#[derive(Clone, Copy, Debug, PartialEq, Eq, Structural)]
pub enum TrendIndicator {
    Normal,
    Rising,
    Congested,
    Declining,
}

/// Strength of the congestion trend.
#[derive(Clone, Copy, Debug, PartialEq, Eq, Structural)]
pub enum TrendStrength {
    Weak,
    Moderate,
    Strong,
}

/// Trend indicator name as text.
pub fn trend_indicator_to_string(indicator: &TrendIndicator) -> (r: String)
    ensures
        indicator is Normal ==> r@ == "Normal"@,
        indicator is Rising ==> r@ == "Rising"@,
        indicator is Congested ==> r@ == "Congested"@,
        indicator is Declining ==> r@ == "Declining"@,
{
    match indicator {
        TrendIndicator::Normal => "Normal".to_owned(),
        TrendIndicator::Rising => "Rising".to_owned(),
        TrendIndicator::Congested => "Congested".to_owned(),
        TrendIndicator::Declining => "Declining".to_owned(),
    }
}

/// Trend strength name as text.
pub fn trend_strength_to_string(strength: &TrendStrength) -> (r: String)
    ensures
        strength is Weak ==> r@ == "Weak"@,
        strength is Moderate ==> r@ == "Moderate"@,
        strength is Strong ==> r@ == "Strong"@,
{
    match strength {
        TrendStrength::Weak => "Weak".to_owned(),
        TrendStrength::Moderate => "Moderate".to_owned(),
        TrendStrength::Strong => "Strong".to_owned(),
    }
}

/// Congestion analysis reported by the detector.
#[derive(Debug)]
pub struct CongestionTrends {
    pub current_trend: TrendIndicator,
    /// Spikes whose start time lies inside the congestion window,
    /// oldest first.
    pub recent_spikes: Vec<FeeSpike>,
    pub trend_strength: TrendStrength,
    /// Predicted congestion duration in minutes, when spikes are present.
    pub predicted_duration_min: Option<i64>,
}

impl Clone for CongestionTrends {
    fn clone(&self) -> (r: Self)
        ensures
            r.current_trend == self.current_trend,
            r.recent_spikes@ == self.recent_spikes@,
            r.trend_strength == self.trend_strength,
            r.predicted_duration_min == self.predicted_duration_min,
    {
        CongestionTrends {
            current_trend: self.current_trend,
            recent_spikes: clone_spikes(&self.recent_spikes),
            trend_strength: self.trend_strength,
            predicted_duration_min: match self.predicted_duration_min {
                Some(m) => Some(m),
                None => None,
            },
        }
    }
}

/// Copy a spike vector element by element.
pub fn clone_spikes(v: &Vec<FeeSpike>) -> (r: Vec<FeeSpike>)
    ensures
        r@ == v@,
{
    let mut out: Vec<FeeSpike> = Vec::new();
    let mut i: usize = 0;
    while i < v.len()
        invariant
            0 <= i <= v.len(),
            out@ == v@.subrange(0, i as int),
        decreases v.len() - i,
    {
        out.push(v[i]);
        i = i + 1;
    }
    proof {
        assert(out@ =~= v@);
    }
    out
}

/// Copy a sample vector element by element.
pub fn clone_points_vec(v: &Vec<FeeDataPoint>) -> (r: Vec<FeeDataPoint>)
    ensures
        r@ == v@,
{
    let mut out: Vec<FeeDataPoint> = Vec::new();
    let mut i: usize = 0;
    while i < v.len()
        invariant
            0 <= i <= v.len(),
            out@ == v@.subrange(0, i as int),
        decreases v.len() - i,
    {
        out.push(v[i].clone());
        proof {
            assert(v@.subrange(0, i + 1 as int)
                =~= v@.subrange(0, i as int).push(v@[i as int]));
        }
        i = i + 1;
    }
    proof {
        assert(out@ =~= v@);
    }
    out
}

/// Quality indicators for the data a snapshot was built from.
#[derive(Clone, Copy, Debug)]
pub struct DataQuality {
    /// Fraction of the expected sample count that arrived, in [0, 1].
    pub completeness: Ratio,
    /// Time since the previous engine update, in milliseconds.
    pub freshness_ms: i64,
    /// Whether any processed sample was more than one hour old.
    pub has_gaps: bool,
    /// Instant the last gap was observed at, when one was.
    pub last_gap_ms: Option<i64>,
}

/// One coherent snapshot of the engine's state.
#[derive(Debug)]
pub struct CurrentInsights {
    pub rolling_averages: RollingAverages,
    pub extremes: FeeExtremes,
    pub congestion_trends: CongestionTrends,
    pub last_updated_ms: i64,
    pub data_quality: DataQuality,
}

impl Clone for CurrentInsights {
    fn clone(&self) -> (r: Self)
        ensures
            r.rolling_averages == self.rolling_averages,
            r.extremes == self.extremes,
            r.congestion_trends.current_trend == self.congestion_trends.current_trend,
            r.congestion_trends.recent_spikes@ == self.congestion_trends.recent_spikes@,
            r.congestion_trends.trend_strength == self.congestion_trends.trend_strength,
            r.congestion_trends.predicted_duration_min
                == self.congestion_trends.predicted_duration_min,
            r.last_updated_ms == self.last_updated_ms,
            r.data_quality == self.data_quality,
    {
        CurrentInsights {
            rolling_averages: self.rolling_averages.clone(),
            extremes: self.extremes.clone(),
            congestion_trends: self.congestion_trends.clone(),
            last_updated_ms: self.last_updated_ms,
            data_quality: self.data_quality,
        }
    }
}

/// What one engine update produced.
#[derive(Debug)]
pub struct InsightsUpdate {
    pub insights: CurrentInsights,
    /// Time the update took, in milliseconds. The library computes no
    /// wall-clock durations itself; callers that time the call may fill
    /// this in. Always zero as returned.
    pub processing_time_ms: i64,
    pub data_points_processed: usize,
    /// Spikes newly emitted by this update, for the dispatcher.
    pub new_spikes: Vec<FeeSpike>,
}

} // verus!
