//! Extremes tracker for minimum and maximum fee values.
//!
//! One current tracking period collects the minimum and maximum fee
//! seen; closed periods move into a bounded history. Tie policy: on an
//! equal fee the more recent occurrence replaces the stored one.

use vstd::prelude::*;
use crate::buffer::{spec_fifo_push, CircularBuffer};
use crate::errors::InsightsError;
use crate::types::{ExtremeValue, FeeDataPoint, FeeExtremes, MAX_TIME_MS};

verus! {

/// Configuration for extremes tracking.
#[derive(Clone, Copy, Debug)]
pub struct ExtremesConfig {
    pub tracking_period_ms: i64,
    pub historical_periods_to_keep: usize,
}

impl ExtremesConfig {
    /// A usable configuration: a positive period inside the supported
    /// time model, and room for at least one closed period.
    pub open spec fn wf(self) -> bool {
        &&& 0 < self.tracking_period_ms <= MAX_TIME_MS
        &&& self.historical_periods_to_keep >= 1
    }
}

impl Default for ExtremesConfig {
    /// The default: one-day periods, thirty closed periods kept.
    fn default() -> (r: Self)
        ensures
            r.tracking_period_ms == 86_400_000,
            r.historical_periods_to_keep == 30,
            r.wf(),
    {
        ExtremesConfig { tracking_period_ms: 86_400_000, historical_periods_to_keep: 30 }
    }
}

/// One tracking period and the extremes seen during it.
#[derive(Debug)]
pub struct ExtremePeriod {
    pub min_value: Option<ExtremeValue>,
    pub max_value: Option<ExtremeValue>,
    pub period_start_ms: i64,
    pub period_end_ms: i64,
}

/// Whether the sample's timestamp lies within the period.
pub open spec fn in_period(f: FeeDataPoint, p: ExtremePeriod) -> bool {
    p.period_start_ms <= f.timestamp_ms <= p.period_end_ms
}

/// The extreme value a sample contributes.
pub open spec fn spec_extreme_of(f: FeeDataPoint) -> ExtremeValue {
    ExtremeValue {
        value: f.fee_amount,
        timestamp_ms: f.timestamp_ms,
        transaction_hash: f.transaction_hash,
    }
}

/// One sample folded into the period's extremes: the minimum is
/// replaced when the fee is less than or equal to it (most recent
/// occurrence wins on ties), the maximum symmetrically.
pub open spec fn period_update(p: ExtremePeriod, f: FeeDataPoint) -> ExtremePeriod {
    ExtremePeriod {
        min_value: match p.min_value {
            None => Some(spec_extreme_of(f)),
            Some(m) => if f.fee_amount <= m.value {
                Some(spec_extreme_of(f))
            } else {
                Some(m)
            },
        },
        max_value: match p.max_value {
            None => Some(spec_extreme_of(f)),
            Some(m) => if f.fee_amount >= m.value {
                Some(spec_extreme_of(f))
            } else {
                Some(m)
            },
        },
        period_start_ms: p.period_start_ms,
        period_end_ms: p.period_end_ms,
    }
}

/// A whole batch folded into the period, in order; samples outside the
/// period are ignored.
pub open spec fn period_feed(p: ExtremePeriod, fees: Seq<FeeDataPoint>) -> ExtremePeriod
    decreases fees.len(),
{
    if fees.len() == 0 {
        p
    } else {
        let p1 = if in_period(fees[0], p) {
            period_update(p, fees[0])
        } else {
            p
        };
        period_feed(p1, fees.drop_first())
    }
}

/// A fresh period [start, start + length] with no extremes yet.
pub open spec fn fresh_period(start_ms: i64, length_ms: i64) -> ExtremePeriod {
    ExtremePeriod {
        min_value: None,
        max_value: None,
        period_start_ms: start_ms,
        period_end_ms: (start_ms + length_ms) as i64,
    }
}

/// Internal consistency of a period's extremes: both set or both
/// unset, the minimum not above the maximum, and both timestamps
/// inside the period.
pub open spec fn period_wf(p: ExtremePeriod) -> bool {
    &&& p.min_value is Some <==> p.max_value is Some
    &&& match (p.min_value, p.max_value) {
        (Some(mn), Some(mx)) => {
            &&& mn.value <= mx.value
            &&& p.period_start_ms <= mn.timestamp_ms <= p.period_end_ms
            &&& p.period_start_ms <= mx.timestamp_ms <= p.period_end_ms
        },
        _ => true,
    }
}

/// Feeding preserves period consistency.
pub proof fn lemma_period_feed_wf(p: ExtremePeriod, fees: Seq<FeeDataPoint>)
    requires
        period_wf(p),
    ensures
        period_wf(period_feed(p, fees)),
        period_feed(p, fees).period_start_ms == p.period_start_ms,
        period_feed(p, fees).period_end_ms == p.period_end_ms,
    decreases fees.len(),
{
    if fees.len() > 0 {
        let p1 = if in_period(fees[0], p) {
            period_update(p, fees[0])
        } else {
            p
        };
        assert(period_wf(p1));
        lemma_period_feed_wf(p1, fees.drop_first());
    }
}

/// Every extreme the fold produces is either inherited from the start
/// state or contributed by some in-period sample of the batch.
pub proof fn lemma_period_feed_provenance(p: ExtremePeriod, fees: Seq<FeeDataPoint>)
    ensures
        ({
            let q = period_feed(p, fees);
            &&& (q.min_value matches Some(mn) ==> p.min_value == Some(mn) || exists|i: int|
                0 <= i < fees.len() && in_period(#[trigger] fees[i], p)
                    && spec_extreme_of(fees[i]) == mn)
            &&& (q.max_value matches Some(mx) ==> p.max_value == Some(mx) || exists|i: int|
                0 <= i < fees.len() && in_period(#[trigger] fees[i], p)
                    && spec_extreme_of(fees[i]) == mx)
        }),
    decreases fees.len(),
{
    if fees.len() > 0 {
        let p1 = if in_period(fees[0], p) {
            period_update(p, fees[0])
        } else {
            p
        };
        lemma_period_feed_provenance(p1, fees.drop_first());
        let q = period_feed(p, fees);
        assert(period_feed(p1, fees.drop_first()) == q);
        assert forall|j: int| 0 <= j < fees.drop_first().len() implies #[trigger] fees.drop_first()[j]
            == fees[j + 1] by {}
        match q.min_value {
            Some(mn) => {
                if p1.min_value == Some(mn) {
                    if in_period(fees[0], p) && spec_extreme_of(fees[0]) == mn {
                        assert(exists|i: int|
                            0 <= i < fees.len() && in_period(#[trigger] fees[i], p)
                                && spec_extreme_of(fees[i]) == mn);
                    }
                } else {
                    let j = choose|j: int|
                        0 <= j < fees.drop_first().len()
                            && in_period(#[trigger] fees.drop_first()[j], p1)
                            && spec_extreme_of(fees.drop_first()[j]) == mn;
                    assert(fees[j + 1] == fees.drop_first()[j]);
                    assert(in_period(fees[j + 1], p));
                }
            },
            None => {},
        }
        match q.max_value {
            Some(mx) => {
                if p1.max_value == Some(mx) {
                    if in_period(fees[0], p) && spec_extreme_of(fees[0]) == mx {
                        assert(exists|i: int|
                            0 <= i < fees.len() && in_period(#[trigger] fees[i], p)
                                && spec_extreme_of(fees[i]) == mx);
                    }
                } else {
                    let j = choose|j: int|
                        0 <= j < fees.drop_first().len()
                            && in_period(#[trigger] fees.drop_first()[j], p1)
                            && spec_extreme_of(fees.drop_first()[j]) == mx;
                    assert(fees[j + 1] == fees.drop_first()[j]);
                    assert(in_period(fees[j + 1], p));
                }
            },
            None => {},
        }
    }
}

/// After feeding any non-empty batch of in-period samples into a fresh
/// period, both extremes are set, the minimum does not exceed the
/// maximum, both belong to the batch, and every batch fee lies between
/// them.
pub proof fn lemma_extremes_of_batch(p: ExtremePeriod, fees: Seq<FeeDataPoint>)
    requires
        p.min_value is None,
        p.max_value is None,
        period_wf(p),
        fees.len() > 0,
        forall|i: int| 0 <= i < fees.len() ==> in_period(#[trigger] fees[i], p),
    ensures
        ({
            let q = period_feed(p, fees);
            &&& q.min_value is Some
            &&& q.max_value is Some
            &&& q.min_value.unwrap().value <= q.max_value.unwrap().value
            &&& exists|i: int|
                0 <= i < fees.len()
                    && spec_extreme_of(#[trigger] fees[i]) == q.min_value.unwrap()
            &&& exists|i: int|
                0 <= i < fees.len()
                    && spec_extreme_of(#[trigger] fees[i]) == q.max_value.unwrap()
            &&& forall|i: int|
                0 <= i < fees.len() ==> q.min_value.unwrap().value
                    <= (#[trigger] fees[i]).fee_amount <= q.max_value.unwrap().value
        }),
    decreases fees.len(),
{
    lemma_period_feed_wf(p, fees);
    lemma_period_feed_provenance(p, fees);
    let q = period_feed(p, fees);
    lemma_period_feed_some(p, fees);
    lemma_period_feed_bounds(p, fees);
}

/// Feeding at least one in-period sample sets both extremes.
proof fn lemma_period_feed_some(p: ExtremePeriod, fees: Seq<FeeDataPoint>)
    requires
        fees.len() > 0,
        forall|i: int| 0 <= i < fees.len() ==> in_period(#[trigger] fees[i], p),
    ensures
        period_feed(p, fees).min_value is Some,
        period_feed(p, fees).max_value is Some,
    decreases fees.len(),
{
    assert(in_period(fees[0], p));
    let p1 = period_update(p, fees[0]);
    assert(p1.min_value is Some && p1.max_value is Some);
    if fees.drop_first().len() > 0 {
        assert forall|j: int| 0 <= j < fees.drop_first().len() implies in_period(
            #[trigger] fees.drop_first()[j],
            p1,
        ) by {
            assert(fees.drop_first()[j] == fees[j + 1]);
        }
        lemma_feed_keeps_some(p1, fees.drop_first());
    } else {
        assert(period_feed(p, fees) == period_feed(p1, fees.drop_first()));
        assert(period_feed(p1, fees.drop_first()) == p1);
    }
}

/// Once set, extremes stay set through any further feeding.
proof fn lemma_feed_keeps_some(p: ExtremePeriod, fees: Seq<FeeDataPoint>)
    ensures
        p.min_value is Some ==> period_feed(p, fees).min_value is Some,
        p.max_value is Some ==> period_feed(p, fees).max_value is Some,
    decreases fees.len(),
{
    if fees.len() > 0 {
        let p1 = if in_period(fees[0], p) {
            period_update(p, fees[0])
        } else {
            p
        };
        lemma_feed_keeps_some(p1, fees.drop_first());
    }
}

/// After the fold, every in-period batch fee lies between the
/// resulting extremes.
proof fn lemma_period_feed_bounds(p: ExtremePeriod, fees: Seq<FeeDataPoint>)
    requires
        period_wf(p),
    ensures
        forall|i: int|
            0 <= i < fees.len() && in_period(#[trigger] fees[i], p) ==> {
                let q = period_feed(p, fees);
                &&& (q.min_value matches Some(mn) ==> mn.value <= fees[i].fee_amount)
                &&& (q.max_value matches Some(mx) ==> fees[i].fee_amount <= mx.value)
            },
    decreases fees.len(),
{
    if fees.len() > 0 {
        let p1 = if in_period(fees[0], p) {
            period_update(p, fees[0])
        } else {
            p
        };
        assert(period_wf(p1));
        lemma_period_feed_bounds(p1, fees.drop_first());
        lemma_feed_mono(p1, fees.drop_first());
        let q = period_feed(p, fees);
        assert forall|i: int|
            0 <= i < fees.len() && in_period(#[trigger] fees[i], p) implies {
                &&& (q.min_value matches Some(mn) ==> mn.value <= fees[i].fee_amount)
                &&& (q.max_value matches Some(mx) ==> fees[i].fee_amount <= mx.value)
            } by {
            if i > 0 {
                assert(fees.drop_first()[i - 1] == fees[i]);
                assert(in_period(fees.drop_first()[i - 1], p1));
            }
        }
    }
}

/// Feeding only moves the minimum down and the maximum up.
proof fn lemma_feed_mono(p: ExtremePeriod, fees: Seq<FeeDataPoint>)
    ensures
        ({
            let q = period_feed(p, fees);
            &&& (p.min_value matches Some(m0) ==> q.min_value matches Some(mn)
                && mn.value <= m0.value)
            &&& (p.max_value matches Some(m1) ==> q.max_value matches Some(mx)
                && mx.value >= m1.value)
        }),
    decreases fees.len(),
{
    if fees.len() > 0 {
        let p1 = if in_period(fees[0], p) {
            period_update(p, fees[0])
        } else {
            p
        };
        lemma_feed_mono(p1, fees.drop_first());
    }
}

impl ExtremePeriod {
    /// The period's extremes as a report, when both are set.
    pub open spec fn spec_to_fee_extremes(self) -> Option<FeeExtremes> {
        match (self.min_value, self.max_value) {
            (Some(mn), Some(mx)) => Some(FeeExtremes {
                current_min: mn,
                current_max: mx,
                period_start_ms: self.period_start_ms,
                period_end_ms: self.period_end_ms,
            }),
            _ => None,
        }
    }

    /// Report the period's extremes, when both are set.
    pub fn to_fee_extremes(&self) -> (r: Option<FeeExtremes>)
        ensures
            r == self.spec_to_fee_extremes(),
    {
        match (&self.min_value, &self.max_value) {
            (Some(mn), Some(mx)) => Some(FeeExtremes {
                current_min: mn.clone(),
                current_max: mx.clone(),
                period_start_ms: self.period_start_ms,
                period_end_ms: self.period_end_ms,
            }),
            _ => None,
        }
    }
}

/// Tracker for minimum and maximum fee values.
pub struct ExtremesTracker {
    config: ExtremesConfig,
    current_period: ExtremePeriod,
    historical_periods: CircularBuffer<ExtremePeriod>,
}

impl ExtremesTracker {
    /// The configuration.
    pub closed spec fn spec_config(self) -> ExtremesConfig {
        self.config
    }

    /// The current tracking period.
    pub closed spec fn spec_current(self) -> ExtremePeriod {
        self.current_period
    }

    /// The closed periods, oldest first.
    pub closed spec fn spec_history(self) -> Seq<ExtremePeriod> {
        self.historical_periods@
    }

    /// Structural invariant.
    pub closed spec fn wf(self) -> bool {
        &&& self.config.wf()
        &&& self.historical_periods.wf()
        &&& self.historical_periods.spec_capacity() == self.config.historical_periods_to_keep
        &&& period_wf(self.current_period)
        &&& self.current_period.period_start_ms <= self.current_period.period_end_ms
    }

    /// The current period of a well-formed tracker is consistent.
    pub proof fn lemma_wf_current(self)
        requires
            self.wf(),
        ensures
            period_wf(self.spec_current()),
            self.spec_config().wf(),
            self.spec_history().len() <= self.spec_config().historical_periods_to_keep,
    {
        self.historical_periods.lemma_wf_len();
    }

    /// Create a new extremes tracker whose first period starts at `now`.
    pub fn new(config: ExtremesConfig, now_ms: i64) -> (r: Self)
        requires
            config.wf(),
            0 <= now_ms <= MAX_TIME_MS,
        ensures
            r.wf(),
            r.spec_config() == config,
            r.spec_current() == fresh_period(now_ms, config.tracking_period_ms),
            r.spec_history() == Seq::<ExtremePeriod>::empty(),
    {
        ExtremesTracker {
            config,
            current_period: ExtremePeriod {
                min_value: None,
                max_value: None,
                period_start_ms: now_ms,
                period_end_ms: now_ms + config.tracking_period_ms,
            },
            historical_periods: CircularBuffer::new(config.historical_periods_to_keep),
        }
    }

    /// Update with new fee data at instant `now`. When the current
    /// period has ended, it is first closed into the bounded history
    /// and a fresh period [now, now + tracking period] is opened. Every
    /// sample inside the (possibly fresh) period is then folded into
    /// its extremes, most recent occurrence winning ties.
    pub fn update_with_fees(&mut self, fees: &Vec<FeeDataPoint>, now_ms: i64) -> (r: Result<
        (),
        InsightsError,
    >)
        requires
            old(self).wf(),
            0 <= now_ms <= MAX_TIME_MS,
        ensures
            r is Ok,
            final(self).wf(),
            final(self).spec_config() == old(self).spec_config(),
            ({
                let rotated = now_ms >= old(self).spec_current().period_end_ms;
                let base = if rotated {
                    fresh_period(now_ms, old(self).spec_config().tracking_period_ms)
                } else {
                    old(self).spec_current()
                };
                &&& final(self).spec_current() == period_feed(base, fees@)
                &&& final(self).spec_history() == if rotated {
                    spec_fifo_push(
                        old(self).spec_history(),
                        old(self).spec_current(),
                        old(self).spec_config().historical_periods_to_keep as int,
                    )
                } else {
                    old(self).spec_history()
                }
            }),
    {
        if now_ms >= self.current_period.period_end_ms {
            self.rotate_period(now_ms);
        }
        let ghost base = self.current_period;
        let ghost hist0 = self.spec_history();
        proof {
            assert(fees@.subrange(0, fees@.len() as int) =~= fees@);
        }
        let mut i: usize = 0;
        while i < fees.len()
            invariant
                0 <= i <= fees@.len(),
                period_wf(self.current_period),
                self.config == old(self).config,
                self.config.wf(),
                self.historical_periods.wf(),
                self.historical_periods.spec_capacity()
                    == self.config.historical_periods_to_keep,
                self.spec_history() == hist0,
                self.current_period.period_start_ms == base.period_start_ms,
                self.current_period.period_end_ms == base.period_end_ms,
                base.period_start_ms <= base.period_end_ms,
                period_feed(self.current_period, fees@.subrange(i as int, fees@.len() as int))
                    == period_feed(base, fees@),
            decreases fees@.len() - i,
        {
            let ghost pre = self.current_period;
            let ghost rest = fees@.subrange(i as int, fees@.len() as int);
            let f = &fees[i];
            if f.timestamp_ms >= self.current_period.period_start_ms
                && f.timestamp_ms <= self.current_period.period_end_ms {
                self.apply_sample(i, fees);
            }
            proof {
                assert(rest.len() > 0);
                assert(rest[0] == fees@[i as int]);
                assert(rest.drop_first() =~= fees@.subrange(i + 1 as int, fees@.len() as int));
                assert(self.current_period == if in_period(rest[0], pre) {
                    period_update(pre, rest[0])
                } else {
                    pre
                });
            }
            i = i + 1;
        }
        proof {
            assert(fees@.subrange(fees@.len() as int, fees@.len() as int)
                =~= Seq::<FeeDataPoint>::empty());
        }
        Ok(())
    }

    /// Fold the `i`-th sample of the batch into the current period.
    fn apply_sample(&mut self, i: usize, fees: &Vec<FeeDataPoint>)
        requires
            i < fees@.len(),
            in_period(fees@[i as int], old(self).current_period),
            period_wf(old(self).current_period),
        ensures
            final(self).current_period == period_update(old(self).current_period, fees@[i as int]),
            final(self).config == old(self).config,
            final(self).historical_periods == old(self).historical_periods,
            period_wf(final(self).current_period),
    {
        let f = &fees[i];
        let extreme = ExtremeValue {
            value: f.fee_amount,
            timestamp_ms: f.timestamp_ms,
            transaction_hash: f.transaction_hash.clone(),
        };
        let replace_min = match &self.current_period.min_value {
            None => true,
            Some(m) => f.fee_amount <= m.value,
        };
        let replace_max = match &self.current_period.max_value {
            None => true,
            Some(m) => f.fee_amount >= m.value,
        };
        if replace_min {
            self.current_period.min_value = Some(extreme.clone());
        }
        if replace_max {
            self.current_period.max_value = Some(extreme);
        }
    }

    /// Close the current period into the history and open a fresh one.
    fn rotate_period(&mut self, now_ms: i64)
        requires
            old(self).wf(),
            0 <= now_ms <= MAX_TIME_MS,
        ensures
            final(self).wf(),
            final(self).config == old(self).config,
            final(self).current_period == fresh_period(
                now_ms,
                old(self).config.tracking_period_ms,
            ),
            final(self).spec_history() == spec_fifo_push(
                old(self).spec_history(),
                old(self).spec_current(),
                old(self).config.historical_periods_to_keep as int,
            ),
    {
        let mut fresh = ExtremePeriod {
            min_value: None,
            max_value: None,
            period_start_ms: now_ms,
            period_end_ms: now_ms + self.config.tracking_period_ms,
        };
        core::mem::swap(&mut self.current_period, &mut fresh);
        self.historical_periods.push(fresh);
    }

    /// Current extremes; an insufficient-data error while the current
    /// period has seen no sample.
    pub fn get_current_extremes(&self) -> (r: Result<FeeExtremes, InsightsError>)
        ensures
            match r {
                Ok(e) => self.spec_current().spec_to_fee_extremes() == Some(e),
                Err(e) => {
                    &&& self.spec_current().spec_to_fee_extremes() is None
                    &&& e is InsufficientData
                },
            },
    {
        match self.current_period.to_fee_extremes() {
            Some(e) => Ok(e),
            None => Err(
                InsightsError::insufficient_data(
                    "No fee data available for current period".to_owned(),
                ),
            ),
        }
    }

    /// Reported extremes of the stored closed periods, most recent
    /// first, at most `periods_back` of them; periods without data are
    /// skipped.
    pub fn get_historical_extremes(&self, periods_back: usize) -> (r: Vec<FeeExtremes>)
        ensures
            r@ == spec_recent_reports(self.spec_history(), periods_back as int),
            r@.len() <= periods_back,
    {
        proof {
            lemma_recent_reports_len(self.spec_history(), periods_back as int);
        }
        let mut out: Vec<FeeExtremes> = Vec::new();
        let hist = self.historical_periods.iter();
        let mut remaining: usize = periods_back;
        let mut i: usize = hist.len();
        proof {
            assert(hist@.subrange(0, hist@.len() as int) =~= hist@);
        }
        while i > 0 && remaining > 0
            invariant
                0 <= i <= hist@.len(),
                remaining <= periods_back,
                hist@ == self.spec_history(),
                out@ + spec_recent_reports(hist@.subrange(0, i as int), remaining as int)
                    =~= spec_recent_reports(hist@, periods_back as int),
            decreases i,
        {
            let ghost pre = hist@.subrange(0, i as int);
            i = i - 1;
            remaining = remaining - 1;
            proof {
                assert(pre.last() == hist@[i as int]);
                assert(pre.drop_last() =~= hist@.subrange(0, i as int));
            }
            if let Some(e) = vecdeque_period_extremes(hist, i) {
                out.push(e);
            }
        }
        proof {
            if i == 0 {
                assert(hist@.subrange(0, 0) =~= Seq::<ExtremePeriod>::empty());
            }
            assert(out@ + spec_recent_reports(hist@.subrange(0, i as int), remaining as int)
                =~= out@);
        }
        out
    }

    /// Reported extremes of every stored closed period, oldest first;
    /// periods without data are skipped.
    pub fn get_all_historical_extremes(&self) -> (r: Vec<FeeExtremes>)
        ensures
            r@ == spec_history_reports(self.spec_history()),
            r@.len() <= self.spec_history().len(),
    {
        proof {
            lemma_history_reports_len(self.spec_history());
        }
        let mut out: Vec<FeeExtremes> = Vec::new();
        let hist = self.historical_periods.iter();
        let mut i: usize = 0;
        proof {
            assert(hist@.subrange(0, 0) =~= Seq::<ExtremePeriod>::empty());
        }
        while i < hist.len()
            invariant
                0 <= i <= hist@.len(),
                hist@ == self.spec_history(),
                out@ == spec_history_reports(hist@.subrange(0, i as int)),
            decreases hist@.len() - i,
        {
            let ghost prefix = hist@.subrange(0, i as int);
            proof {
                assert(hist@.subrange(0, i + 1 as int) =~= prefix.push(hist@[i as int]));
                assert(hist@.subrange(0, i + 1 as int).drop_last() =~= prefix);
            }
            if let Some(e) = vecdeque_period_extremes(hist, i) {
                out.push(e);
            }
            i = i + 1;
        }
        proof {
            assert(hist@.subrange(0, hist@.len() as int) =~= hist@);
        }
        out
    }

    /// Close the current period into the history when it has data,
    /// then open a fresh period starting at `now`.
    pub fn reset_current_period(&mut self, now_ms: i64) -> (r: Result<(), InsightsError>)
        requires
            old(self).wf(),
            0 <= now_ms <= MAX_TIME_MS,
        ensures
            r is Ok,
            final(self).wf(),
            final(self).spec_config() == old(self).spec_config(),
            final(self).spec_current() == fresh_period(
                now_ms,
                old(self).spec_config().tracking_period_ms,
            ),
            final(self).spec_history() == if old(self).spec_current().min_value is Some
                || old(self).spec_current().max_value is Some {
                spec_fifo_push(
                    old(self).spec_history(),
                    old(self).spec_current(),
                    old(self).spec_config().historical_periods_to_keep as int,
                )
            } else {
                old(self).spec_history()
            },
    {
        let has_data = self.current_period.min_value.is_some()
            || self.current_period.max_value.is_some();
        if has_data {
            self.rotate_period(now_ms);
        } else {
            self.current_period = ExtremePeriod {
                min_value: None,
                max_value: None,
                period_start_ms: now_ms,
                period_end_ms: now_ms + self.config.tracking_period_ms,
            };
        }
        Ok(())
    }

    /// Whether the current period has seen any sample.
    pub fn has_current_data(&self) -> (r: bool)
        ensures
            r == (self.spec_current().min_value is Some || self.spec_current().max_value is Some),
    {
        self.current_period.min_value.is_some() || self.current_period.max_value.is_some()
    }

    /// Number of closed periods stored.
    pub fn historical_period_count(&self) -> (r: usize)
        ensures
            r == self.spec_history().len(),
    {
        self.historical_periods.len()
    }

    /// Start and end of the current tracking period.
    pub fn get_current_period_info(&self) -> (r: (i64, i64))
        ensures
            r.0 == self.spec_current().period_start_ms,
            r.1 == self.spec_current().period_end_ms,
    {
        (self.current_period.period_start_ms, self.current_period.period_end_ms)
    }
}

/// The reports of every period with data, oldest first.
pub open spec fn spec_history_reports(hist: Seq<ExtremePeriod>) -> Seq<FeeExtremes>
    decreases hist.len(),
{
    if hist.len() == 0 {
        Seq::empty()
    } else {
        let prev = spec_history_reports(hist.drop_last());
        match hist.last().spec_to_fee_extremes() {
            Some(e) => prev.push(e),
            None => prev,
        }
    }
}

/// At most one report per period.
pub proof fn lemma_history_reports_len(hist: Seq<ExtremePeriod>)
    ensures
        spec_history_reports(hist).len() <= hist.len(),
    decreases hist.len(),
{
    if hist.len() > 0 {
        lemma_history_reports_len(hist.drop_last());
    }
}

/// The reports of the most recent `k` periods, newest first; periods
/// without data are skipped but still count against `k`.
pub open spec fn spec_recent_reports(hist: Seq<ExtremePeriod>, k: int) -> Seq<FeeExtremes>
    decreases hist.len(),
{
    if k <= 0 || hist.len() == 0 {
        Seq::empty()
    } else {
        let head: Seq<FeeExtremes> = match hist.last().spec_to_fee_extremes() {
            Some(e) => seq![e],
            None => Seq::empty(),
        };
        head + spec_recent_reports(hist.drop_last(), k - 1)
    }
}

/// At most one report per recent period considered.
pub proof fn lemma_recent_reports_len(hist: Seq<ExtremePeriod>, k: int)
    ensures
        spec_recent_reports(hist, k).len() <= (if k <= 0 {
            0int
        } else {
            k
        }),
    decreases hist.len(),
{
    if k > 0 && hist.len() > 0 {
        lemma_recent_reports_len(hist.drop_last(), k - 1);
    }
}

/// Reported extremes of the `i`-th stored period.
fn vecdeque_period_extremes(
    hist: &std::collections::VecDeque<ExtremePeriod>,
    i: usize,
) -> (r: Option<FeeExtremes>)
    requires
        i < hist@.len(),
    ensures
        r == hist@[i as int].spec_to_fee_extremes(),
{
    hist[i].to_fee_extremes()
}

} // verus!
