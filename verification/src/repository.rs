//! In-memory repository for fee data, alert configurations, and alert
//! events.
//!
//! Models the service's durable store: samples are inserted in bulk
//! and pruned by a timestamp cutoff, alert configurations support
//! create / list / update / soft-delete, and every alert dispatch
//! attempt is logged as exactly one event row. Row identifiers are
//! assigned in insertion order starting at one.

use vstd::prelude::*;
use crate::horizon::HorizonFeeStats;
use crate::ratio::Ratio;
use crate::sort::{sort_by_time, spec_sort_by_time, time_sorted};
use crate::types::FeeDataPoint;

verus! {

/// Largest number of rows an id-carrying table may hold, keeping id
/// arithmetic inside 64 bits.
pub const MAX_TABLE_ROWS: usize = 1_000_000_000;

/// Whether `t` is a valid alert threshold: one of Minor, Major,
/// Critical.
pub fn is_valid_threshold(t: &str) -> (r: bool)
    ensures
        r == (t@ == "Minor"@ || t@ == "Major"@ || t@ == "Critical"@),
{
    let s = t.to_owned();
    s == "Minor".to_owned() || s == "Major".to_owned() || s == "Critical".to_owned()
}

/// A single alert webhook configuration row.
#[derive(Debug)]
pub struct AlertConfig {
    pub id: i64,
    pub webhook_url: String,
    pub threshold: String,
    pub enabled: bool,
    pub created_at_ms: i64,
}

impl Clone for AlertConfig {
    fn clone(&self) -> (r: Self)
        ensures
            r == *self,
    {
        AlertConfig {
            id: self.id,
            webhook_url: self.webhook_url.clone(),
            threshold: self.threshold.clone(),
            enabled: self.enabled,
            created_at_ms: self.created_at_ms,
        }
    }
}

/// A single fired-alert log entry.
#[derive(Debug)]
pub struct AlertEvent {
    pub id: Option<i64>,
    pub config_id: Option<i64>,
    pub severity: String,
    pub peak_fee: i64,
    pub baseline_fee: Ratio,
    pub spike_ratio: Ratio,
    pub webhook_url: String,
    pub delivered: bool,
    pub triggered_at_ms: i64,
}

impl Clone for AlertEvent {
    fn clone(&self) -> (r: Self)
        ensures
            r == *self,
    {
        AlertEvent {
            id: self.id,
            config_id: self.config_id,
            severity: self.severity.clone(),
            peak_fee: self.peak_fee,
            baseline_fee: self.baseline_fee,
            spike_ratio: self.spike_ratio,
            webhook_url: self.webhook_url.clone(),
            delivered: self.delivered,
            triggered_at_ms: self.triggered_at_ms,
        }
    }
}

/// A stored point-in-time capture of upstream fee statistics.
#[derive(Debug)]
pub struct FeeSnapshot {
    pub base_fee: String,
    pub min_fee: String,
    pub max_fee: String,
    pub avg_fee: String,
    pub captured_at_ms: i64,
}

/// Whether an event passes the optional severity and delivery filters.
pub open spec fn event_matches(
    e: AlertEvent,
    severity: Option<Seq<char>>,
    delivered: Option<bool>,
) -> bool {
    &&& (match severity {
        Some(s) => e.severity@ == s,
        None => true,
    })
    &&& (match delivered {
        Some(d) => e.delivered == d,
        None => true,
    })
}

/// The id an event row carries, for ordering; zero when unset.
pub open spec fn event_id_of(e: AlertEvent) -> int {
    match e.id {
        Some(i) => i as int,
        None => 0,
    }
}

/// Event output order: by trigger time descending, ties broken by id
/// descending (most recently inserted first).
pub open spec fn ev_before(a: AlertEvent, b: AlertEvent) -> bool {
    ||| a.triggered_at_ms > b.triggered_at_ms
    ||| (a.triggered_at_ms == b.triggered_at_ms && event_id_of(a) >= event_id_of(b))
}

/// The sequence is in event output order.
pub open spec fn ev_sorted(s: Seq<AlertEvent>) -> bool {
    forall|i: int, j: int| 0 <= i < j < s.len() ==> ev_before(#[trigger] s[i], #[trigger] s[j])
}

/// Position at which `x` is inserted into the ordered sequence.
pub open spec fn ev_insert_pos(s: Seq<AlertEvent>, x: AlertEvent) -> int
    decreases s.len(),
{
    if s.len() == 0 {
        0
    } else if ev_before(s[0], x) {
        1 + ev_insert_pos(s.drop_first(), x)
    } else {
        0
    }
}

/// The insertion position is the first index holding an element that
/// does not precede `x`.
pub proof fn lemma_ev_insert_pos_props(s: Seq<AlertEvent>, x: AlertEvent)
    ensures
        0 <= ev_insert_pos(s, x) <= s.len(),
        forall|j: int| 0 <= j < ev_insert_pos(s, x) ==> ev_before(#[trigger] s[j], x),
        ev_insert_pos(s, x) < s.len() ==> !ev_before(s[ev_insert_pos(s, x)], x),
    decreases s.len(),
{
    if s.len() > 0 && ev_before(s[0], x) {
        lemma_ev_insert_pos_props(s.drop_first(), x);
        let p = ev_insert_pos(s, x);
        assert forall|j: int| 0 <= j < p implies ev_before(#[trigger] s[j], x) by {
            if j > 0 {
                assert(s.drop_first()[j - 1] == s[j]);
            }
        }
        if p < s.len() {
            assert(s.drop_first()[p - 1] == s[p]);
        }
    }
}

/// `x` inserted into the ordered sequence at its position.
pub open spec fn ev_insert_sorted(s: Seq<AlertEvent>, x: AlertEvent) -> Seq<AlertEvent> {
    s.insert(ev_insert_pos(s, x), x)
}

/// Ordered insertion keeps the sequence ordered.
pub proof fn lemma_ev_insert_sorted(s: Seq<AlertEvent>, x: AlertEvent)
    requires
        ev_sorted(s),
    ensures
        ev_sorted(ev_insert_sorted(s, x)),
        ev_insert_sorted(s, x).len() == s.len() + 1,
{
    lemma_ev_insert_pos_props(s, x);
    let p = ev_insert_pos(s, x);
    let t = ev_insert_sorted(s, x);
    s.insert_ensures(p, x);
    assert forall|i: int, j: int| 0 <= i < j < t.len() implies ev_before(
        #[trigger] t[i],
        #[trigger] t[j],
    ) by {
        if i < p && j < p {
            assert(t[i] == s[i] && t[j] == s[j]);
        } else if i < p && j == p {
            assert(t[i] == s[i] && t[j] == x);
        } else if i < p && j > p {
            assert(t[i] == s[i] && t[j] == s[j - 1]);
        } else if i == p && j > p {
            assert(t[i] == x && t[j] == s[j - 1]);
            if p < s.len() {
                assert(!ev_before(s[p], x));
                assert(ev_before(x, s[p]));
                if j - 1 > p {
                    assert(ev_before(s[p], s[j - 1]));
                }
            }
        } else {
            assert(t[i] == s[i - 1] && t[j] == s[j - 1]);
        }
    }
}

/// Number of rows matching the optional filters.
pub open spec fn spec_event_count(
    rows: Seq<AlertEvent>,
    severity: Option<Seq<char>>,
    delivered: Option<bool>,
) -> int
    decreases rows.len(),
{
    if rows.len() == 0 {
        0
    } else {
        spec_event_count(rows.drop_last(), severity, delivered) + if event_matches(
            rows.last(),
            severity,
            delivered,
        ) {
            1int
        } else {
            0int
        }
    }
}

/// The match count never exceeds the row count.
pub proof fn lemma_event_count_bound(
    rows: Seq<AlertEvent>,
    severity: Option<Seq<char>>,
    delivered: Option<bool>,
)
    ensures
        0 <= spec_event_count(rows, severity, delivered) <= rows.len(),
    decreases rows.len(),
{
    if rows.len() > 0 {
        lemma_event_count_bound(rows.drop_last(), severity, delivered);
    }
}

/// The filtered events in output order, built by ordered insertion
/// left to right over the stored rows.
pub open spec fn spec_events_ordered(
    rows: Seq<AlertEvent>,
    severity: Option<Seq<char>>,
    delivered: Option<bool>,
) -> Seq<AlertEvent>
    decreases rows.len(),
{
    if rows.len() == 0 {
        Seq::empty()
    } else {
        let prev = spec_events_ordered(rows.drop_last(), severity, delivered);
        if event_matches(rows.last(), severity, delivered) {
            ev_insert_sorted(prev, rows.last())
        } else {
            prev
        }
    }
}

/// The ordered filtered view is ordered, no longer than the table, and
/// exactly as long as the filtered table.
pub proof fn lemma_events_ordered_props(
    rows: Seq<AlertEvent>,
    severity: Option<Seq<char>>,
    delivered: Option<bool>,
)
    ensures
        ev_sorted(spec_events_ordered(rows, severity, delivered)),
        spec_events_ordered(rows, severity, delivered).len() == rows.filter(
            |e: AlertEvent| event_matches(e, severity, delivered),
        ).len(),
    decreases rows.len(),
{
    reveal(Seq::filter);
    if rows.len() > 0 {
        lemma_events_ordered_props(rows.drop_last(), severity, delivered);
        if event_matches(rows.last(), severity, delivered) {
            lemma_ev_insert_sorted(spec_events_ordered(rows.drop_last(), severity, delivered), rows.last());
        }
    }
}

/// Repository for fee data, alert configurations, and alert events.
pub struct FeeRepository {
    samples: Vec<FeeDataPoint>,
    snapshots: Vec<FeeSnapshot>,
    alert_configs: Vec<AlertConfig>,
    alert_events: Vec<AlertEvent>,
}

impl FeeRepository {
    /// The stored fee samples, in insertion order.
    pub closed spec fn spec_samples(self) -> Seq<FeeDataPoint> {
        self.samples@
    }

    /// The stored snapshots, in insertion order.
    pub closed spec fn spec_snapshots(self) -> Seq<FeeSnapshot> {
        self.snapshots@
    }

    /// The stored alert configurations, in id order.
    pub closed spec fn spec_configs(self) -> Seq<AlertConfig> {
        self.alert_configs@
    }

    /// The stored alert events, in insertion order.
    pub closed spec fn spec_events(self) -> Seq<AlertEvent> {
        self.alert_events@
    }

    /// Structural invariant: configuration rows carry ids 1..=len in
    /// order, event rows likewise, and both id-carrying tables stay
    /// small enough for id arithmetic.
    pub closed spec fn wf(self) -> bool {
        &&& self.alert_configs@.len() <= MAX_TABLE_ROWS
        &&& self.alert_events@.len() <= MAX_TABLE_ROWS
        &&& forall|i: int|
            0 <= i < self.alert_configs@.len()
                ==> (#[trigger] self.alert_configs@[i]).id == i + 1
        &&& forall|i: int|
            0 <= i < self.alert_events@.len()
                ==> (#[trigger] self.alert_events@[i]).id == Some((i + 1) as i64)
    }

    /// Row ids are positions plus one.
    pub proof fn lemma_wf_ids(self)
        requires
            self.wf(),
        ensures
            forall|i: int|
                0 <= i < self.spec_configs().len()
                    ==> (#[trigger] self.spec_configs()[i]).id == i + 1,
            forall|i: int|
                0 <= i < self.spec_events().len()
                    ==> (#[trigger] self.spec_events()[i]).id == Some((i + 1) as i64),
            self.spec_configs().len() <= MAX_TABLE_ROWS,
            self.spec_events().len() <= MAX_TABLE_ROWS,
    {
    }

    /// Create an empty repository.
    pub fn new() -> (r: Self)
        ensures
            r.wf(),
            r.spec_samples() == Seq::<FeeDataPoint>::empty(),
            r.spec_snapshots() == Seq::<FeeSnapshot>::empty(),
            r.spec_configs() == Seq::<AlertConfig>::empty(),
            r.spec_events() == Seq::<AlertEvent>::empty(),
    {
        FeeRepository {
            samples: Vec::new(),
            snapshots: Vec::new(),
            alert_configs: Vec::new(),
            alert_events: Vec::new(),
        }
    }

    /// Bulk-insert fee data points. All points are appended in order;
    /// an empty batch is a no-op success.
    pub fn insert_fee_points(&mut self, points: &Vec<FeeDataPoint>) -> (r: Result<(), ()>)
        requires
            old(self).wf(),
        ensures
            r is Ok,
            final(self).wf(),
            final(self).spec_samples() == old(self).spec_samples() + points@,
            final(self).spec_snapshots() == old(self).spec_snapshots(),
            final(self).spec_configs() == old(self).spec_configs(),
            final(self).spec_events() == old(self).spec_events(),
    {
        let mut i: usize = 0;
        proof {
            assert(self.samples@ + points@.subrange(0, 0) =~= self.samples@);
        }
        while i < points.len()
            invariant
                0 <= i <= points@.len(),
                self.samples@ == old(self).samples@ + points@.subrange(0, i as int),
                self.snapshots == old(self).snapshots,
                self.alert_configs == old(self).alert_configs,
                self.alert_events == old(self).alert_events,
                old(self).wf(),
            decreases points@.len() - i,
        {
            self.samples.push(points[i].clone());
            proof {
                assert(old(self).samples@ + points@.subrange(0, i + 1 as int)
                    =~= (old(self).samples@ + points@.subrange(0, i as int)).push(
                    points@[i as int]));
            }
            i = i + 1;
        }
        proof {
            assert(points@.subrange(0, points@.len() as int) =~= points@);
        }
        Ok(())
    }

    /// All stored samples with timestamp at or after `since`, ordered
    /// ascending by timestamp (ties by ledger sequence).
    pub fn fetch_since(&self, since_ms: i64) -> (r: Vec<FeeDataPoint>)
        ensures
            r@ == spec_sort_by_time(
                self.spec_samples().filter(|p: FeeDataPoint| p.timestamp_ms >= since_ms),
            ),
            time_sorted(r@),
    {
        let mut kept: Vec<FeeDataPoint> = Vec::new();
        let mut i: usize = 0;
        while i < self.samples.len()
            invariant
                0 <= i <= self.samples@.len(),
                kept@ == self.samples@.subrange(0, i as int).filter(
                    |p: FeeDataPoint| p.timestamp_ms >= since_ms,
                ),
            decreases self.samples@.len() - i,
        {
            let ghost prefix = self.samples@.subrange(0, i as int);
            let p = &self.samples[i];
            if p.timestamp_ms >= since_ms {
                kept.push(p.clone());
            }
            proof {
                assert(self.samples@.subrange(0, i + 1 as int)
                    =~= prefix.push(self.samples@[i as int]));
                crate::store::lemma_filter_push(
                    prefix,
                    self.samples@[i as int],
                    |q: FeeDataPoint| q.timestamp_ms >= since_ms,
                );
            }
            i = i + 1;
        }
        proof {
            assert(self.samples@.subrange(0, self.samples@.len() as int) =~= self.samples@);
        }
        let sorted = sort_by_time(&kept);
        sorted
    }

    /// Store a point-in-time capture of upstream fee statistics.
    pub fn insert_snapshot(&mut self, snapshot: &HorizonFeeStats, now_ms: i64) -> (r: Result<
        (),
        (),
    >)
        requires
            old(self).wf(),
        ensures
            r is Ok,
            final(self).wf(),
            final(self).spec_snapshots().len() == old(self).spec_snapshots().len() + 1,
            ({
                let added = final(self).spec_snapshots().last();
                &&& added.base_fee@ == snapshot.last_ledger_base_fee@
                &&& added.min_fee@ == snapshot.fee_charged.min@
                &&& added.max_fee@ == snapshot.fee_charged.max@
                &&& added.avg_fee@ == snapshot.fee_charged.avg@
                &&& added.captured_at_ms == now_ms
            }),
            final(self).spec_samples() == old(self).spec_samples(),
            final(self).spec_configs() == old(self).spec_configs(),
            final(self).spec_events() == old(self).spec_events(),
    {
        self.snapshots.push(FeeSnapshot {
            base_fee: snapshot.last_ledger_base_fee.clone(),
            min_fee: snapshot.fee_charged.min.clone(),
            max_fee: snapshot.fee_charged.max.clone(),
            avg_fee: snapshot.fee_charged.avg.clone(),
            captured_at_ms: now_ms,
        });
        Ok(())
    }

    /// Delete all stored samples older than `cutoff`; afterwards no
    /// stored sample has a timestamp below the cutoff. Returns the
    /// number of rows deleted.
    pub fn prune_older_than(&mut self, cutoff_ms: i64) -> (r: u64)
        requires
            old(self).wf(),
        ensures
            final(self).wf(),
            final(self).spec_samples() == old(self).spec_samples().filter(
                |p: FeeDataPoint| p.timestamp_ms >= cutoff_ms,
            ),
            forall|i: int|
                0 <= i < final(self).spec_samples().len()
                    ==> (#[trigger] final(self).spec_samples()[i]).timestamp_ms >= cutoff_ms,
            r as int == old(self).spec_samples().len() - final(self).spec_samples().len(),
            final(self).spec_snapshots() == old(self).spec_snapshots(),
            final(self).spec_configs() == old(self).spec_configs(),
            final(self).spec_events() == old(self).spec_events(),
    {
        let mut kept: Vec<FeeDataPoint> = Vec::new();
        let mut i: usize = 0;
        while i < self.samples.len()
            invariant
                0 <= i <= self.samples@.len(),
                kept@ == self.samples@.subrange(0, i as int).filter(
                    |p: FeeDataPoint| p.timestamp_ms >= cutoff_ms,
                ),
            decreases self.samples@.len() - i,
        {
            let ghost prefix = self.samples@.subrange(0, i as int);
            let p = &self.samples[i];
            if p.timestamp_ms >= cutoff_ms {
                kept.push(p.clone());
            }
            proof {
                assert(self.samples@.subrange(0, i + 1 as int)
                    =~= prefix.push(self.samples@[i as int]));
                crate::store::lemma_filter_push(
                    prefix,
                    self.samples@[i as int],
                    |q: FeeDataPoint| q.timestamp_ms >= cutoff_ms,
                );
            }
            i = i + 1;
        }
        proof {
            assert(self.samples@.subrange(0, self.samples@.len() as int) =~= self.samples@);
            lemma_filter_len(self.samples@, |q: FeeDataPoint| q.timestamp_ms >= cutoff_ms);
            lemma_filter_all(self.samples@, |q: FeeDataPoint| q.timestamp_ms >= cutoff_ms);
        }
        let removed = (self.samples.len() - kept.len()) as u64;
        self.samples = kept;
        removed
    }

    /// Register a new alert webhook configuration, enabled, with the
    /// given threshold. Returns the new row id.
    pub fn insert_alert_config(&mut self, webhook_url: &str, threshold: &str, now_ms: i64) -> (r:
        i64)
        requires
            old(self).wf(),
            old(self).spec_configs().len() < MAX_TABLE_ROWS,
        ensures
            final(self).wf(),
            r == old(self).spec_configs().len() + 1,
            final(self).spec_configs().len() == old(self).spec_configs().len() + 1,
            ({
                let added = final(self).spec_configs().last();
                &&& added.id == r
                &&& added.webhook_url@ == webhook_url@
                &&& added.threshold@ == threshold@
                &&& added.enabled
                &&& added.created_at_ms == now_ms
            }),
            forall|i: int|
                0 <= i < old(self).spec_configs().len()
                    ==> #[trigger] final(self).spec_configs()[i] == old(self).spec_configs()[i],
            final(self).spec_samples() == old(self).spec_samples(),
            final(self).spec_events() == old(self).spec_events(),
    {
        let id = (self.alert_configs.len() as i64) + 1;
        self.alert_configs.push(AlertConfig {
            id,
            webhook_url: webhook_url.to_owned(),
            threshold: threshold.to_owned(),
            enabled: true,
            created_at_ms: now_ms,
        });
        id
    }

    /// All alert configurations, enabled and disabled, in id order.
    pub fn list_alert_configs(&self) -> (r: Vec<AlertConfig>)
        ensures
            r@ == self.spec_configs(),
    {
        let mut out: Vec<AlertConfig> = Vec::new();
        let mut i: usize = 0;
        while i < self.alert_configs.len()
            invariant
                0 <= i <= self.alert_configs@.len(),
                out@ == self.alert_configs@.subrange(0, i as int),
            decreases self.alert_configs@.len() - i,
        {
            out.push(self.alert_configs[i].clone());
            proof {
                assert(self.alert_configs@.subrange(0, i + 1 as int)
                    =~= self.alert_configs@.subrange(0, i as int).push(
                    self.alert_configs@[i as int]));
            }
            i = i + 1;
        }
        proof {
            assert(self.alert_configs@.subrange(0, self.alert_configs@.len() as int)
                =~= self.alert_configs@);
        }
        out
    }

    /// Update threshold and enabled state of the configuration with
    /// the given id. Returns whether a row was updated.
    pub fn update_alert_config(&mut self, id: i64, threshold: &str, enabled: bool) -> (r: bool)
        requires
            old(self).wf(),
        ensures
            final(self).wf(),
            r == (1 <= id <= old(self).spec_configs().len()),
            r ==> {
                &&& final(self).spec_configs().len() == old(self).spec_configs().len()
                &&& final(self).spec_configs()[id - 1].id == id
                &&& final(self).spec_configs()[id - 1].threshold@ == threshold@
                &&& final(self).spec_configs()[id - 1].enabled == enabled
                &&& final(self).spec_configs()[id - 1].webhook_url@
                    == old(self).spec_configs()[id - 1].webhook_url@
                &&& forall|i: int|
                    0 <= i < old(self).spec_configs().len() && i != id - 1
                        ==> #[trigger] final(self).spec_configs()[i]
                            == old(self).spec_configs()[i]
            },
            !r ==> *final(self) == *old(self),
            final(self).spec_samples() == old(self).spec_samples(),
            final(self).spec_events() == old(self).spec_events(),
    {
        if id < 1 || id > self.alert_configs.len() as i64 {
            return false;
        }
        let idx = (id - 1) as usize;
        proof {
            assert(self.alert_configs@[idx as int].id == id);
        }
        let url = self.alert_configs[idx].webhook_url.clone();
        let created = self.alert_configs[idx].created_at_ms;
        let slot = &mut self.alert_configs[idx];
        *slot = AlertConfig {
            id,
            webhook_url: url,
            threshold: threshold.to_owned(),
            enabled,
            created_at_ms: created,
        };
        proof {
            assert forall|i: int|
                0 <= i < self.alert_configs@.len()
                    implies (#[trigger] self.alert_configs@[i]).id == i + 1 by {
                if i != idx {
                    assert(self.alert_configs@[i] == old(self).alert_configs@[i]);
                }
            }
        }
        true
    }

    /// Soft-delete the configuration with the given id by disabling
    /// it; the row remains stored. Returns whether a row was found.
    pub fn delete_alert_config(&mut self, id: i64) -> (r: bool)
        requires
            old(self).wf(),
        ensures
            final(self).wf(),
            r == (1 <= id <= old(self).spec_configs().len()),
            r ==> {
                &&& final(self).spec_configs().len() == old(self).spec_configs().len()
                &&& final(self).spec_configs()[id - 1].id == id
                &&& !final(self).spec_configs()[id - 1].enabled
                &&& final(self).spec_configs()[id - 1].threshold@
                    == old(self).spec_configs()[id - 1].threshold@
                &&& final(self).spec_configs()[id - 1].webhook_url@
                    == old(self).spec_configs()[id - 1].webhook_url@
                &&& forall|i: int|
                    0 <= i < old(self).spec_configs().len() && i != id - 1
                        ==> #[trigger] final(self).spec_configs()[i]
                            == old(self).spec_configs()[i]
            },
            !r ==> *final(self) == *old(self),
            final(self).spec_samples() == old(self).spec_samples(),
            final(self).spec_events() == old(self).spec_events(),
    {
        if id < 1 || id > self.alert_configs.len() as i64 {
            return false;
        }
        let idx = (id - 1) as usize;
        let url = self.alert_configs[idx].webhook_url.clone();
        let threshold = self.alert_configs[idx].threshold.clone();
        let created = self.alert_configs[idx].created_at_ms;
        let slot = &mut self.alert_configs[idx];
        *slot = AlertConfig {
            id,
            webhook_url: url,
            threshold,
            enabled: false,
            created_at_ms: created,
        };
        proof {
            assert forall|i: int|
                0 <= i < self.alert_configs@.len()
                    implies (#[trigger] self.alert_configs@[i]).id == i + 1 by {
                if i != idx {
                    assert(self.alert_configs@[i] == old(self).alert_configs@[i]);
                }
            }
        }
        true
    }

    /// Log one fired-alert event, assigning it the next row id.
    /// Exactly one row is appended per call, whatever the delivery
    /// outcome recorded in the event.
    pub fn log_alert_event(&mut self, event: &AlertEvent) -> (r: Result<(), ()>)
        requires
            old(self).wf(),
            old(self).spec_events().len() < MAX_TABLE_ROWS,
        ensures
            r is Ok,
            final(self).wf(),
            final(self).spec_events().len() == old(self).spec_events().len() + 1,
            ({
                let added = final(self).spec_events().last();
                &&& added.id == Some((old(self).spec_events().len() + 1) as i64)
                &&& added.config_id == event.config_id
                &&& added.severity@ == event.severity@
                &&& added.peak_fee == event.peak_fee
                &&& added.baseline_fee == event.baseline_fee
                &&& added.spike_ratio == event.spike_ratio
                &&& added.webhook_url@ == event.webhook_url@
                &&& added.delivered == event.delivered
                &&& added.triggered_at_ms == event.triggered_at_ms
            }),
            forall|i: int|
                0 <= i < old(self).spec_events().len()
                    ==> #[trigger] final(self).spec_events()[i] == old(self).spec_events()[i],
            final(self).spec_samples() == old(self).spec_samples(),
            final(self).spec_configs() == old(self).spec_configs(),
    {
        let id = (self.alert_events.len() as i64) + 1;
        self.alert_events.push(AlertEvent {
            id: Some(id),
            config_id: event.config_id,
            severity: event.severity.clone(),
            peak_fee: event.peak_fee,
            baseline_fee: event.baseline_fee,
            spike_ratio: event.spike_ratio,
            webhook_url: event.webhook_url.clone(),
            delivered: event.delivered,
            triggered_at_ms: event.triggered_at_ms,
        });
        Ok(())
    }

    /// All stored alert events, in insertion (id) order.
    pub fn list_alert_events(&self) -> (r: Vec<AlertEvent>)
        ensures
            r@ == self.spec_events(),
    {
        let mut out: Vec<AlertEvent> = Vec::new();
        let mut i: usize = 0;
        while i < self.alert_events.len()
            invariant
                0 <= i <= self.alert_events@.len(),
                out@ == self.alert_events@.subrange(0, i as int),
            decreases self.alert_events@.len() - i,
        {
            out.push(self.alert_events[i].clone());
            proof {
                assert(self.alert_events@.subrange(0, i + 1 as int)
                    =~= self.alert_events@.subrange(0, i as int).push(
                    self.alert_events@[i as int]));
            }
            i = i + 1;
        }
        proof {
            assert(self.alert_events@.subrange(0, self.alert_events@.len() as int)
                =~= self.alert_events@);
        }
        out
    }

    /// Alert events matching the optional severity and delivery
    /// filters, ordered by trigger time descending (ties by id
    /// descending), at most `limit` of them; `limit` is clamped to
    /// [1, 100].
    pub fn query_alert_history(
        &self,
        limit: i64,
        severity_filter: Option<&String>,
        delivered_filter: Option<bool>,
    ) -> (r: Vec<AlertEvent>)
        requires
            self.wf(),
        ensures
            ({
                let clamped = if limit < 1 {
                    1int
                } else if limit > 100 {
                    100int
                } else {
                    limit as int
                };
                let ordered = spec_events_ordered(
                    self.spec_events(),
                    match severity_filter {
                        Some(s) => Some(s@),
                        None => None,
                    },
                    delivered_filter,
                );
                r@ == ordered.subrange(
                    0,
                    if ordered.len() <= clamped {
                        ordered.len() as int
                    } else {
                        clamped
                    },
                )
            }),
            ev_sorted(r@),
    {
        let clamped: usize = if limit < 1 {
            1
        } else if limit > 100 {
            100
        } else {
            limit as usize
        };
        let ghost sev = match severity_filter {
            Some(s) => Some(s@),
            None => None,
        };
        let mut ordered: Vec<AlertEvent> = Vec::new();
        let mut i: usize = 0;
        proof {
            assert(self.alert_events@.subrange(0, 0) =~= Seq::<AlertEvent>::empty());
            lemma_events_ordered_props(self.alert_events@.subrange(0, 0), sev, delivered_filter);
        }
        while i < self.alert_events.len()
            invariant
                0 <= i <= self.alert_events@.len(),
                sev == (match severity_filter {
                    Some(s) => Some(s@),
                    None => None,
                }),
                ordered@ == spec_events_ordered(
                    self.alert_events@.subrange(0, i as int),
                    sev,
                    delivered_filter,
                ),
                ev_sorted(ordered@),
            decreases self.alert_events@.len() - i,
        {
            let ghost prefix = self.alert_events@.subrange(0, i as int);
            let e = &self.alert_events[i];
            let matches_sev = match severity_filter {
                Some(s) => e.severity.eq(s),
                None => true,
            };
            let matches_del = match delivered_filter {
                Some(d) => e.delivered == d,
                None => true,
            };
            proof {
                assert(self.alert_events@.subrange(0, i + 1 as int)
                    =~= prefix.push(self.alert_events@[i as int]));
                assert(self.alert_events@.subrange(0, i + 1 as int).drop_last() =~= prefix);
                assert((matches_sev && matches_del) == event_matches(
                    self.alert_events@[i as int],
                    sev,
                    delivered_filter,
                ));
            }
            if matches_sev && matches_del {
                let pos = ev_find_pos(&ordered, e);
                ordered.insert(pos, e.clone());
                proof {
                    lemma_ev_insert_sorted(prefix_ordered(prefix, sev, delivered_filter), self.alert_events@[i as int]);
                }
            }
            i = i + 1;
        }
        proof {
            assert(self.alert_events@.subrange(0, self.alert_events@.len() as int)
                =~= self.alert_events@);
        }
        let take = if ordered.len() <= clamped {
            ordered.len()
        } else {
            clamped
        };
        let mut out: Vec<AlertEvent> = Vec::new();
        let mut k: usize = 0;
        while k < take
            invariant
                0 <= k <= take,
                take <= ordered@.len(),
                out@ == ordered@.subrange(0, k as int),
            decreases take - k,
        {
            out.push(ordered[k].clone());
            proof {
                assert(ordered@.subrange(0, k + 1 as int)
                    =~= ordered@.subrange(0, k as int).push(ordered@[k as int]));
            }
            k = k + 1;
        }
        proof {
            assert(ev_sorted(out@)) by {
                assert forall|a: int, b: int| 0 <= a < b < out@.len() implies ev_before(
                    #[trigger] out@[a],
                    #[trigger] out@[b],
                ) by {
                    assert(out@[a] == ordered@[a] && out@[b] == ordered@[b]);
                }
            }
        }
        out
    }

    /// Number of stored alert events matching the optional severity
    /// and delivery filters.
    pub fn count_alert_events(
        &self,
        severity_filter: Option<&String>,
        delivered_filter: Option<bool>,
    ) -> (r: i64)
        requires
            self.wf(),
        ensures
            r as int == spec_event_count(
                self.spec_events(),
                match severity_filter {
                    Some(s) => Some(s@),
                    None => None,
                },
                delivered_filter,
            ),
    {
        let ghost sev = match severity_filter {
            Some(s) => Some(s@),
            None => None,
        };
        let mut count: u64 = 0;
        let mut i: usize = 0;
        proof {
            assert(self.alert_events@.subrange(0, 0) =~= Seq::<AlertEvent>::empty());
        }
        while i < self.alert_events.len()
            invariant
                0 <= i <= self.alert_events@.len(),
                self.wf(),
                sev == (match severity_filter {
                    Some(s) => Some(s@),
                    None => None,
                }),
                count as int == spec_event_count(
                    self.alert_events@.subrange(0, i as int),
                    sev,
                    delivered_filter,
                ),
                count <= i,
            decreases self.alert_events@.len() - i,
        {
            let ghost prefix = self.alert_events@.subrange(0, i as int);
            let e = &self.alert_events[i];
            let matches_sev = match severity_filter {
                Some(s) => e.severity.eq(s),
                None => true,
            };
            let matches_del = match delivered_filter {
                Some(d) => e.delivered == d,
                None => true,
            };
            proof {
                assert(self.alert_events@.subrange(0, i + 1 as int)
                    =~= prefix.push(self.alert_events@[i as int]));
                assert(self.alert_events@.subrange(0, i + 1 as int).drop_last() =~= prefix);
                assert((matches_sev && matches_del) == event_matches(
                    self.alert_events@[i as int],
                    sev,
                    delivered_filter,
                ));
            }
            if matches_sev && matches_del {
                count = count + 1;
            }
            i = i + 1;
        }
        proof {
            assert(self.alert_events@.subrange(0, self.alert_events@.len() as int)
                =~= self.alert_events@);
            self.lemma_wf_ids();
        }
        count as i64
    }
}

/// Alias used in proofs for the ordered filtered view of a prefix.
spec fn prefix_ordered(
    rows: Seq<AlertEvent>,
    severity: Option<Seq<char>>,
    delivered: Option<bool>,
) -> Seq<AlertEvent> {
    spec_events_ordered(rows, severity, delivered)
}

/// Find the ordered insertion position of `x` in an ordered event
/// vector.
fn ev_find_pos(v: &Vec<AlertEvent>, x: &AlertEvent) -> (r: usize)
    requires
        ev_sorted(v@),
    ensures
        r as int == ev_insert_pos(v@, *x),
        r <= v@.len(),
{
    let mut pos: usize = 0;
    while pos < v.len() && ev_before_exec(&v[pos], x)
        invariant
            0 <= pos <= v@.len(),
            forall|j: int| 0 <= j < pos ==> ev_before(#[trigger] v@[j], *x),
        decreases v@.len() - pos,
    {
        pos = pos + 1;
    }
    proof {
        lemma_ev_insert_pos_props(v@, *x);
        let p = ev_insert_pos(v@, *x);
        if pos < p {
            assert(ev_before(v@[pos as int], *x));
        }
        if p < pos {
            assert(!ev_before(v@[p], *x));
            assert(ev_before(v@[p], *x));
        }
    }
    pos
}

/// Whether `a` precedes or ties `b` in event output order.
fn ev_before_exec(a: &AlertEvent, b: &AlertEvent) -> (r: bool)
    ensures
        r == ev_before(*a, *b),
{
    let a_id: i64 = match a.id {
        Some(i) => i,
        None => 0,
    };
    let b_id: i64 = match b.id {
        Some(i) => i,
        None => 0,
    };
    a.triggered_at_ms > b.triggered_at_ms
        || (a.triggered_at_ms == b.triggered_at_ms && a_id >= b_id)
}

/// Filtering never lengthens a sequence.
pub proof fn lemma_filter_len<T>(s: Seq<T>, pred: spec_fn(T) -> bool)
    ensures
        s.filter(pred).len() <= s.len(),
    decreases s.len(),
{
    reveal(Seq::filter);
    if s.len() > 0 {
        lemma_filter_len(s.drop_last(), pred);
    }
}

/// Every element of a filtered sequence satisfies the predicate.
pub proof fn lemma_filter_all<T>(s: Seq<T>, pred: spec_fn(T) -> bool)
    ensures
        forall|i: int| 0 <= i < s.filter(pred).len() ==> pred(#[trigger] s.filter(pred)[i]),
    decreases s.len(),
{
    reveal(Seq::filter);
    if s.len() > 0 {
        lemma_filter_all(s.drop_last(), pred);
        assert forall|i: int| 0 <= i < s.filter(pred).len() implies pred(
            #[trigger] s.filter(pred)[i],
        ) by {
            if pred(s.last()) {
                if i < s.filter(pred).len() - 1 {
                    assert(s.filter(pred)[i] == s.drop_last().filter(pred)[i]);
                }
            } else {
                assert(s.filter(pred)[i] == s.drop_last().filter(pred)[i]);
            }
        }
    }
}

} // verus!
