//! Webhook alert dispatch planning.
//!
//! Maps a detected spike to the enabled alert configurations whose
//! threshold it reaches, producing exactly one payload per matching
//! configuration. Delivery itself is an outward HTTP call made by the
//! surrounding application; whatever its outcome, each payload is
//! completed into exactly one alert-event row.

use vstd::prelude::*;
use crate::repository::{AlertConfig, AlertEvent};
use crate::types::{FeeSpike, SpikeSeverity};

verus! {

/// Payload describing one triggered fee-spike alert for one webhook.
#[derive(Debug)]
pub struct AlertPayload {
    /// The alert configuration row that triggered this dispatch.
    pub config_id: Option<i64>,
    /// Severity label: Minor, Moderate, Major, or Critical.
    pub severity: String,
    /// Highest fee observed during the spike, in stroops.
    pub peak_fee: i64,
    /// Rolling baseline the spike was measured against.
    pub baseline_fee: crate::ratio::Ratio,
    /// Exactly peak_fee over baseline_fee.
    pub spike_ratio: crate::ratio::Ratio,
    /// Destination webhook URL.
    pub webhook_url: String,
}

impl Clone for AlertPayload {
    fn clone(&self) -> (r: Self)
        ensures
            r.config_id == self.config_id,
            r.severity@ == self.severity@,
            r.peak_fee == self.peak_fee,
            r.baseline_fee == self.baseline_fee,
            r.spike_ratio == self.spike_ratio,
            r.webhook_url@ == self.webhook_url@,
    {
        AlertPayload {
            config_id: self.config_id,
            severity: self.severity.clone(),
            peak_fee: self.peak_fee,
            baseline_fee: self.baseline_fee,
            spike_ratio: self.spike_ratio,
            webhook_url: self.webhook_url.clone(),
        }
    }
}

/// Rank of a configured threshold label in the severity order
/// Minor < Moderate < Major < Critical; only Minor, Major, and
/// Critical are configurable.
pub open spec fn spec_threshold_rank(t: Seq<char>) -> Option<int> {
    if t == "Minor"@ {
        Some(0int)
    } else if t == "Major"@ {
        Some(2int)
    } else if t == "Critical"@ {
        Some(3int)
    } else {
        None
    }
}

/// Rank of a configured threshold label; `None` for an unknown label.
pub fn threshold_rank(t: &str) -> (r: Option<u8>)
    ensures
        match r {
            Some(v) => spec_threshold_rank(t@) == Some(v as int),
            None => spec_threshold_rank(t@) is None,
        },
{
    let s = t.to_owned();
    if s == "Minor".to_owned() {
        Some(0)
    } else if s == "Major".to_owned() {
        Some(2)
    } else if s == "Critical".to_owned() {
        Some(3)
    } else {
        None
    }
}

/// Whether an alert configuration matches a spike: it is enabled,
/// carries a valid threshold label, and the spike's severity reaches
/// it. A Moderate spike ranks above Minor and below Major, so it
/// matches Minor-threshold configurations only.
pub open spec fn config_matches(c: AlertConfig, severity: SpikeSeverity) -> bool {
    &&& c.enabled
    &&& match spec_threshold_rank(c.threshold@) {
        Some(rank) => rank <= severity.spec_rank(),
        None => false,
    }
}

/// Whether an alert configuration matches a spike severity.
pub fn config_matches_exec(c: &AlertConfig, severity: &SpikeSeverity) -> (r: bool)
    ensures
        r == config_matches(*c, *severity),
{
    if !c.enabled {
        return false;
    }
    match threshold_rank(c.threshold.as_str()) {
        Some(rank) => rank <= severity.rank(),
        None => false,
    }
}

/// Plan the dispatch of one spike against the given alert
/// configurations: exactly one payload per matching configuration, in
/// configuration order, each carrying the matching configuration's id
/// and webhook URL and the spike's severity, peak, baseline, and
/// ratio.
pub fn plan_dispatch(spike: &FeeSpike, configs: &Vec<AlertConfig>) -> (r: Vec<AlertPayload>)
    requires
        spike.peak_fee <= i64::MAX,
    ensures
        r@.len() == configs@.filter(
            |c: AlertConfig| config_matches(c, spike.severity),
        ).len(),
        forall|k: int|
            0 <= k < r@.len() ==> {
                let p = #[trigger] r@[k];
                let c = configs@.filter(|c: AlertConfig| config_matches(c, spike.severity))[k];
                &&& p.config_id == Some(c.id)
                &&& p.webhook_url@ == c.webhook_url@
                &&& p.peak_fee == spike.peak_fee
                &&& p.baseline_fee == spike.baseline_fee
                &&& p.spike_ratio == spike.spike_ratio
                &&& (spike.severity is Minor ==> p.severity@ == "Minor"@)
                &&& (spike.severity is Moderate ==> p.severity@ == "Moderate"@)
                &&& (spike.severity is Major ==> p.severity@ == "Major"@)
                &&& (spike.severity is Critical ==> p.severity@ == "Critical"@)
            },
{
    let ghost pred = |c: AlertConfig| config_matches(c, spike.severity);
    let mut out: Vec<AlertPayload> = Vec::new();
    let ghost matched: Seq<AlertConfig> = Seq::empty();
    let mut matched_cfgs: Vec<AlertConfig> = Vec::new();
    let mut i: usize = 0;
    proof {
        assert(configs@.subrange(0, 0) =~= Seq::<AlertConfig>::empty());
    }
    while i < configs.len()
        invariant
            0 <= i <= configs@.len(),
            pred == (|c: AlertConfig| config_matches(c, spike.severity)),
            spike.peak_fee <= i64::MAX,
            matched_cfgs@ == configs@.subrange(0, i as int).filter(pred),
            out@.len() == matched_cfgs@.len(),
            forall|k: int|
                0 <= k < out@.len() ==> {
                    let p = #[trigger] out@[k];
                    let c = matched_cfgs@[k];
                    &&& p.config_id == Some(c.id)
                    &&& p.webhook_url@ == c.webhook_url@
                    &&& p.peak_fee == spike.peak_fee
                    &&& p.baseline_fee == spike.baseline_fee
                    &&& p.spike_ratio == spike.spike_ratio
                    &&& (spike.severity is Minor ==> p.severity@ == "Minor"@)
                    &&& (spike.severity is Moderate ==> p.severity@ == "Moderate"@)
                    &&& (spike.severity is Major ==> p.severity@ == "Major"@)
                    &&& (spike.severity is Critical ==> p.severity@ == "Critical"@)
                },
        decreases configs@.len() - i,
    {
        let ghost prefix = configs@.subrange(0, i as int);
        let c = &configs[i];
        if config_matches_exec(c, &spike.severity) {
            let payload = AlertPayload {
                config_id: Some(c.id),
                severity: spike.severity.as_text(),
                peak_fee: spike.peak_fee as i64,
                baseline_fee: spike.baseline_fee,
                spike_ratio: spike.spike_ratio,
                webhook_url: c.webhook_url.clone(),
            };
            out.push(payload);
            matched_cfgs.push(c.clone());
        }
        proof {
            assert(configs@.subrange(0, i + 1 as int) =~= prefix.push(configs@[i as int]));
            crate::store::lemma_filter_push(prefix, configs@[i as int], pred);
        }
        i = i + 1;
    }
    proof {
        assert(configs@.subrange(0, configs@.len() as int) =~= configs@);
    }
    out
}

/// Complete one planned payload into the alert-event row that records
/// the delivery attempt.
pub fn complete_event(payload: &AlertPayload, delivered: bool, now_ms: i64) -> (r: AlertEvent)
    ensures
        r.id is None,
        r.config_id == payload.config_id,
        r.severity@ == payload.severity@,
        r.peak_fee == payload.peak_fee,
        r.baseline_fee == payload.baseline_fee,
        r.spike_ratio == payload.spike_ratio,
        r.webhook_url@ == payload.webhook_url@,
        r.delivered == delivered,
        r.triggered_at_ms == now_ms,
{
    AlertEvent {
        id: None,
        config_id: payload.config_id,
        severity: payload.severity.clone(),
        peak_fee: payload.peak_fee,
        baseline_fee: payload.baseline_fee,
        spike_ratio: payload.spike_ratio,
        webhook_url: payload.webhook_url.clone(),
        delivered,
        triggered_at_ms: now_ms,
    }
}

} // verus!
