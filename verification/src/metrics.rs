//! Application metrics model.
//!
//! Integer counters and gauges for the scheduler's observable
//! behaviour. The surrounding application mirrors them into its
//! monitoring system for exposition; the library itself only counts.

use vstd::prelude::*;
use crate::ratio::Ratio;

verus! {

/// All application-level metrics.
#[derive(Debug)]
pub struct AppMetrics {
    /// Total number of polling attempts, success and failure alike.
    pub polls_total: u64,
    /// Total number of polling cycles that exhausted their retries.
    pub poll_errors_total: u64,
    /// Current number of fee samples held in the in-memory store.
    pub fee_points_stored: u64,
    /// Latest short-term rolling average fee, in stroops.
    pub current_avg_fee: Ratio,
    /// Total number of fee spikes detected.
    pub spikes_detected_total: u64,
}

impl AppMetrics {
    /// Create all metrics at zero.
    pub fn new() -> (r: Self)
        ensures
            r.polls_total == 0,
            r.poll_errors_total == 0,
            r.fee_points_stored == 0,
            r.current_avg_fee == (Ratio { num: 0, den: 1 }),
            r.spikes_detected_total == 0,
    {
        AppMetrics {
            polls_total: 0,
            poll_errors_total: 0,
            fee_points_stored: 0,
            current_avg_fee: Ratio { num: 0, den: 1 },
            spikes_detected_total: 0,
        }
    }

    /// Count one polling attempt; the counter saturates at its
    /// maximum.
    pub fn inc_polls(&mut self)
        ensures
            final(self).polls_total == if old(self).polls_total == u64::MAX {
                u64::MAX
            } else {
                (old(self).polls_total + 1) as u64
            },
            final(self).poll_errors_total == old(self).poll_errors_total,
            final(self).fee_points_stored == old(self).fee_points_stored,
            final(self).current_avg_fee == old(self).current_avg_fee,
            final(self).spikes_detected_total == old(self).spikes_detected_total,
    {
        if self.polls_total < u64::MAX {
            self.polls_total = self.polls_total + 1;
        }
    }

    /// Count one exhausted polling cycle; the counter saturates at
    /// its maximum.
    pub fn inc_poll_errors(&mut self)
        ensures
            final(self).poll_errors_total == if old(self).poll_errors_total == u64::MAX {
                u64::MAX
            } else {
                (old(self).poll_errors_total + 1) as u64
            },
            final(self).polls_total == old(self).polls_total,
            final(self).fee_points_stored == old(self).fee_points_stored,
            final(self).current_avg_fee == old(self).current_avg_fee,
            final(self).spikes_detected_total == old(self).spikes_detected_total,
    {
        if self.poll_errors_total < u64::MAX {
            self.poll_errors_total = self.poll_errors_total + 1;
        }
    }

    /// Record the current store size.
    pub fn set_fee_points_stored(&mut self, n: u64)
        ensures
            final(self).fee_points_stored == n,
            final(self).polls_total == old(self).polls_total,
            final(self).poll_errors_total == old(self).poll_errors_total,
            final(self).current_avg_fee == old(self).current_avg_fee,
            final(self).spikes_detected_total == old(self).spikes_detected_total,
    {
        self.fee_points_stored = n;
    }

    /// Record the latest short-term average fee.
    pub fn set_current_avg_fee(&mut self, value: Ratio)
        ensures
            final(self).current_avg_fee == value,
            final(self).polls_total == old(self).polls_total,
            final(self).poll_errors_total == old(self).poll_errors_total,
            final(self).fee_points_stored == old(self).fee_points_stored,
            final(self).spikes_detected_total == old(self).spikes_detected_total,
    {
        self.current_avg_fee = value;
    }

    /// Count `n` newly detected spikes; the counter saturates at its
    /// maximum.
    pub fn add_spikes_detected(&mut self, n: u64)
        ensures
            final(self).spikes_detected_total == if old(self).spikes_detected_total + n
                <= u64::MAX {
                (old(self).spikes_detected_total + n) as u64
            } else {
                u64::MAX
            },
            final(self).polls_total == old(self).polls_total,
            final(self).poll_errors_total == old(self).poll_errors_total,
            final(self).fee_points_stored == old(self).fee_points_stored,
            final(self).current_avg_fee == old(self).current_avg_fee,
    {
        if n <= u64::MAX - self.spikes_detected_total {
            self.spikes_detected_total = self.spikes_detected_total + n;
        } else {
            self.spikes_detected_total = u64::MAX;
        }
    }
}

} // verus!
