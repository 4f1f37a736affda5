//! Scheduling decisions for the fee polling loop.
//!
//! The surrounding application runs the actual loop, performs the
//! upstream calls, and sleeps between retries; every decision the loop
//! takes lives here: how errors are classified for retry, how long to
//! back off, how many attempts a retry schedule makes, and what one
//! tick does to the store, the engine, the repository, and the
//! metrics once the fetch outcome is in hand.

use vstd::prelude::*;
use crate::buffer::spec_fifo_push_all;
use crate::engine::FeeInsightsEngine;
use crate::metrics::AppMetrics;
use crate::repository::FeeRepository;
use crate::store::FeeHistoryStore;
use crate::types::{clone_points_vec, FeeDataPoint, FeeSpike, HOUR_MS, MAX_TIME_MS};

verus! {

/// Retried backoff delays never exceed thirty seconds.
pub const MAX_RETRY_DELAY_MS: u64 = 30_000;

/// Relies on rand's `random` to draw a value from the standard
/// distribution. Nothing is assumed about the value drawn.
pub assume_specification<T>[ rand::random::<T> ]() -> (r: T)
    where
        rand::distributions::Standard: rand::distributions::Distribution<T>,
;

/// Draw a uniformly random jitter below `max(base, 1)`.
fn draw_jitter(base: u64) -> (r: u64)
    ensures
        r < if base >= 1 {
            base
        } else {
            1u64
        },
{
    let m: u64 = if base >= 1 {
        base
    } else {
        1
    };
    let raw: u64 = rand::random::<u64>();
    raw % m
}

/// Two to the power `n`.
pub open spec fn spec_pow2(n: nat) -> int
    decreases n,
{
    if n == 0 {
        1
    } else {
        2 * spec_pow2((n - 1) as nat)
    }
}

/// The delay before retry `attempt`: the base delay doubled per
/// attempt (saturating), plus a uniform jitter below the base delay,
/// capped at thirty seconds.
pub open spec fn spec_backoff(base: int, attempt: nat, jitter: int) -> int {
    let exponential = if base * spec_pow2(attempt) <= u64::MAX {
        base * spec_pow2(attempt)
    } else {
        u64::MAX as int
    };
    if exponential + jitter <= MAX_RETRY_DELAY_MS {
        exponential + jitter
    } else {
        MAX_RETRY_DELAY_MS as int
    }
}

/// Compute the backoff delay before retry `attempt`: exponential in
/// the attempt number with a random jitter below the base delay,
/// capped at thirty seconds.
pub fn backoff_delay_ms(base_delay_ms: u64, attempt: u32) -> (r: u64)
    requires
        attempt < 64,
    ensures
        r <= MAX_RETRY_DELAY_MS,
        exists|jitter: int|
            0 <= jitter < (if base_delay_ms >= 1 {
                base_delay_ms as int
            } else {
                1int
            }) && r == spec_backoff(base_delay_ms as int, attempt as nat, jitter),
{
    let mut exp: u64 = base_delay_ms;
    let mut k: u32 = 0;
    while k < attempt
        invariant
            0 <= k <= attempt,
            exp as int == (if (base_delay_ms as int) * spec_pow2(k as nat) <= u64::MAX {
                (base_delay_ms as int) * spec_pow2(k as nat)
            } else {
                u64::MAX as int
            }),
        decreases attempt - k,
    {
        proof {
            lemma_pow2_pos(k as nat);
            assert(spec_pow2((k + 1) as nat) == 2 * spec_pow2(k as nat));
            assert((base_delay_ms as int) * (2 * spec_pow2(k as nat))
                == 2 * ((base_delay_ms as int) * spec_pow2(k as nat))) by (nonlinear_arith);
        }
        if exp > u64::MAX / 2 {
            exp = u64::MAX;
        } else {
            exp = exp * 2;
        }
        k = k + 1;
    }
    let jitter = draw_jitter(base_delay_ms);
    let total: u128 = exp as u128 + jitter as u128;
    let r: u64 = if total > MAX_RETRY_DELAY_MS as u128 {
        MAX_RETRY_DELAY_MS
    } else {
        total as u64
    };
    proof {
        assert(r == spec_backoff(base_delay_ms as int, attempt as nat, jitter as int));
    }
    r
}

/// Powers of two are positive.
pub proof fn lemma_pow2_pos(n: nat)
    ensures
        spec_pow2(n) >= 1,
    decreases n,
{
    if n > 0 {
        lemma_pow2_pos((n - 1) as nat);
    }
}

/// One outcome of an upstream fetch attempt, as the retry logic
/// classifies it: a successful batch, a transient failure worth a
/// retry, or a permanent failure that a retry cannot fix.
#[derive(Debug)]
pub enum FetchOutcome {
    Success(Vec<FeeDataPoint>),
    Transient,
    Permanent,
}

/// What a whole retry schedule produced: how many upstream calls it
/// made and the batch, if any attempt succeeded.
#[derive(Debug)]
pub struct FetchPlan {
    pub calls: u32,
    pub result: Option<Vec<FeeDataPoint>>,
}

/// Replay the retry schedule against a sequence of hypothetical
/// attempt outcomes, one per possible attempt.
///
/// The schedule makes at most `max_attempts` upstream calls; it stops
/// with the batch at the first success, stops empty-handed at the
/// first permanent failure, and otherwise retries transient failures
/// until the attempts are exhausted. In particular it makes exactly
/// one call when the first attempt succeeds or fails permanently.
pub fn fetch_with_retry_plan(outcomes: &Vec<FetchOutcome>, max_attempts: u32) -> (r: FetchPlan)
    requires
        outcomes@.len() >= max_attempts,
    ensures
        r.calls <= max_attempts,
        max_attempts > 0 ==> r.calls >= 1,
        forall|j: int| 0 <= j < r.calls - 1 ==> (#[trigger] outcomes@[j]) is Transient,
        (match r.result {
            Some(points) => {
                &&& r.calls >= 1
                &&& outcomes@[r.calls - 1] matches FetchOutcome::Success(p) && points@ == p@
            },
            None => {
                ||| max_attempts == 0
                ||| (r.calls >= 1 && outcomes@[r.calls - 1] is Permanent)
                ||| (r.calls == max_attempts && forall|j: int|
                    0 <= j < max_attempts ==> (#[trigger] outcomes@[j]) is Transient)
            },
        }),
        max_attempts > 0 && outcomes@[0] is Success ==> r.calls == 1 && r.result is Some,
        max_attempts > 0 && outcomes@[0] is Permanent ==> r.calls == 1 && r.result is None,
{
    let mut attempt: u32 = 0;
    while attempt < max_attempts
        invariant
            0 <= attempt <= max_attempts,
            outcomes@.len() >= max_attempts,
            forall|j: int| 0 <= j < attempt ==> (#[trigger] outcomes@[j]) is Transient,
        decreases max_attempts - attempt,
    {
        match &outcomes[attempt as usize] {
            FetchOutcome::Success(points) => {
                let copied = clone_points_vec(points);
                return FetchPlan { calls: attempt + 1, result: Some(copied) };
            },
            FetchOutcome::Permanent => {
                return FetchPlan { calls: attempt + 1, result: None };
            },
            FetchOutcome::Transient => {},
        }
        attempt = attempt + 1;
    }
    FetchPlan { calls: max_attempts, result: None }
}

/// Execute the state changes of one poll tick, given the outcome of
/// the (already completed) upstream fetch.
///
/// Every tick counts one poll. An exhausted fetch counts one poll
/// error and changes nothing else. An empty batch changes nothing
/// else either. Otherwise the batch is pushed into the history store,
/// fed to the engine (a failed engine update is logged by the caller
/// and skipped), persisted in the repository, and samples older than
/// the retention period are pruned. Returns the spikes newly emitted
/// by the engine, for the dispatcher.
pub fn run_tick(
    store: &mut FeeHistoryStore,
    engine: &mut FeeInsightsEngine,
    repo: &mut FeeRepository,
    metrics: &mut AppMetrics,
    fetch_result: Option<Vec<FeeDataPoint>>,
    now_ms: i64,
    retention_ms: i64,
) -> (r: Vec<FeeSpike>)
    requires
        old(store).wf(),
        old(engine).wf(),
        old(repo).wf(),
        0 <= now_ms <= MAX_TIME_MS - HOUR_MS,
        0 <= retention_ms <= MAX_TIME_MS,
    ensures
        final(store).wf(),
        final(engine).wf(),
        final(repo).wf(),
        final(metrics).polls_total == if old(metrics).polls_total == u64::MAX {
            u64::MAX
        } else {
            (old(metrics).polls_total + 1) as u64
        },
        (match fetch_result {
            None => {
                &&& final(metrics).poll_errors_total == if old(metrics).poll_errors_total
                    == u64::MAX {
                    u64::MAX
                } else {
                    (old(metrics).poll_errors_total + 1) as u64
                }
                &&& *final(store) == *old(store)
                &&& *final(engine) == *old(engine)
                &&& *final(repo) == *old(repo)
                &&& r@ == Seq::<FeeSpike>::empty()
            },
            Some(points) => {
                &&& final(metrics).poll_errors_total == old(metrics).poll_errors_total
                &&& (points@.len() == 0 ==> {
                    &&& *final(store) == *old(store)
                    &&& *final(engine) == *old(engine)
                    &&& *final(repo) == *old(repo)
                    &&& r@ == Seq::<FeeSpike>::empty()
                })
                &&& (points@.len() > 0 ==> {
                    &&& final(store)@ == spec_fifo_push_all(
                        old(store)@,
                        points@,
                        old(store).spec_capacity(),
                    )
                    &&& final(metrics).fee_points_stored == final(store)@.len()
                    &&& final(repo).spec_samples() == (old(repo).spec_samples()
                        + points@).filter(
                        |p: FeeDataPoint| p.timestamp_ms >= now_ms - retention_ms,
                    )
                    &&& (final(engine).spec_last_update() == Some(now_ms)
                        || final(engine).spec_last_update() == old(engine).spec_last_update())
                    &&& (({
                        let cal0 = old(engine).spec_calculator();
                        &&& crate::engine::all_valid(points@, now_ms)
                        &&& cal0.spec_find_window("short_term"@) is Some
                        &&& cal0.spec_find_window("long_term"@) is Some
                        &&& (cal0.spec_find_window("medium_term"@) matches Some(mi)
                            && crate::engine::calc_buf_feed(
                            cal0.bufview(mi),
                            points@,
                            cal0.win(mi),
                            cal0.spec_buffer_cap(),
                            now_ms,
                        ).len() > 0)
                    }) ==> final(engine).spec_last_update() == Some(now_ms))
                    &&& (final(engine).spec_last_update() == Some(now_ms)
                        && old(engine).spec_last_update() != Some(now_ms) ==> {
                        let cal = final(engine).spec_calculator();
                        &&& cal.spec_find_window("medium_term"@) matches Some(mi)
                            && r@ == crate::detector::spec_detect(
                            crate::sort::spec_sort_by_time(points@),
                            crate::calculator::spec_window_average(
                                cal.bufview(mi),
                                cal.win(mi),
                                now_ms,
                            ).value,
                            old(engine).spec_config().spike_detection,
                        )
                    })
                    &&& (final(engine).spec_last_update()
                        == old(engine).spec_last_update()
                        && old(engine).spec_last_update() != Some(now_ms)
                        ==> r@ == Seq::<FeeSpike>::empty())
                })
            },
        }),
{
    metrics.inc_polls();
    let points = match fetch_result {
        Some(p) => p,
        None => {
            metrics.inc_poll_errors();
            return Vec::new();
        },
    };
    if points.len() == 0 {
        return Vec::new();
    }
    store.push_batch(&points);
    metrics.set_fee_points_stored(store.len() as u64);
    let mut new_spikes: Vec<FeeSpike> = Vec::new();
    match engine.process_fee_data(&points, now_ms) {
        Ok(update) => {
            metrics.set_current_avg_fee(update.insights.rolling_averages.short_term.value);
            metrics.add_spikes_detected(update.new_spikes.len() as u64);
            new_spikes = update.new_spikes;
        },
        Err(_) => {},
    }
    let insert_result = repo.insert_fee_points(&points);
    proof {
        assert(insert_result is Ok);
    }
    let cutoff: i64 = now_ms - retention_ms;
    let _pruned = repo.prune_older_than(cutoff);
    new_spikes
}

} // verus!
