//! Rolling average calculator.
//!
//! Keeps one bounded FIFO buffer of fee samples per configured time
//! window. Samples enter every window whose duration still covers
//! them; stale samples are evicted from the front after every
//! insertion. Averages are exact rationals: the sum of the buffered
//! fees over their count.

use vstd::prelude::*;
use crate::buffer::{spec_fifo_push, CircularBuffer};
use crate::errors::InsightsError;
use crate::ratio::Ratio;
use crate::types::{
    all_arithmetic_ok, AverageResult, FeeDataPoint, RollingAverages, TimeWindow, MAX_FEE_STROOPS,
    MAX_TIME_MS,
};

verus! {

/// Configuration for rolling averages.
#[derive(Clone, Copy, Debug)]
pub struct AverageConfig {
    pub max_buffer_size: usize,
    pub min_samples_for_calculation: usize,
}

impl AverageConfig {
    /// A usable configuration: a positive buffer bound small enough
    /// that a buffer's fee sum always fits the 64-bit accumulator.
    pub open spec fn wf(self) -> bool {
        1 <= self.max_buffer_size <= 1_000_000_000
    }
}

impl Default for AverageConfig {
    /// The default: buffers of ten thousand samples, five samples for
    /// a calculation.
    fn default() -> (r: Self)
        ensures
            r.max_buffer_size == 10_000,
            r.min_samples_for_calculation == 5,
            r.wf(),
    {
        AverageConfig { max_buffer_size: 10_000, min_samples_for_calculation: 5 }
    }
}

/// Whether `p` is recent enough for window `w` at instant `now`.
pub open spec fn in_window(p: FeeDataPoint, w: TimeWindow, now_ms: i64) -> bool {
    p.timestamp_ms >= now_ms - w.duration_ms
}

/// The buffer with every stale sample removed from the front: samples
/// are dropped while the oldest one lies outside the window.
pub open spec fn evict_stale(s: Seq<FeeDataPoint>, w: TimeWindow, now_ms: i64) -> Seq<FeeDataPoint>
    decreases s.len(),
{
    if s.len() == 0 {
        s
    } else if !in_window(s[0], w, now_ms) {
        evict_stale(s.drop_first(), w, now_ms)
    } else {
        s
    }
}

/// Eviction of samples that all satisfy a per-sample property keeps
/// the property.
pub proof fn lemma_evict_stale_all_ok(s: Seq<FeeDataPoint>, w: TimeWindow, now_ms: i64)
    requires
        all_arithmetic_ok(s),
    ensures
        all_arithmetic_ok(evict_stale(s, w, now_ms)),
    decreases s.len(),
{
    if s.len() > 0 && !in_window(s[0], w, now_ms) {
        assert(all_arithmetic_ok(s.drop_first())) by {
            assert(forall|i: int|
                0 <= i < s.drop_first().len() ==> #[trigger] s.drop_first()[i] == s[i + 1]);
        }
        lemma_evict_stale_all_ok(s.drop_first(), w, now_ms);
    }
}

/// A FIFO push of an in-range sample onto an in-range buffer leaves
/// every element in range.
pub proof fn lemma_fifo_push_all_ok(s: Seq<FeeDataPoint>, p: FeeDataPoint, cap: int)
    requires
        cap >= 1,
        all_arithmetic_ok(s),
        p.arithmetic_ok(),
    ensures
        all_arithmetic_ok(spec_fifo_push(s, p, cap)),
{
    let t = spec_fifo_push(s, p, cap);
    assert forall|i: int| 0 <= i < t.len() implies (#[trigger] t[i]).arithmetic_ok() by {
        if s.len() >= cap {
            let d = s.drop_first();
            assert(t == d.push(p));
            if i < t.len() - 1 {
                assert(t[i] == d[i]);
                assert(d[i] == s[i + 1]);
            } else {
                assert(t[i] == p);
            }
        } else {
            assert(t == s.push(p));
            if i < t.len() - 1 {
                assert(t[i] == s[i]);
            } else {
                assert(t[i] == p);
            }
        }
    }
}

/// What one arriving sample does to one window's buffer: append when
/// the sample is inside the window (evicting the oldest on overflow),
/// then drop stale samples from the front.
pub open spec fn calc_window_step(
    s: Seq<FeeDataPoint>,
    p: FeeDataPoint,
    w: TimeWindow,
    cap: int,
    now_ms: i64,
) -> Seq<FeeDataPoint> {
    let pushed = if in_window(p, w, now_ms) {
        spec_fifo_push(s, p, cap)
    } else {
        s
    };
    evict_stale(pushed, w, now_ms)
}

/// Sum of the fee amounts of a sample sequence.
pub open spec fn spec_fee_sum(s: Seq<FeeDataPoint>) -> int
    decreases s.len(),
{
    if s.len() == 0 {
        0
    } else {
        spec_fee_sum(s.drop_last()) + s.last().fee_amount
    }
}

/// The fee sum of in-range samples is bounded by count times the
/// largest fee.
pub proof fn lemma_fee_sum_bound(s: Seq<FeeDataPoint>)
    requires
        all_arithmetic_ok(s),
    ensures
        0 <= spec_fee_sum(s) <= s.len() * (MAX_FEE_STROOPS as int),
    decreases s.len(),
{
    if s.len() > 0 {
        assert(all_arithmetic_ok(s.drop_last())) by {
            assert(forall|i: int|
                0 <= i < s.drop_last().len() ==> #[trigger] s.drop_last()[i] == s[i]);
        }
        lemma_fee_sum_bound(s.drop_last());
        assert(s.last().arithmetic_ok());
    }
}

/// The fee sum of in-range samples is at least one per sample.
pub proof fn lemma_fee_sum_lower(s: Seq<FeeDataPoint>)
    requires
        all_arithmetic_ok(s),
    ensures
        spec_fee_sum(s) >= s.len(),
    decreases s.len(),
{
    if s.len() > 0 {
        assert(all_arithmetic_ok(s.drop_last())) by {
            assert(forall|i: int|
                0 <= i < s.drop_last().len() ==> #[trigger] s.drop_last()[i] == s[i]);
        }
        lemma_fee_sum_lower(s.drop_last());
        assert(s.last().arithmetic_ok());
    }
}

/// The average a window reports over buffer contents `s` at `at_ms`:
/// the exact mean of the buffered fees (zero for an empty buffer),
/// with the partial flag tied to the window's sample threshold.
pub open spec fn spec_window_average(s: Seq<FeeDataPoint>, w: TimeWindow, at_ms: i64) -> AverageResult {
    AverageResult {
        value: if s.len() == 0 {
            Ratio { num: 0, den: 1 }
        } else {
            Ratio { num: spec_fee_sum(s) as i64, den: s.len() as u64 }
        },
        sample_count: s.len() as usize,
        is_partial: s.len() < w.min_samples,
        calculated_at_ms: at_ms,
        time_window: w,
    }
}

/// One window with its buffer of recent samples.
struct WindowBuffer {
    window: TimeWindow,
    buf: CircularBuffer<FeeDataPoint>,
}

/// Calculator for rolling averages across multiple time windows.
pub struct RollingAverageCalculator {
    config: AverageConfig,
    windows: Vec<WindowBuffer>,
}

impl RollingAverageCalculator {
    /// Number of configured windows.
    pub closed spec fn win_count(self) -> int {
        self.windows@.len() as int
    }

    /// The `i`-th configured window.
    pub closed spec fn win(self, i: int) -> TimeWindow {
        self.windows@[i].window
    }

    /// Contents of the `i`-th window's buffer, oldest first.
    pub closed spec fn bufview(self, i: int) -> Seq<FeeDataPoint> {
        self.windows@[i].buf@
    }

    /// The configured buffer bound.
    pub closed spec fn spec_buffer_cap(self) -> int {
        self.config.max_buffer_size as int
    }

    /// The configuration.
    pub closed spec fn spec_config(self) -> AverageConfig {
        self.config
    }

    /// Structural invariant: usable configuration and windows, every
    /// buffer bounded by the configured capacity and holding only
    /// samples the accumulator arithmetic accepts.
    pub closed spec fn wf(self) -> bool {
        &&& self.config.wf()
        &&& forall|i: int| 0 <= i < self.win_count() ==> (#[trigger] self.win(i)).wf()
        &&& forall|i: int|
            0 <= i < self.win_count() ==> (#[trigger] self.windows@[i].buf).wf()
        &&& forall|i: int|
            0 <= i < self.win_count()
                ==> (#[trigger] self.windows@[i].buf).spec_capacity()
                    == self.config.max_buffer_size
        &&& forall|i: int| 0 <= i < self.win_count() ==> all_arithmetic_ok(#[trigger] self.bufview(i))
    }

    /// A well-formed calculator's buffers are bounded by the capacity.
    pub proof fn lemma_wf_facts(self)
        requires
            self.wf(),
        ensures
            self.spec_config().wf(),
            self.spec_buffer_cap() == self.spec_config().max_buffer_size,
            1 <= self.spec_buffer_cap() <= 1_000_000_000,
            forall|i: int| 0 <= i < self.win_count() ==> (#[trigger] self.win(i)).wf(),
            forall|i: int|
                0 <= i < self.win_count()
                    ==> (#[trigger] self.bufview(i)).len() <= self.spec_buffer_cap(),
            forall|i: int|
                0 <= i < self.win_count() ==> all_arithmetic_ok(#[trigger] self.bufview(i)),
    {
        assert forall|i: int|
            0 <= i < self.win_count() implies (#[trigger] self.bufview(i)).len()
            <= self.spec_buffer_cap() by {
            self.windows@[i].buf.lemma_wf_len();
        }
    }

    /// Create a new rolling average calculator with one empty buffer
    /// per window.
    pub fn new(config: AverageConfig, time_windows: Vec<TimeWindow>) -> (r: Self)
        requires
            config.wf(),
            forall|i: int| 0 <= i < time_windows@.len() ==> (#[trigger] time_windows@[i]).wf(),
        ensures
            r.wf(),
            r.win_count() == time_windows@.len(),
            forall|i: int| 0 <= i < r.win_count() ==> #[trigger] r.win(i) == time_windows@[i],
            forall|i: int| 0 <= i < r.win_count() ==> #[trigger] r.bufview(i) == Seq::<FeeDataPoint>::empty(),
            r.spec_config() == config,
            r.spec_buffer_cap() == config.max_buffer_size,
    {
        let mut windows: Vec<WindowBuffer> = Vec::new();
        let mut i: usize = 0;
        while i < time_windows.len()
            invariant
                0 <= i <= time_windows@.len(),
                config.wf(),
                forall|k: int| 0 <= k < time_windows@.len() ==> (#[trigger] time_windows@[k]).wf(),
                windows@.len() == i,
                forall|k: int|
                    0 <= k < i ==> (#[trigger] windows@[k]).window == time_windows@[k],
                forall|k: int| 0 <= k < i ==> (#[trigger] windows@[k]).buf.wf(),
                forall|k: int|
                    0 <= k < i
                        ==> (#[trigger] windows@[k]).buf.spec_capacity() == config.max_buffer_size,
                forall|k: int|
                    0 <= k < i ==> (#[trigger] windows@[k]).buf@ == Seq::<FeeDataPoint>::empty(),
            decreases time_windows@.len() - i,
        {
            let wb = WindowBuffer {
                window: time_windows[i].clone(),
                buf: CircularBuffer::new(config.max_buffer_size),
            };
            windows.push(wb);
            i = i + 1;
        }
        RollingAverageCalculator { config, windows }
    }

    /// Feed one sample: it enters every window whose duration covers
    /// it, and stale samples are then evicted from every buffer.
    pub fn add_data_point(&mut self, point: FeeDataPoint, now_ms: i64)
        requires
            old(self).wf(),
            point.arithmetic_ok(),
            0 <= now_ms <= MAX_TIME_MS,
        ensures
            final(self).wf(),
            final(self).win_count() == old(self).win_count(),
            final(self).spec_config() == old(self).spec_config(),
            final(self).spec_buffer_cap() == old(self).spec_buffer_cap(),
            forall|i: int|
                0 <= i < old(self).win_count() ==> #[trigger] final(self).win(i) == old(self).win(i),
            forall|i: int|
                0 <= i < old(self).win_count()
                    ==> #[trigger] final(self).bufview(i) == calc_window_step(
                        old(self).bufview(i),
                        point,
                        old(self).win(i),
                        old(self).spec_buffer_cap(),
                        now_ms,
                    ),
    {
        let cap = self.config.max_buffer_size;
        let n = self.windows.len();
        let mut i: usize = 0;
        while i < n
            invariant
                0 <= i <= n,
                n == self.windows@.len(),
                self.config == old(self).config,
                self.windows@.len() == old(self).windows@.len(),
                self.wf(),
                point.arithmetic_ok(),
                0 <= now_ms <= MAX_TIME_MS,
                cap == self.config.max_buffer_size,
                forall|k: int|
                    0 <= k < self.windows@.len()
                        ==> #[trigger] self.win(k) == old(self).win(k),
                forall|k: int|
                    0 <= k < i
                        ==> #[trigger] self.bufview(k) == calc_window_step(
                            old(self).bufview(k),
                            point,
                            old(self).win(k),
                            old(self).spec_buffer_cap(),
                            now_ms,
                        ),
                forall|k: int|
                    i <= k < self.windows@.len()
                        ==> #[trigger] self.bufview(k) == old(self).bufview(k),
            decreases n - i,
        {
            let ghost before = self.windows@;
            let ghost w = old(self).win(i as int);
            let ghost pre = old(self).bufview(i as int);
            proof {
                assert forall|k: int| 0 <= k < before.len() implies {
                    &&& (#[trigger] before[k]).window == old(self).win(k)
                    &&& before[k].window.wf()
                    &&& before[k].buf.wf()
                    &&& before[k].buf.spec_capacity() == old(self).spec_buffer_cap()
                    &&& all_arithmetic_ok(before[k].buf@)
                    &&& (k < i ==> before[k].buf@ == calc_window_step(
                        old(self).bufview(k),
                        point,
                        old(self).win(k),
                        old(self).spec_buffer_cap(),
                        now_ms,
                    ))
                    &&& (k >= i ==> before[k].buf@ == old(self).bufview(k))
                } by {
                    assert(self.win(k) == old(self).win(k));
                    assert(self.win(k).wf());
                    assert(self.windows@[k].buf.wf());
                    assert(self.windows@[k].buf.spec_capacity() == self.config.max_buffer_size);
                    assert(all_arithmetic_ok(self.bufview(k)));
                    if k < i {
                        assert(self.bufview(k) == calc_window_step(
                            old(self).bufview(k),
                            point,
                            old(self).win(k),
                            old(self).spec_buffer_cap(),
                            now_ms,
                        ));
                    } else {
                        assert(self.bufview(k) == old(self).bufview(k));
                    }
                }
                assert(before[i as int].window == w);
                assert(before[i as int].buf@ == pre);
            }
            let duration = self.windows[i].window.duration_ms;
            let cutoff: i64 = now_ms - duration;
            let wb = &mut self.windows[i];
            if point.timestamp_ms >= cutoff {
                wb.buf.push(point.clone());
                proof {
                    lemma_fifo_push_all_ok(pre, point, old(self).spec_buffer_cap());
                }
            }
            let ghost pushed = wb.buf@;
            proof {
                assert(pushed == if in_window(point, w, now_ms) {
                    spec_fifo_push(pre, point, old(self).spec_buffer_cap())
                } else {
                    pre
                });
            }
            while wb.buf.len() > 0 && wb.buf.get(0).timestamp_ms < cutoff
                invariant
                    wb.buf.wf(),
                    wb.window == w,
                    w.wf(),
                    wb.buf.spec_capacity() == old(self).spec_buffer_cap(),
                    cutoff == now_ms - w.duration_ms,
                    all_arithmetic_ok(wb.buf@),
                    evict_stale(wb.buf@, w, now_ms) == evict_stale(pushed, w, now_ms),
                decreases wb.buf@.len(),
            {
                let ghost cur = wb.buf@;
                let _ = wb.buf.pop_front();
                proof {
                    assert(!in_window(cur[0], w, now_ms));
                    assert(all_arithmetic_ok(wb.buf@)) by {
                        assert(forall|k: int|
                            0 <= k < cur.drop_first().len()
                                ==> #[trigger] cur.drop_first()[k] == cur[k + 1]);
                    }
                }
            }
            proof {
                if wb.buf@.len() > 0 {
                    assert(in_window(wb.buf@[0], w, now_ms));
                }
                assert(evict_stale(wb.buf@, w, now_ms) == wb.buf@);
                assert(wb.buf@ == calc_window_step(
                    pre,
                    point,
                    w,
                    old(self).spec_buffer_cap(),
                    now_ms,
                ));
            }
            proof {
                let wsnew = self.windows@;
                assert(wsnew == before.update(i as int, wsnew[i as int]));
                assert(wsnew[i as int].window == w);
                assert(wsnew[i as int].buf.wf());
                assert(all_arithmetic_ok(wsnew[i as int].buf@));
                assert forall|k: int| 0 <= k < wsnew.len() && k != i implies #[trigger] wsnew[k]
                    == before[k] by {}
                assert forall|k: int| 0 <= k < wsnew.len()
                    implies #[trigger] self.win(k) == old(self).win(k) by {
                    assert(self.win(k) == wsnew[k].window);
                    if k != i as int {
                        assert(wsnew[k] == before[k]);
                    }
                }
                assert forall|k: int| 0 <= k <= i && k < wsnew.len()
                    implies #[trigger] self.bufview(k) == calc_window_step(
                        old(self).bufview(k),
                        point,
                        old(self).win(k),
                        old(self).spec_buffer_cap(),
                        now_ms,
                    ) by {
                    assert(self.bufview(k) == wsnew[k].buf@);
                    if k != i as int {
                        assert(wsnew[k] == before[k]);
                    }
                }
                assert forall|k: int| i < k < wsnew.len()
                    implies #[trigger] self.bufview(k) == old(self).bufview(k) by {
                    assert(self.bufview(k) == wsnew[k].buf@);
                    assert(wsnew[k] == before[k]);
                }
                assert(self.wf()) by {
                    assert(self.config.wf());
                    assert forall|k: int| 0 <= k < self.win_count()
                        implies (#[trigger] self.win(k)).wf()
                            && (#[trigger] self.windows@[k].buf).wf()
                            && self.windows@[k].buf.spec_capacity()
                                == self.config.max_buffer_size
                            && all_arithmetic_ok(#[trigger] self.bufview(k)) by {
                        if k != i as int {
                            assert(wsnew[k] == before[k]);
                        }
                    }
                }
            }
            i = i + 1;
        }
    }

    /// Index of the first window carrying `name`, scanning from
    /// position `k`; nothing when no window from `k` on carries it.
    pub closed spec fn spec_find_from(self, name: Seq<char>, k: int) -> Option<int>
        decreases self.win_count() - k,
    {
        if k < 0 || k >= self.win_count() {
            None
        } else if self.win(k).name@ == name {
            Some(k)
        } else {
            self.spec_find_from(name, k + 1)
        }
    }

    /// The index of the first window with the given name, if any.
    pub closed spec fn spec_find_window(self, name: Seq<char>) -> Option<int> {
        self.spec_find_from(name, 0)
    }

    /// Scanning from `k` finds the first match at or after `k`.
    proof fn lemma_find_from_props(self, name: Seq<char>, k: int)
        requires
            0 <= k <= self.win_count(),
        ensures
            match self.spec_find_from(name, k) {
                Some(i) => {
                    &&& k <= i < self.win_count()
                    &&& self.win(i).name@ == name
                    &&& forall|j: int| k <= j < i ==> (#[trigger] self.win(j)).name@ != name
                },
                None => forall|j: int|
                    k <= j < self.win_count() ==> (#[trigger] self.win(j)).name@ != name,
            },
        decreases self.win_count() - k,
    {
        if k < self.win_count() && self.win(k).name@ != name {
            self.lemma_find_from_props(name, k + 1);
        }
    }

    /// What the window lookup finds: the matching index is in range,
    /// carries the name, and nothing before it does; a missed lookup
    /// means no configured window carries the name. This pins the
    /// lookup for callers: a window they configured is found.
    pub proof fn lemma_find_window_props(self, name: Seq<char>)
        ensures
            match self.spec_find_window(name) {
                Some(i) => {
                    &&& 0 <= i < self.win_count()
                    &&& self.win(i).name@ == name
                    &&& forall|j: int| 0 <= j < i ==> (#[trigger] self.win(j)).name@ != name
                },
                None => forall|j: int|
                    0 <= j < self.win_count() ==> (#[trigger] self.win(j)).name@ != name,
            },
    {
        self.lemma_find_from_props(name, 0);
    }

    /// A window the calculator carries is found by the lookup.
    pub proof fn lemma_window_present_found(self, name: Seq<char>)
        requires
            exists|i: int| 0 <= i < self.win_count() && (#[trigger] self.win(i)).name@ == name,
        ensures
            self.spec_find_window(name) is Some,
    {
        self.lemma_find_window_props(name);
        if self.spec_find_window(name) is None {
            let i = choose|i: int|
                0 <= i < self.win_count() && (#[trigger] self.win(i)).name@ == name;
            assert(self.win(i).name@ != name);
        }
    }

    /// The window lookup depends only on the configured windows: two
    /// calculators with the same windows find the same index.
    pub proof fn lemma_find_window_stable(a: Self, b: Self, name: Seq<char>)
        requires
            a.win_count() == b.win_count(),
            forall|i: int| 0 <= i < a.win_count() ==> #[trigger] a.win(i) == b.win(i),
        ensures
            a.spec_find_window(name) == b.spec_find_window(name),
    {
        Self::lemma_find_from_stable(a, b, name, 0);
    }

    /// Scans from the same position agree when the windows agree.
    proof fn lemma_find_from_stable(a: Self, b: Self, name: Seq<char>, k: int)
        requires
            a.win_count() == b.win_count(),
            forall|i: int| 0 <= i < a.win_count() ==> #[trigger] a.win(i) == b.win(i),
        ensures
            a.spec_find_from(name, k) == b.spec_find_from(name, k),
        decreases a.win_count() - k,
    {
        if 0 <= k < a.win_count() && a.win(k).name@ != name {
            Self::lemma_find_from_stable(a, b, name, k + 1);
        }
    }

    /// Find the first window index whose name matches `name`.
    fn find_window(&self, name: &str) -> (r: Option<usize>)
        ensures
            match r {
                Some(i) => self.spec_find_window(name@) == Some(i as int) && i
                    < self.win_count(),
                None => self.spec_find_window(name@) is None,
            },
    {
        let n = self.windows.len();
        let target: String = name.to_owned();
        let mut i: usize = 0;
        while i < n
            invariant
                0 <= i <= n,
                n == self.win_count(),
                target@ == name@,
                self.spec_find_from(name@, i as int) == self.spec_find_window(name@),
            decreases n - i,
        {
            if self.windows[i].window.name == target {
                proof {
                    assert(self.win(i as int).name@ == name@);
                }
                return Some(i);
            }
            proof {
                assert(self.win(i as int).name@ != name@);
            }
            i = i + 1;
        }
        None
    }

    /// Average over one window's buffer: the exact mean of the
    /// buffered fees over their count.
    fn average_of_buffer(&self, i: usize, at_ms: i64) -> (r: AverageResult)
        requires
            self.wf(),
            0 <= i < self.win_count(),
        ensures
            r == spec_window_average(self.bufview(i as int), self.win(i as int), at_ms),
            r.wf(),
    {
        proof {
            self.lemma_wf_facts();
        }
        let wb = &self.windows[i];
        let count = wb.buf.len();
        let ghost s = self.bufview(i as int);
        if count == 0 {
            return AverageResult {
                value: Ratio::zero(),
                sample_count: 0,
                is_partial: true,
                calculated_at_ms: at_ms,
                time_window: wb.window.clone(),
            };
        }
        let mut sum: u64 = 0;
        let mut k: usize = 0;
        proof {
            assert(s.subrange(0, 0) =~= Seq::<FeeDataPoint>::empty());
        }
        while k < count
            invariant
                0 <= k <= count,
                count == s.len(),
                s == self.bufview(i as int),
                0 <= i < self.win_count(),
                self.wf(),
                sum as int == spec_fee_sum(s.subrange(0, k as int)),
                sum <= (k as int) * (MAX_FEE_STROOPS as int),
            decreases count - k,
        {
            let ghost prefix = s.subrange(0, k as int);
            proof {
                self.lemma_wf_facts();
                assert(s[k as int].arithmetic_ok());
                assert(s.subrange(0, k + 1 as int).drop_last() =~= prefix);
                assert((k as int + 1) * (MAX_FEE_STROOPS as int)
                    == (k as int) * (MAX_FEE_STROOPS as int) + MAX_FEE_STROOPS);
                self.lemma_wf_facts();
                assert(s.len() <= 1_000_000_000);
            }
            let wb2 = &self.windows[i];
            let p = wb2.buf.get(k);
            sum = sum + p.fee_amount;
            k = k + 1;
        }
        proof {
            assert(s.subrange(0, count as int) =~= s);
            lemma_fee_sum_bound(s);
            assert(count as int <= 1_000_000_000);
            assert((count as int) * (MAX_FEE_STROOPS as int)
                <= 1_000_000_000 * (MAX_FEE_STROOPS as int));
        }
        let value = Ratio::new(sum as i64, count as u64);
        AverageResult {
            value,
            sample_count: count,
            is_partial: count < wb.window.min_samples,
            calculated_at_ms: at_ms,
            time_window: wb.window.clone(),
        }
    }

    /// Average for the window with the given name. Fails with a
    /// configuration error exactly when no window carries the name.
    pub fn calculate_average_for_window(&self, window_name: &str, at_ms: i64) -> (r: Result<
        AverageResult,
        InsightsError,
    >)
        requires
            self.wf(),
        ensures
            match r {
                Ok(a) => {
                    &&& self.spec_find_window(window_name@) matches Some(i)
                    &&& 0 <= i < self.win_count()
                    &&& a == spec_window_average(self.bufview(i), self.win(i), at_ms)
                    &&& a.wf()
                },
                Err(e) => {
                    &&& self.spec_find_window(window_name@) is None
                    &&& e is ConfigError
                },
            },
    {
        match self.find_window(window_name) {
            Some(i) => Ok(self.average_of_buffer(i, at_ms)),
            None => Err(InsightsError::config_error("Time window not found".to_owned())),
        }
    }

    /// Averages for the three windows the engine reports.
    pub fn calculate_averages(&self, at_ms: i64) -> (r: Result<RollingAverages, InsightsError>)
        requires
            self.wf(),
        ensures
            match r {
                Ok(a) => {
                    &&& self.spec_find_window("short_term"@) matches Some(si)
                        && 0 <= si < self.win_count()
                        && a.short_term == spec_window_average(self.bufview(si), self.win(si), at_ms)
                    &&& self.spec_find_window("medium_term"@) matches Some(mi)
                        && 0 <= mi < self.win_count()
                        && a.medium_term == spec_window_average(self.bufview(mi), self.win(mi), at_ms)
                    &&& self.spec_find_window("long_term"@) matches Some(li)
                        && 0 <= li < self.win_count()
                        && a.long_term == spec_window_average(self.bufview(li), self.win(li), at_ms)
                    &&& a.short_term.wf() && a.medium_term.wf() && a.long_term.wf()
                },
                Err(e) => {
                    &&& e is ConfigError
                    &&& (self.spec_find_window("short_term"@) is None
                        || self.spec_find_window("medium_term"@) is None
                        || self.spec_find_window("long_term"@) is None)
                },
            },
    {
        let short_term = self.calculate_average_for_window("short_term", at_ms)?;
        let medium_term = self.calculate_average_for_window("medium_term", at_ms)?;
        let long_term = self.calculate_average_for_window("long_term", at_ms)?;
        Ok(RollingAverages { short_term, medium_term, long_term })
    }

    /// Average for a specific window, identified by its name; `None`
    /// when the window is unknown or its buffer is empty.
    pub fn get_average_for_window(&self, window: &TimeWindow, at_ms: i64) -> (r: Option<
        AverageResult,
    >)
        requires
            self.wf(),
        ensures
            match r {
                Some(a) => {
                    &&& self.spec_find_window(window.name@) matches Some(i)
                    &&& 0 <= i < self.win_count()
                    &&& self.bufview(i).len() > 0
                    &&& a == spec_window_average(self.bufview(i), self.win(i), at_ms)
                },
                None => match self.spec_find_window(window.name@) {
                    Some(i) => self.bufview(i).len() == 0,
                    None => true,
                },
            },
    {
        match self.find_window(window.name.as_str()) {
            Some(i) => {
                if self.windows[i].buf.len() == 0 {
                    None
                } else {
                    Some(self.average_of_buffer(i, at_ms))
                }
            },
            None => None,
        }
    }

    /// Number of samples buffered for the window with this name.
    pub fn get_sample_count(&self, window: &TimeWindow) -> (r: usize)
        requires
            self.wf(),
        ensures
            r as int == match self.spec_find_window(window.name@) {
                Some(i) => self.bufview(i).len() as int,
                None => 0,
            },
    {
        match self.find_window(window.name.as_str()) {
            Some(i) => self.windows[i].buf.len(),
            None => 0,
        }
    }

    /// Whether the window with this name holds at least its minimum
    /// sample count.
    pub fn has_sufficient_data(&self, window: &TimeWindow) -> (r: bool)
        requires
            self.wf(),
        ensures
            r == (match self.spec_find_window(window.name@) {
                Some(i) => self.bufview(i).len() >= window.min_samples,
                None => window.min_samples == 0,
            }),
    {
        let sample_count = self.get_sample_count(window);
        sample_count >= window.min_samples
    }
}

} // verus!
