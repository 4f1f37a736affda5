//! In-memory fee history store.
//!
//! `FeeHistoryStore` holds a bounded window of `FeeDataPoint` values
//! collected across polling cycles. When the store is full the oldest
//! entry is evicted before the new one is inserted, so it always holds
//! the most recent samples in insertion order.

use vstd::prelude::*;
use crate::buffer::{spec_fifo_push, spec_fifo_push_all, lemma_fifo_push_all_suffix, CircularBuffer};
use crate::types::FeeDataPoint;

verus! {

/// Default maximum number of data points retained in memory.
pub const DEFAULT_CAPACITY: usize = 10_000;

/// Capacity-bounded in-memory store for `FeeDataPoint` values.
#[derive(Debug)]
pub struct FeeHistoryStore {
    data: CircularBuffer<FeeDataPoint>,
}

impl View for FeeHistoryStore {
    type V = Seq<FeeDataPoint>;

    closed spec fn view(&self) -> Seq<FeeDataPoint> {
        self.data@
    }
}

impl FeeHistoryStore {
    /// The store's capacity.
    pub closed spec fn spec_capacity(self) -> int {
        self.data.spec_capacity()
    }

    /// The store never exceeds its positive capacity.
    pub closed spec fn wf(self) -> bool {
        self.data.wf()
    }

    /// A well-formed store holds at most capacity-many samples.
    pub proof fn lemma_wf_len(self)
        requires
            self.wf(),
        ensures
            self@.len() <= self.spec_capacity(),
            self.spec_capacity() >= 1,
    {
        self.data.lemma_wf_len();
    }

    /// Create a new store with the given maximum capacity.
    pub fn new(capacity: usize) -> (r: Self)
        requires
            capacity >= 1,
        ensures
            r.wf(),
            r@ == Seq::<FeeDataPoint>::empty(),
            r.spec_capacity() == capacity,
    {
        FeeHistoryStore { data: CircularBuffer::new(capacity) }
    }

    /// Append a new data point, evicting the oldest if the store is full.
    pub fn push(&mut self, point: FeeDataPoint)
        requires
            old(self).wf(),
        ensures
            final(self).wf(),
            final(self).spec_capacity() == old(self).spec_capacity(),
            final(self)@ == spec_fifo_push(old(self)@, point, old(self).spec_capacity()),
    {
        self.data.push(point);
    }

    /// Append a whole batch in order, each push evicting as `push` does.
    ///
    /// Afterwards the store holds the most recent
    /// `min(capacity, |old contents| + |batch|)` samples of the
    /// combined stream, in insertion order.
    pub fn push_batch(&mut self, batch: &Vec<FeeDataPoint>)
        requires
            old(self).wf(),
        ensures
            final(self).wf(),
            final(self).spec_capacity() == old(self).spec_capacity(),
            final(self)@ == spec_fifo_push_all(old(self)@, batch@, old(self).spec_capacity()),
            final(self)@.len() <= final(self).spec_capacity(),
            ({
                let total = old(self)@ + batch@;
                let kept = if total.len() <= old(self).spec_capacity() {
                    total.len() as int
                } else {
                    old(self).spec_capacity()
                };
                final(self)@ == total.subrange(total.len() - kept, total.len() as int)
            }),
    {
        proof {
            self.lemma_wf_len();
            assert(batch@.subrange(0, batch@.len() as int) =~= batch@);
        }
        let ghost cap = self.spec_capacity();
        let mut i: usize = 0;
        while i < batch.len()
            invariant
                0 <= i <= batch@.len(),
                self.wf(),
                self.spec_capacity() == cap,
                spec_fifo_push_all(self@, batch@.subrange(i as int, batch@.len() as int), cap)
                    == spec_fifo_push_all(old(self)@, batch@, cap),
            decreases batch.len() - i,
        {
            let ghost pre = self@;
            let ghost rest = batch@.subrange(i as int, batch@.len() as int);
            self.push(batch[i].clone());
            proof {
                assert(rest.len() > 0);
                assert(rest[0] == batch@[i as int]);
                assert(rest.drop_first()
                    =~= batch@.subrange(i + 1 as int, batch@.len() as int));
                assert(spec_fifo_push_all(pre, rest, cap)
                    == spec_fifo_push_all(spec_fifo_push(pre, rest[0], cap), rest.drop_first(), cap));
            }
            i = i + 1;
        }
        proof {
            assert(batch@.subrange(batch@.len() as int, batch@.len() as int)
                =~= Seq::<FeeDataPoint>::empty());
            old(self).lemma_wf_len();
            lemma_fifo_push_all_suffix(old(self)@, batch@, old(self).spec_capacity());
            self.lemma_wf_len();
        }
    }

    /// Return all data points with a timestamp >= `since`, oldest first.
    pub fn get_since(&self, since_ms: i64) -> (r: Vec<FeeDataPoint>)
        ensures
            r@ == self@.filter(|p: FeeDataPoint| p.timestamp_ms >= since_ms),
    {
        let mut out: Vec<FeeDataPoint> = Vec::new();
        let items = self.data.iter();
        let mut i: usize = 0;
        while i < items.len()
            invariant
                0 <= i <= items@.len(),
                items@ == self@,
                out@ == self@.subrange(0, i as int)
                    .filter(|p: FeeDataPoint| p.timestamp_ms >= since_ms),
            decreases items@.len() - i,
        {
            let ghost prefix = self@.subrange(0, i as int);
            let p = &items[i];
            if p.timestamp_ms >= since_ms {
                out.push(p.clone());
            }
            proof {
                assert(self@.subrange(0, i + 1 as int) =~= prefix.push(self@[i as int]));
                crate::store::lemma_filter_push(
                    prefix,
                    self@[i as int],
                    |q: FeeDataPoint| q.timestamp_ms >= since_ms,
                );
            }
            i = i + 1;
        }
        proof {
            assert(self@.subrange(0, self@.len() as int) =~= self@);
        }
        out
    }

    /// Return the `n` most recent data points, oldest first.
    /// If fewer than `n` points exist, all points are returned.
    pub fn get_last_n(&self, n: usize) -> (r: Vec<FeeDataPoint>)
        ensures
            r@ == self@.subrange(
                self@.len() - (if n <= self@.len() { n as int } else { self@.len() as int }),
                self@.len() as int,
            ),
    {
        let items = self.data.iter();
        let len = items.len();
        let skip = if n <= len { len - n } else { 0 };
        let mut out: Vec<FeeDataPoint> = Vec::new();
        let mut i: usize = skip;
        while i < len
            invariant
                skip <= i <= len,
                items@ == self@,
                len == self@.len(),
                out@ == self@.subrange(skip as int, i as int),
            decreases len - i,
        {
            out.push(items[i].clone());
            proof {
                assert(self@.subrange(skip as int, i + 1 as int)
                    =~= self@.subrange(skip as int, i as int).push(self@[i as int]));
            }
            i = i + 1;
        }
        out
    }

    /// Number of data points currently held.
    pub fn len(&self) -> (r: usize)
        ensures
            r == self@.len(),
    {
        self.data.len()
    }

    /// `true` when the store contains no data points.
    pub fn is_empty(&self) -> (r: bool)
        ensures
            r == (self@.len() == 0),
    {
        self.data.is_empty()
    }

    /// Remove all data points from the store.
    pub fn clear(&mut self)
        requires
            old(self).wf(),
        ensures
            final(self).wf(),
            final(self).spec_capacity() == old(self).spec_capacity(),
            final(self)@ == Seq::<FeeDataPoint>::empty(),
    {
        let mut i: usize = self.data.len();
        while i > 0
            invariant
                self.wf(),
                self.spec_capacity() == old(self).spec_capacity(),
                i == self@.len(),
            decreases i,
        {
            let _ = self.data.pop_front();
            i = i - 1;
        }
        proof {
            assert(self@ =~= Seq::<FeeDataPoint>::empty());
        }
    }
}

/// Filtering a sequence extended by one element appends the element
/// exactly when it passes the predicate.
pub proof fn lemma_filter_push<T>(s: Seq<T>, x: T, pred: spec_fn(T) -> bool)
    ensures
        s.push(x).filter(pred) == if pred(x) {
            s.filter(pred).push(x)
        } else {
            s.filter(pred)
        },
{
    reveal(Seq::filter);
    assert(s.push(x).drop_last() =~= s);
    assert(s.push(x).last() == x);
}

} // verus!
