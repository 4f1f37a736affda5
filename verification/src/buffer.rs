//! A bounded FIFO buffer.
//!
//! When the buffer is full, pushing a new item first evicts the oldest
//! one, so the buffer always holds the most recent items in insertion
//! order.

use std::collections::VecDeque;
use vstd::prelude::*;

verus! {

/// What one FIFO push leaves behind: the oldest item is dropped first
/// when the buffer already holds `cap` items, then the new item is
/// appended.
pub open spec fn spec_fifo_push<T>(s: Seq<T>, item: T, cap: int) -> Seq<T> {
    if s.len() >= cap {
        s.drop_first().push(item)
    } else {
        s.push(item)
    }
}

/// The contents after pushing every item of `batch` in order onto `s`.
pub open spec fn spec_fifo_push_all<T>(s: Seq<T>, batch: Seq<T>, cap: int) -> Seq<T>
    decreases batch.len(),
{
    if batch.len() == 0 {
        s
    } else {
        spec_fifo_push_all(spec_fifo_push(s, batch[0], cap), batch.drop_first(), cap)
    }
}

/// After a batch of FIFO pushes the buffer holds at most `cap` items,
/// and they are exactly the most recent `min(cap, |s| + |batch|)` items
/// of the stream `s + batch`, in order.
pub proof fn lemma_fifo_push_all_suffix<T>(s: Seq<T>, batch: Seq<T>, cap: int)
    requires
        cap >= 1,
        s.len() <= cap,
    ensures
        ({
            let total = s + batch;
            let kept = if total.len() <= cap { total.len() as int } else { cap };
            spec_fifo_push_all(s, batch, cap)
                == total.subrange(total.len() - kept, total.len() as int)
        }),
    decreases batch.len(),
{
    let total = s + batch;
    let kept: int = if total.len() <= cap { total.len() as int } else { cap };
    if batch.len() == 0 {
        assert(total =~= s);
        assert(spec_fifo_push_all(s, batch, cap)
            =~= total.subrange(total.len() - kept, total.len() as int));
    } else {
        let s1 = spec_fifo_push(s, batch[0], cap);
        assert(s1.len() <= cap);
        lemma_fifo_push_all_suffix(s1, batch.drop_first(), cap);
        let total1 = s1 + batch.drop_first();
        let kept1: int = if total1.len() <= cap { total1.len() as int } else { cap };
        if s.len() >= cap {
            assert(total1 =~= total.subrange(1, total.len() as int));
        } else {
            assert(total1 =~= total);
        }
        assert(spec_fifo_push_all(s, batch, cap)
            =~= total.subrange(total.len() - kept, total.len() as int));
    }
}

/// A FIFO buffer holding at most `max_size` items.
#[derive(Debug)]
pub struct CircularBuffer<T> {
    data: VecDeque<T>,
    max_size: usize,
}

impl<T> View for CircularBuffer<T> {
    type V = Seq<T>;

    closed spec fn view(&self) -> Seq<T> {
        self.data@
    }
}

impl<T> CircularBuffer<T> {
    /// The buffer's capacity.
    pub closed spec fn spec_capacity(self) -> int {
        self.max_size as int
    }

    /// The buffer never exceeds its positive capacity.
    pub closed spec fn wf(self) -> bool {
        &&& self.max_size >= 1
        &&& self@.len() <= self.max_size
    }

    /// A well-formed buffer holds at most capacity-many items.
    pub proof fn lemma_wf_len(self)
        requires
            self.wf(),
        ensures
            self@.len() <= self.spec_capacity(),
            self.spec_capacity() >= 1,
    {
    }

    /// Create an empty buffer with the given capacity.
    pub fn new(max_size: usize) -> (r: Self)
        requires
            max_size >= 1,
        ensures
            r.wf(),
            r@ == Seq::<T>::empty(),
            r.spec_capacity() == max_size,
    {
        CircularBuffer { data: VecDeque::new(), max_size }
    }

    /// Append `item`, evicting the oldest item first when full.
    pub fn push(&mut self, item: T)
        requires
            old(self).wf(),
        ensures
            final(self).wf(),
            final(self).spec_capacity() == old(self).spec_capacity(),
            final(self)@ == spec_fifo_push(old(self)@, item, old(self).spec_capacity()),
    {
        if self.data.len() >= self.max_size {
            let _ = self.data.pop_front();
        }
        self.data.push_back(item);
    }

    /// Borrow the buffer contents, oldest first.
    pub fn iter(&self) -> (r: &VecDeque<T>)
        ensures
            r@ == self@,
    {
        &self.data
    }

    /// Number of items held.
    pub fn len(&self) -> (r: usize)
        ensures
            r == self@.len(),
    {
        self.data.len()
    }

    /// Whether the buffer holds nothing.
    pub fn is_empty(&self) -> (r: bool)
        ensures
            r == (self@.len() == 0),
    {
        self.data.len() == 0
    }

    /// Borrow the item at position `i`, oldest first.
    pub fn get(&self, i: usize) -> (r: &T)
        requires
            i < self@.len(),
        ensures
            *r == self@[i as int],
    {
        &self.data[i]
    }

    /// Remove and return the oldest item, if any.
    pub fn pop_front(&mut self) -> (r: Option<T>)
        requires
            old(self).wf(),
        ensures
            final(self).wf(),
            final(self).spec_capacity() == old(self).spec_capacity(),
            match r {
                Some(x) => {
                    &&& old(self)@.len() > 0
                    &&& x == old(self)@[0]
                    &&& final(self)@ == old(self)@.drop_first()
                },
                None => {
                    &&& old(self)@.len() == 0
                    &&& final(self)@ == old(self)@
                },
            },
    {
        let r = self.data.pop_front();
        proof {
            if old(self)@.len() > 0 {
                assert(self@ =~= old(self)@.drop_first());
            }
        }
        r
    }
}

} // verus!
