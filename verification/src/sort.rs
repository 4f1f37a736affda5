//! Ordering of fee samples by time.
//!
//! Samples are ordered by timestamp, ties broken by ledger sequence.
//! The spike detector processes samples in this order.

use vstd::prelude::*;
use vstd::seq_lib::lemma_multiset_commutative;
use crate::types::FeeDataPoint;

verus! {

/// Sample order: by timestamp, ties broken by ledger sequence.
pub open spec fn time_le(a: FeeDataPoint, b: FeeDataPoint) -> bool {
    ||| a.timestamp_ms < b.timestamp_ms
    ||| (a.timestamp_ms == b.timestamp_ms && a.ledger_sequence <= b.ledger_sequence)
}

/// The sequence is ordered by `time_le`.
pub open spec fn time_sorted(s: Seq<FeeDataPoint>) -> bool {
    forall|i: int, j: int| 0 <= i < j < s.len() ==> time_le(#[trigger] s[i], #[trigger] s[j])
}

/// Position at which `x` is inserted into the ordered sequence `s`:
/// just after the last element that is not greater than `x`.
pub open spec fn spec_insert_pos(s: Seq<FeeDataPoint>, x: FeeDataPoint) -> int
    decreases s.len(),
{
    if s.len() == 0 {
        0
    } else if time_le(s[0], x) {
        1 + spec_insert_pos(s.drop_first(), x)
    } else {
        0
    }
}

/// The insertion position is the first index holding an element
/// greater than `x` (or the length when there is none).
pub proof fn lemma_insert_pos_props(s: Seq<FeeDataPoint>, x: FeeDataPoint)
    ensures
        0 <= spec_insert_pos(s, x) <= s.len(),
        forall|j: int| 0 <= j < spec_insert_pos(s, x) ==> time_le(#[trigger] s[j], x),
        spec_insert_pos(s, x) < s.len() ==> !time_le(s[spec_insert_pos(s, x)], x),
    decreases s.len(),
{
    if s.len() > 0 && time_le(s[0], x) {
        lemma_insert_pos_props(s.drop_first(), x);
        let p = spec_insert_pos(s, x);
        assert forall|j: int| 0 <= j < p implies time_le(#[trigger] s[j], x) by {
            if j > 0 {
                assert(s.drop_first()[j - 1] == s[j]);
            }
        }
        if p < s.len() {
            assert(s.drop_first()[p - 1] == s[p]);
        }
    }
}

/// `x` inserted into the ordered sequence `s` at its position.
pub open spec fn spec_insert_sorted(s: Seq<FeeDataPoint>, x: FeeDataPoint) -> Seq<FeeDataPoint> {
    s.insert(spec_insert_pos(s, x), x)
}

/// Ordered insertion keeps the sequence ordered and adds exactly `x`
/// to its contents.
pub proof fn lemma_insert_sorted_props(s: Seq<FeeDataPoint>, x: FeeDataPoint)
    requires
        time_sorted(s),
    ensures
        time_sorted(spec_insert_sorted(s, x)),
        spec_insert_sorted(s, x).len() == s.len() + 1,
        spec_insert_sorted(s, x).to_multiset() == s.to_multiset().insert(x),
{
    lemma_insert_pos_props(s, x);
    let p = spec_insert_pos(s, x);
    let t = spec_insert_sorted(s, x);
    s.insert_ensures(p, x);
    assert forall|i: int, j: int| 0 <= i < j < t.len() implies time_le(
        #[trigger] t[i],
        #[trigger] t[j],
    ) by {
        if i < p && j < p {
            assert(t[i] == s[i] && t[j] == s[j]);
        } else if i < p && j == p {
            assert(t[i] == s[i] && t[j] == x);
        } else if i < p && j > p {
            assert(t[i] == s[i] && t[j] == s[j - 1]);
        } else if i == p && j > p {
            assert(t[i] == x && t[j] == s[j - 1]);
            if p < s.len() {
                assert(!time_le(s[p], x));
                assert(time_le(x, s[p]));
                if j - 1 > p {
                    assert(time_le(s[p], s[j - 1]));
                }
            }
        } else {
            assert(t[i] == s[i - 1] && t[j] == s[j - 1]);
        }
    }
    assert(t.to_multiset() =~= s.to_multiset().insert(x)) by {
        broadcast use vstd::seq_lib::group_to_multiset_ensures;

        let left = s.subrange(0, p);
        let right = s.subrange(p, s.len() as int);
        assert(t == left.push(x) + right);
        lemma_multiset_commutative(left.push(x), right);
        assert(left.push(x).to_multiset() =~= left.to_multiset().insert(x));
        assert(s =~= left + right);
        lemma_multiset_commutative(left, right);
    }
}

/// The input sequence ordered by `time_le`, built by ordered insertion
/// left to right.
pub open spec fn spec_sort_by_time(s: Seq<FeeDataPoint>) -> Seq<FeeDataPoint>
    decreases s.len(),
{
    if s.len() == 0 {
        Seq::empty()
    } else {
        spec_insert_sorted(spec_sort_by_time(s.drop_last()), s.last())
    }
}

/// The ordered copy is an ordered permutation of the input.
pub proof fn lemma_sort_by_time_props(s: Seq<FeeDataPoint>)
    ensures
        time_sorted(spec_sort_by_time(s)),
        spec_sort_by_time(s).len() == s.len(),
        spec_sort_by_time(s).to_multiset() == s.to_multiset(),
    decreases s.len(),
{
    broadcast use vstd::seq_lib::group_to_multiset_ensures;

    if s.len() > 0 {
        lemma_sort_by_time_props(s.drop_last());
        lemma_insert_sorted_props(spec_sort_by_time(s.drop_last()), s.last());
        assert(s =~= s.drop_last().push(s.last()));
        assert(s.drop_last().push(s.last()).to_multiset()
            =~= s.drop_last().to_multiset().insert(s.last()));
    }
}

/// Every element of the ordered copy occurs in the input.
pub proof fn lemma_sort_by_time_contains(s: Seq<FeeDataPoint>)
    ensures
        forall|j: int|
            0 <= j < spec_sort_by_time(s).len() ==> s.contains(#[trigger] spec_sort_by_time(s)[j]),
{
    broadcast use vstd::seq_lib::group_to_multiset_ensures;

    lemma_sort_by_time_props(s);
    let t = spec_sort_by_time(s);
    assert forall|j: int| 0 <= j < t.len() implies s.contains(#[trigger] t[j]) by {
        assert(t.contains(t[j]));
        assert(t.to_multiset().count(t[j]) > 0);
    }
}

/// Whether `a` precedes or equals `b` in sample order.
pub fn time_le_exec(a: &FeeDataPoint, b: &FeeDataPoint) -> (r: bool)
    ensures
        r == time_le(*a, *b),
{
    a.timestamp_ms < b.timestamp_ms
        || (a.timestamp_ms == b.timestamp_ms && a.ledger_sequence <= b.ledger_sequence)
}

/// Return a copy of `v` ordered by timestamp, ties broken by ledger
/// sequence. Insertion sort; the result is an ordered permutation of
/// the input.
pub fn sort_by_time(v: &Vec<FeeDataPoint>) -> (r: Vec<FeeDataPoint>)
    ensures
        r@ == spec_sort_by_time(v@),
        time_sorted(r@),
        r@.len() == v@.len(),
        r@.to_multiset() == v@.to_multiset(),
        forall|j: int| 0 <= j < r@.len() ==> v@.contains(#[trigger] r@[j]),
{
    let mut r: Vec<FeeDataPoint> = Vec::new();
    let mut i: usize = 0;
    proof {
        assert(v@.subrange(0, 0) =~= Seq::<FeeDataPoint>::empty());
    }
    while i < v.len()
        invariant
            0 <= i <= v@.len(),
            r@ == spec_sort_by_time(v@.subrange(0, i as int)),
            time_sorted(r@),
            r@.len() == i,
        decreases v@.len() - i,
    {
        let ghost prefix = v@.subrange(0, i as int);
        let x = v[i].clone();
        let mut pos: usize = 0;
        while pos < r.len() && time_le_exec(&r[pos], &x)
            invariant
                0 <= pos <= r@.len(),
                forall|j: int| 0 <= j < pos ==> time_le(#[trigger] r@[j], x),
                r@ == spec_sort_by_time(prefix),
                time_sorted(r@),
            decreases r@.len() - pos,
        {
            pos = pos + 1;
        }
        proof {
            lemma_insert_pos_props(r@, x);
            let p = spec_insert_pos(r@, x);
            if pos < p {
                assert(time_le(r@[pos as int], x));
            }
            if p < pos {
                assert(!time_le(r@[p], x));
                assert(time_le(r@[p], x));
            }
            assert(pos == p);
        }
        r.insert(pos, x);
        proof {
            lemma_insert_sorted_props(spec_sort_by_time(prefix), x);
            assert(v@.subrange(0, i + 1 as int) =~= prefix.push(v@[i as int]));
            assert(prefix.push(v@[i as int]).drop_last() =~= prefix);
        }
        i = i + 1;
    }
    proof {
        assert(v@.subrange(0, v@.len() as int) =~= v@);
        lemma_sort_by_time_props(v@);
        lemma_sort_by_time_contains(v@);
    }
    r
}

} // verus!
