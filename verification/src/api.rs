//! Read-API computations: caching validators, window parsing, history
//! summaries, and trend responses.
//!
//! The surrounding application owns routing, headers, and
//! serialization; the values those carry are computed here.

use std::collections::hash_map::DefaultHasher;
use std::hash::Hasher;
use vstd::prelude::*;
use vstd::std_specs::hash::DefaultHasherAdditionalSpecFns;
use crate::calculator::spec_fee_sum;
use crate::config::{first_comma, spec_trim, trim_exec};
use crate::horizon::HorizonFeeStats;
use crate::ratio::Ratio;
use crate::repository::AlertEvent;
use crate::types::{
    trend_indicator_to_string, trend_strength_to_string, AverageResult, CurrentInsights,
    FeeDataPoint,
};

verus! {

/// Lowercase hexadecimal digit for a value below sixteen.
pub open spec fn spec_hex_digit(d: int) -> char {
    if d == 0 {
        '0'
    } else if d == 1 {
        '1'
    } else if d == 2 {
        '2'
    } else if d == 3 {
        '3'
    } else if d == 4 {
        '4'
    } else if d == 5 {
        '5'
    } else if d == 6 {
        '6'
    } else if d == 7 {
        '7'
    } else if d == 8 {
        '8'
    } else if d == 9 {
        '9'
    } else if d == 10 {
        'a'
    } else if d == 11 {
        'b'
    } else if d == 12 {
        'c'
    } else if d == 13 {
        'd'
    } else if d == 14 {
        'e'
    } else {
        'f'
    }
}

/// Lowercase hexadecimal digits of `n`, most significant first, with
/// no leading zeros (a single zero digit for zero).
pub open spec fn spec_hex(n: int) -> Seq<char>
    recommends
        n >= 0,
    decreases n,
{
    if n < 16 {
        seq![spec_hex_digit(n)]
    } else {
        spec_hex(n / 16).push(spec_hex_digit(n % 16))
    }
}

/// The quoted entity tag for a response body: a hash of its bytes,
/// written in lowercase hexadecimal between double quotes.
pub open spec fn spec_etag(body: Seq<u8>) -> Seq<char> {
    seq!['"'] + spec_hex(DefaultHasher::spec_finish(seq![body]) as int) + seq!['"']
}

/// Append the hexadecimal digits of `n` to `s`.
fn push_hex(s: &mut String, n: u64)
    ensures
        final(s)@ == old(s)@ + spec_hex(n as int),
    decreases n,
{
    if n >= 16 {
        push_hex(s, n / 16);
    }
    let d = n % 16;
    proof {
        reveal_strlit("0");
        reveal_strlit("1");
        reveal_strlit("2");
        reveal_strlit("3");
        reveal_strlit("4");
        reveal_strlit("5");
        reveal_strlit("6");
        reveal_strlit("7");
        reveal_strlit("8");
        reveal_strlit("9");
        reveal_strlit("a");
        reveal_strlit("b");
        reveal_strlit("c");
        reveal_strlit("d");
        reveal_strlit("e");
        reveal_strlit("f");
    }
    if d == 0 {
        s.append("0");
    } else if d == 1 {
        s.append("1");
    } else if d == 2 {
        s.append("2");
    } else if d == 3 {
        s.append("3");
    } else if d == 4 {
        s.append("4");
    } else if d == 5 {
        s.append("5");
    } else if d == 6 {
        s.append("6");
    } else if d == 7 {
        s.append("7");
    } else if d == 8 {
        s.append("8");
    } else if d == 9 {
        s.append("9");
    } else if d == 10 {
        s.append("a");
    } else if d == 11 {
        s.append("b");
    } else if d == 12 {
        s.append("c");
    } else if d == 13 {
        s.append("d");
    } else if d == 14 {
        s.append("e");
    } else {
        s.append("f");
    }
    proof {
        assert(s@ =~= old(s)@ + spec_hex(n as int));
    }
}

/// Compute a stable quoted entity tag from response bytes, by hashing
/// them and writing the hash in lowercase hexadecimal between double
/// quotes.
pub fn compute_etag(body: &[u8]) -> (r: String)
    ensures
        r@ == spec_etag(body@),
        r@.len() >= 3,
        r@[0] == '"',
        r@[r@.len() - 1] == '"',
{
    let mut hasher = DefaultHasher::new();
    hasher.write(body);
    let h = hasher.finish();
    let mut out: String = "\"".to_owned();
    proof {
        reveal_strlit("\"");
    }
    push_hex(&mut out, h);
    out.append("\"");
    proof {
        assert(out@ =~= spec_etag(body@));
        lemma_spec_hex_len(h as int);
    }
    out
}

/// The hexadecimal expansion is never empty.
proof fn lemma_spec_hex_len(n: int)
    requires
        n >= 0,
    ensures
        spec_hex(n).len() >= 1,
    decreases n,
{
    if n >= 16 {
        lemma_spec_hex_len(n / 16);
    }
}

/// Whether an If-None-Match header value matches the current entity
/// tag: any comma-separated element, once trimmed, is `*` or exactly
/// the tag.
pub open spec fn spec_none_match(h: Seq<char>, etag: Seq<char>) -> bool
    decreases h.len(),
{
    let fc = first_comma(h);
    let i = if 0 <= fc < h.len() {
        fc
    } else {
        h.len() as int
    };
    let tok = spec_trim(h.subrange(0, i));
    ||| tok == "*"@
    ||| tok == etag
    ||| (i < h.len() && spec_none_match(h.subrange(i + 1, h.len() as int), etag))
}

/// Whether the request's If-None-Match value (when present) matches
/// the current entity tag.
pub fn if_none_match_matches(header: Option<&str>, current_etag: &str) -> (r: bool)
    ensures
        r == (match header {
            Some(h) => spec_none_match(h@, current_etag@),
            None => false,
        }),
{
    let h = match header {
        Some(h) => h,
        None => {
            return false;
        },
    };
    let star: String = "*".to_owned();
    let etag: String = current_etag.to_owned();
    let mut rest: String = h.to_owned();
    let mut matched: bool = false;
    loop
        invariant_except_break
            star@ == "*"@,
            etag@ == current_etag@,
            spec_none_match(rest@, current_etag@) == spec_none_match(h@, current_etag@),
        ensures
            matched == spec_none_match(h@, current_etag@),
        decreases rest@.len(),
    {
        let ghost pre = rest@;
        let n = rest.as_str().unicode_len();
        let mut i: usize = 0;
        while i < n && !comma_at(rest.as_str(), i)
            invariant
                0 <= i <= n,
                n == rest@.len(),
                forall|j: int| 0 <= j < i ==> #[trigger] rest@[j] != ',',
            decreases n - i,
        {
            i = i + 1;
        }
        proof {
            crate::config::lemma_first_comma_props(pre);
            let p = first_comma(pre);
            if (i as int) < p {
                assert(pre[i as int] != ',');
            }
            if p < i as int {
                assert(pre[p] != ',');
            }
            assert(i as int == p);
        }
        let token = trim_exec(rest.as_str().substring_char(0, i));
        let ghost clamped: int = if 0 <= first_comma(pre) < pre.len() {
            first_comma(pre)
        } else {
            pre.len() as int
        };
        proof {
            assert(clamped == i as int);
            assert(token@ == spec_trim(pre.subrange(0, i as int)));
        }
        if token.eq(&star) || token.eq(&etag) {
            proof {
                assert(spec_none_match(pre, current_etag@));
            }
            matched = true;
            break;
        }
        if i == n {
            proof {
                assert(!spec_none_match(pre, current_etag@));
            }
            matched = false;
            break;
        }
        let next = String::from_str(rest.as_str().substring_char(i + 1, n));
        rest = next;
        proof {
            assert(rest@ =~= pre.subrange(i + 1, pre.len() as int));
            assert(spec_none_match(pre, current_etag@) == spec_none_match(
                rest@,
                current_etag@,
            ));
        }
    }
    matched
}

/// Whether the character at `i` is a comma.
fn comma_at(s: &str, i: usize) -> (r: bool)
    requires
        i < s@.len(),
    ensures
        r == (s@[i as int] == ','),
{
    s.get_char(i) == ','
}

/// Duration of a named history window: 1h, 6h, or 24h.
pub fn parse_window(value: &str) -> (r: Option<i64>)
    ensures
        value@ == "1h"@ ==> r == Some(3_600_000i64),
        value@ == "6h"@ ==> r == Some(21_600_000i64),
        value@ == "24h"@ ==> r == Some(86_400_000i64),
        r is None ==> value@ != "1h"@ && value@ != "6h"@ && value@ != "24h"@,
        r is Some ==> value@ == "1h"@ || value@ == "6h"@ || value@ == "24h"@,
{
    proof {
        reveal_strlit("1h");
        reveal_strlit("6h");
        reveal_strlit("24h");
        assert("1h"@.len() == 2 && "6h"@.len() == 2 && "24h"@.len() == 3);
        assert("1h"@[0] == '1' && "6h"@[0] == '6');
        assert("1h"@ != "6h"@ && "1h"@ != "24h"@ && "6h"@ != "24h"@);
    }
    let v = value.to_owned();
    if v.eq(&"1h".to_owned()) {
        Some(3_600_000)
    } else if v.eq(&"6h".to_owned()) {
        Some(21_600_000)
    } else if v.eq(&"24h".to_owned()) {
        Some(86_400_000)
    } else {
        None
    }
}

/// Fee values in ascending order.
pub open spec fn u64_sorted(s: Seq<u64>) -> bool {
    forall|i: int, j: int| 0 <= i < j < s.len() ==> #[trigger] s[i] <= #[trigger] s[j]
}

/// Position at which `x` is inserted into the ascending sequence.
pub open spec fn u64_insert_pos(s: Seq<u64>, x: u64) -> int
    decreases s.len(),
{
    if s.len() == 0 {
        0
    } else if s[0] <= x {
        1 + u64_insert_pos(s.drop_first(), x)
    } else {
        0
    }
}

/// The ascending sequence of the input values, built by ordered
/// insertion.
pub open spec fn spec_sort_u64(s: Seq<u64>) -> Seq<u64>
    decreases s.len(),
{
    if s.len() == 0 {
        Seq::empty()
    } else {
        spec_sort_u64(s.drop_last()).insert(
            u64_insert_pos(spec_sort_u64(s.drop_last()), s.last()),
            s.last(),
        )
    }
}

/// The insertion position splits the sequence at `x`.
proof fn lemma_u64_insert_pos_props(s: Seq<u64>, x: u64)
    ensures
        0 <= u64_insert_pos(s, x) <= s.len(),
        forall|j: int| 0 <= j < u64_insert_pos(s, x) ==> #[trigger] s[j] <= x,
        u64_insert_pos(s, x) < s.len() ==> s[u64_insert_pos(s, x)] > x,
    decreases s.len(),
{
    if s.len() > 0 && s[0] <= x {
        lemma_u64_insert_pos_props(s.drop_first(), x);
        let p = u64_insert_pos(s, x);
        assert forall|j: int| 0 <= j < p implies #[trigger] s[j] <= x by {
            if j > 0 {
                assert(s.drop_first()[j - 1] == s[j]);
            }
        }
        if p < s.len() {
            assert(s.drop_first()[p - 1] == s[p]);
        }
    }
}

/// Ordered insertion keeps the sequence ascending.
proof fn lemma_u64_insert_sorted(s: Seq<u64>, x: u64)
    requires
        u64_sorted(s),
    ensures
        u64_sorted(s.insert(u64_insert_pos(s, x), x)),
        s.insert(u64_insert_pos(s, x), x).len() == s.len() + 1,
{
    lemma_u64_insert_pos_props(s, x);
    let p = u64_insert_pos(s, x);
    let t = s.insert(p, x);
    s.insert_ensures(p, x);
    assert forall|i: int, j: int| 0 <= i < j < t.len() implies #[trigger] t[i]
        <= #[trigger] t[j] by {
        if i < p && j < p {
            assert(t[i] == s[i] && t[j] == s[j]);
        } else if i < p && j == p {
            assert(t[i] == s[i] && t[j] == x);
        } else if i < p && j > p {
            assert(t[i] == s[i] && t[j] == s[j - 1]);
        } else if i == p && j > p {
            assert(t[i] == x && t[j] == s[j - 1]);
        } else {
            assert(t[i] == s[i - 1] && t[j] == s[j - 1]);
        }
    }
}

/// Sort fee values ascending by insertion.
fn sort_u64(v: &Vec<u64>) -> (r: Vec<u64>)
    ensures
        r@ == spec_sort_u64(v@),
        u64_sorted(r@),
        r@.len() == v@.len(),
{
    let mut r: Vec<u64> = Vec::new();
    let mut i: usize = 0;
    proof {
        assert(v@.subrange(0, 0) =~= Seq::<u64>::empty());
    }
    while i < v.len()
        invariant
            0 <= i <= v@.len(),
            r@ == spec_sort_u64(v@.subrange(0, i as int)),
            u64_sorted(r@),
            r@.len() == i,
        decreases v@.len() - i,
    {
        let ghost prefix = v@.subrange(0, i as int);
        let x = v[i];
        let mut pos: usize = 0;
        while pos < r.len() && r[pos] <= x
            invariant
                0 <= pos <= r@.len(),
                forall|j: int| 0 <= j < pos ==> #[trigger] r@[j] <= x,
                r@ == spec_sort_u64(prefix),
                u64_sorted(r@),
            decreases r@.len() - pos,
        {
            pos = pos + 1;
        }
        proof {
            lemma_u64_insert_pos_props(r@, x);
            let p = u64_insert_pos(r@, x);
            if pos < p {
                assert(r@[pos as int] <= x);
            }
            if p < pos {
                assert(r@[p] > x);
                assert(r@[p] <= x);
            }
            assert(pos == p);
        }
        r.insert(pos, x);
        proof {
            lemma_u64_insert_sorted(spec_sort_u64(prefix), x);
            assert(v@.subrange(0, i + 1 as int) =~= prefix.push(v@[i as int]));
            assert(prefix.push(v@[i as int]).drop_last() =~= prefix);
        }
        i = i + 1;
    }
    proof {
        assert(v@.subrange(0, v@.len() as int) =~= v@);
    }
    r
}

/// The nearest-rank percentile of ascending values: the value at rank
/// `ceil(percentile * n / 100)`, at least the first; zero for no
/// values.
pub open spec fn spec_percentile(sorted: Seq<u64>, percentile: int) -> u64 {
    if sorted.len() == 0 {
        0u64
    } else {
        let rank_raw = (percentile * sorted.len() + 99) / 100;
        let rank = if rank_raw < 1 {
            1int
        } else {
            rank_raw
        };
        sorted[rank - 1]
    }
}

/// The nearest-rank percentile of ascending fee values.
pub fn percentile_nearest_rank(sorted: &Vec<u64>, percentile: usize) -> (r: u64)
    requires
        percentile <= 100,
    ensures
        r == spec_percentile(sorted@, percentile as int),
        sorted@.len() > 0 && percentile >= 1 ==> exists|i: int|
            0 <= i < sorted@.len() && sorted@[i] == r,
{
    if sorted.len() == 0 {
        return 0;
    }
    let n = sorted.len();
    proof {
        assert((percentile as int) * (n as int) <= 100 * 0xffff_ffff_ffff_ffffu64)
            by (nonlinear_arith)
            requires
                0 <= percentile <= 100,
                0 <= n <= 0xffff_ffff_ffff_ffffu64,
        ;
        assert((percentile as int) * (n as int) >= 0) by (nonlinear_arith)
            requires
                percentile >= 0,
                n >= 0,
        ;
    }
    let rank_raw: u128 = ((percentile as u128) * (n as u128) + 99) / 100;
    let rank128: u128 = if rank_raw < 1 {
        1
    } else {
        rank_raw
    };
    proof {
        assert(1 <= rank128 && rank128 <= n) by (nonlinear_arith)
            requires
                rank128 == if ((percentile as int) * (n as int) + 99) / 100 < 1 {
                    1int
                } else {
                    ((percentile as int) * (n as int) + 99) / 100
                },
                1 <= n,
                0 <= percentile <= 100,
        ;
    }
    let rank: usize = rank128 as usize;
    sorted[rank - 1]
}

/// Summary statistics over a history window.
#[derive(Clone, Copy, Debug)]
pub struct FeeSummary {
    pub min: u64,
    pub max: u64,
    /// The exact mean fee.
    pub avg: Ratio,
    pub p50: u64,
    pub p95: u64,
}

/// Summary statistics over the fees of a sample batch: minimum,
/// maximum, exact mean, median, and 95th percentile by nearest rank.
/// All zero for an empty batch; `None` exactly when the sample count
/// or the fee total exceeds what the exact mean representation
/// carries.
pub fn compute_summary(fees: &Vec<FeeDataPoint>) -> (r: Option<FeeSummary>)
    ensures
        (match r {
            Some(s) => {
                if fees@.len() == 0 {
                    &&& s.min == 0 && s.max == 0 && s.p50 == 0 && s.p95 == 0
                    &&& s.avg == (Ratio { num: 0, den: 1 })
                } else {
                    let values = Seq::new(fees@.len(), |i: int| fees@[i].fee_amount);
                    let sorted = spec_sort_u64(values);
                    &&& s.min == sorted[0]
                    &&& s.max == sorted[sorted.len() - 1]
                    &&& s.avg.num == spec_fee_sum(fees@)
                    &&& s.avg.den == fees@.len()
                    &&& s.p50 == spec_percentile(sorted, 50)
                    &&& s.p95 == spec_percentile(sorted, 95)
                }
            },
            None => fees@.len() > 1_000_000_000 || spec_fee_sum(fees@)
                > 1_000_000_000_000_000_000,
        }),
{
    if fees.len() == 0 {
        return Some(
            FeeSummary { min: 0, max: 0, avg: Ratio { num: 0, den: 1 }, p50: 0, p95: 0 },
        );
    }
    if fees.len() > 1_000_000_000 {
        return None;
    }
    let mut values: Vec<u64> = Vec::new();
    let mut sum: u128 = 0;
    let mut i: usize = 0;
    proof {
        assert(fees@.subrange(0, 0) =~= Seq::<FeeDataPoint>::empty());
    }
    while i < fees.len()
        invariant
            0 <= i <= fees@.len(),
            values@.len() == i,
            forall|k: int| 0 <= k < i ==> #[trigger] values@[k] == fees@[k].fee_amount,
            sum as int == spec_fee_sum(fees@.subrange(0, i as int)),
            sum <= (i as int) * 0xffff_ffff_ffff_ffff,
        decreases fees@.len() - i,
    {
        proof {
            assert(fees@.subrange(0, i + 1 as int).drop_last() =~= fees@.subrange(0, i as int));
        }
        values.push(fees[i].fee_amount);
        sum = sum + fees[i].fee_amount as u128;
        i = i + 1;
    }
    proof {
        assert(fees@.subrange(0, fees@.len() as int) =~= fees@);
    }
    if sum > 1_000_000_000_000_000_000u128 {
        return None;
    }
    let sorted = sort_u64(&values);
    proof {
        assert(values@ =~= Seq::new(fees@.len(), |k: int| fees@[k].fee_amount));
    }
    let min = sorted[0];
    let max = sorted[sorted.len() - 1];
    let p50 = percentile_nearest_rank(&sorted, 50);
    let p95 = percentile_nearest_rank(&sorted, 95);
    let avg = Ratio { num: sum as i64, den: values.len() as u64 };
    Some(FeeSummary { min, max, avg, p50, p95 })
}

/// Percentile fee strings as served by the current-fees endpoint.
#[derive(Debug)]
pub struct PercentileFees {
    pub p10: String,
    pub p25: String,
    pub p50: String,
    pub p75: String,
    pub p90: String,
    pub p95: String,
}

/// The current-fees endpoint response.
#[derive(Debug)]
pub struct CurrentFeeResponse {
    pub base_fee: String,
    pub min_fee: String,
    pub max_fee: String,
    pub avg_fee: String,
    pub percentiles: PercentileFees,
}

impl Clone for CurrentFeeResponse {
    fn clone(&self) -> (r: Self)
        ensures
            r.base_fee@ == self.base_fee@,
            r.min_fee@ == self.min_fee@,
            r.max_fee@ == self.max_fee@,
            r.avg_fee@ == self.avg_fee@,
            r.percentiles.p10@ == self.percentiles.p10@,
            r.percentiles.p25@ == self.percentiles.p25@,
            r.percentiles.p50@ == self.percentiles.p50@,
            r.percentiles.p75@ == self.percentiles.p75@,
            r.percentiles.p90@ == self.percentiles.p90@,
            r.percentiles.p95@ == self.percentiles.p95@,
    {
        CurrentFeeResponse {
            base_fee: self.base_fee.clone(),
            min_fee: self.min_fee.clone(),
            max_fee: self.max_fee.clone(),
            avg_fee: self.avg_fee.clone(),
            percentiles: PercentileFees {
                p10: self.percentiles.p10.clone(),
                p25: self.percentiles.p25.clone(),
                p50: self.percentiles.p50.clone(),
                p75: self.percentiles.p75.clone(),
                p90: self.percentiles.p90.clone(),
                p95: self.percentiles.p95.clone(),
            },
        }
    }
}

/// Map upstream fee statistics into the current-fees response shape.
pub fn current_fee_response_of(stats: HorizonFeeStats) -> (r: CurrentFeeResponse)
    ensures
        r.base_fee@ == stats.last_ledger_base_fee@,
        r.min_fee@ == stats.fee_charged.min@,
        r.max_fee@ == stats.fee_charged.max@,
        r.avg_fee@ == stats.fee_charged.avg@,
        r.percentiles.p10@ == stats.fee_charged.p10@,
        r.percentiles.p25@ == stats.fee_charged.p25@,
        r.percentiles.p50@ == stats.fee_charged.p50@,
        r.percentiles.p75@ == stats.fee_charged.p75@,
        r.percentiles.p90@ == stats.fee_charged.p90@,
        r.percentiles.p95@ == stats.fee_charged.p95@,
{
    CurrentFeeResponse {
        base_fee: stats.last_ledger_base_fee,
        min_fee: stats.fee_charged.min,
        max_fee: stats.fee_charged.max,
        avg_fee: stats.fee_charged.avg,
        percentiles: PercentileFees {
            p10: stats.fee_charged.p10,
            p25: stats.fee_charged.p25,
            p50: stats.fee_charged.p50,
            p75: stats.fee_charged.p75,
            p90: stats.fee_charged.p90,
            p95: stats.fee_charged.p95,
        },
    }
}

/// Query parameters of the fee-history endpoint.
#[derive(Debug)]
pub struct FeeHistoryQuery {
    pub window: Option<String>,
}

/// The fee-history endpoint response.
#[derive(Debug)]
pub struct FeeHistoryResponse {
    pub window: String,
    pub from_ms: i64,
    pub to_ms: i64,
    pub data_points: usize,
    pub fees: Vec<FeeDataPoint>,
    pub summary: FeeSummary,
}

/// An exact percentage: `num / den` percent.
#[derive(Clone, Copy, Debug)]
pub struct PercentChange {
    pub num: i128,
    pub den: u128,
}

/// Percentage change of the current average relative to a window
/// average: `100 * (current - window) / window`, exactly; none while
/// the window is partial or non-positive.
pub fn percent_change(current_avg: &Ratio, window_avg: &AverageResult) -> (r: Option<
    PercentChange,
>)
    requires
        current_avg.wf(),
        window_avg.value.wf(),
        current_avg.den <= 1_000_000_000,
        window_avg.value.den <= 1_000_000_000,
    ensures
        (match r {
            Some(pc) => {
                &&& !window_avg.is_partial
                &&& window_avg.value.num > 0
                &&& pc.num == 100 * ((current_avg.num as int) * (window_avg.value.den as int)
                    - (window_avg.value.num as int) * (current_avg.den as int))
                &&& pc.den == (current_avg.den as int) * (window_avg.value.num as int)
            },
            None => window_avg.is_partial || window_avg.value.num <= 0,
        }),
{
    if window_avg.is_partial || window_avg.value.num <= 0 {
        return None;
    }
    proof {
        assert({
            let a = (current_avg.num as int) * (window_avg.value.den as int);
            let b = (window_avg.value.num as int) * (current_avg.den as int);
            -1_000_000_000_000_000_000_000_000_000 <= a <= 1_000_000_000_000_000_000_000_000_000
                && 0 <= b <= 1_000_000_000_000_000_000_000_000_000
        }) by (nonlinear_arith)
            requires
                -1_000_000_000_000_000_000 <= current_avg.num <= 1_000_000_000_000_000_000,
                1 <= window_avg.value.den <= 1_000_000_000,
                0 <= window_avg.value.num <= 1_000_000_000_000_000_000,
                1 <= current_avg.den <= 1_000_000_000,
        ;
    }
    let a: i128 = (current_avg.num as i128) * (window_avg.value.den as i128);
    let b: i128 = (window_avg.value.num as i128) * (current_avg.den as i128);
    let num: i128 = 100 * (a - b);
    let den: u128 = (current_avg.den as u128) * (window_avg.value.num as u128);
    Some(PercentChange { num, den })
}

/// Percentage changes of the current average against each window.
#[derive(Clone, Copy, Debug)]
pub struct TrendChanges {
    pub one_h_pct: Option<PercentChange>,
    pub six_h_pct: Option<PercentChange>,
    pub twenty_four_h_pct: Option<PercentChange>,
}

/// The fee-trend endpoint response.
#[derive(Debug)]
pub struct FeeTrendResponse {
    pub status: String,
    pub trend_strength: String,
    pub changes: TrendChanges,
    pub recent_spike_count: usize,
    pub predicted_congestion_minutes: Option<i64>,
    pub last_updated_ms: i64,
}

/// Assemble the fee-trend response from an insights snapshot: the
/// trend and strength as text, percentage changes of the short-term
/// average against each window (absent while a window is partial or
/// empty), the recent spike count, and the predicted congestion
/// duration.
pub fn fee_trend_response(insights: &CurrentInsights) -> (r: FeeTrendResponse)
    requires
        insights.rolling_averages.short_term.value.wf(),
        insights.rolling_averages.medium_term.value.wf(),
        insights.rolling_averages.long_term.value.wf(),
        insights.rolling_averages.short_term.value.den <= 1_000_000_000,
        insights.rolling_averages.medium_term.value.den <= 1_000_000_000,
        insights.rolling_averages.long_term.value.den <= 1_000_000_000,
    ensures
        (insights.congestion_trends.current_trend is Normal ==> r.status@ == "Normal"@),
        (insights.congestion_trends.current_trend is Rising ==> r.status@ == "Rising"@),
        (insights.congestion_trends.current_trend is Congested ==> r.status@ == "Congested"@),
        (insights.congestion_trends.current_trend is Declining ==> r.status@ == "Declining"@),
        (insights.congestion_trends.trend_strength is Weak ==> r.trend_strength@ == "Weak"@),
        (insights.congestion_trends.trend_strength is Moderate ==> r.trend_strength@
            == "Moderate"@),
        (insights.congestion_trends.trend_strength is Strong ==> r.trend_strength@ == "Strong"@),
        r.recent_spike_count == insights.congestion_trends.recent_spikes@.len(),
        r.predicted_congestion_minutes == insights.congestion_trends.predicted_duration_min,
        r.last_updated_ms == insights.last_updated_ms,
        (r.changes.one_h_pct is None) == (insights.rolling_averages.short_term.is_partial
            || insights.rolling_averages.short_term.value.num <= 0),
        (r.changes.six_h_pct is None) == (insights.rolling_averages.medium_term.is_partial
            || insights.rolling_averages.medium_term.value.num <= 0),
        (r.changes.twenty_four_h_pct is None) == (insights.rolling_averages.long_term.is_partial
            || insights.rolling_averages.long_term.value.num <= 0),
{
    let current_avg = insights.rolling_averages.short_term.value;
    let changes = TrendChanges {
        one_h_pct: percent_change(&current_avg, &insights.rolling_averages.short_term),
        six_h_pct: percent_change(&current_avg, &insights.rolling_averages.medium_term),
        twenty_four_h_pct: percent_change(&current_avg, &insights.rolling_averages.long_term),
    };
    FeeTrendResponse {
        status: trend_indicator_to_string(&insights.congestion_trends.current_trend),
        trend_strength: trend_strength_to_string(&insights.congestion_trends.trend_strength),
        changes,
        recent_spike_count: insights.congestion_trends.recent_spikes.len(),
        predicted_congestion_minutes: insights.congestion_trends.predicted_duration_min,
        last_updated_ms: insights.last_updated_ms,
    }
}

/// Request body for creating an alert configuration.
#[derive(Debug)]
pub struct CreateAlertRequest {
    pub webhook_url: String,
    pub threshold: Option<String>,
}

/// Request body for updating an alert configuration.
#[derive(Debug)]
pub struct UpdateAlertRequest {
    pub threshold: Option<String>,
    pub enabled: Option<bool>,
}

/// Response body for a created alert configuration.
#[derive(Clone, Copy, Debug)]
pub struct CreateAlertResponse {
    pub id: i64,
}

/// Query parameters of the alert-history endpoint.
#[derive(Debug)]
pub struct AlertHistoryQuery {
    pub limit: Option<i64>,
    pub severity: Option<String>,
    pub delivered: Option<bool>,
}

/// The alert-history endpoint response.
#[derive(Debug)]
pub struct AlertHistoryResponse {
    pub total: i64,
    pub items: Vec<AlertEvent>,
}

} // verus!
