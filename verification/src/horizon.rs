//! Upstream fee-data shapes and their conversion to fee samples.
//!
//! The upstream serves transaction records and fee statistics as
//! decimal strings and RFC 3339 timestamps. Conversion to `FeeDataPoint`
//! is verified; only the RFC 3339 parse itself is delegated to the
//! chrono crate behind a trusted wrapper.

use vstd::prelude::*;
use crate::errors::ProviderError;
use crate::parse::{parse_u64, spec_parse_u64};
use crate::types::{FeeDataPoint, MAX_TIME_MS};

verus! {

/// A transaction as the upstream's transaction endpoint reports it.
#[derive(Debug)]
pub struct HorizonTransaction {
    pub hash: String,
    pub successful: bool,
    pub fee_charged: String,
}

/// An operation as the upstream's operations endpoint reports it.
#[derive(Debug)]
pub struct HorizonOperation {
    pub op_type: String,
    pub from: Option<String>,
    pub to: Option<String>,
    pub asset_type: Option<String>,
    pub asset_code: Option<String>,
    pub asset_issuer: Option<String>,
    pub amount: Option<String>,
}

/// Fee percentiles as the upstream's fee-stats endpoint reports them.
#[derive(Debug)]
pub struct FeeCharged {
    pub min: String,
    pub max: String,
    pub avg: String,
    pub p10: String,
    pub p25: String,
    pub p50: String,
    pub p75: String,
    pub p90: String,
    pub p95: String,
}

impl Clone for FeeCharged {
    fn clone(&self) -> (r: Self)
        ensures
            r == *self,
    {
        FeeCharged {
            min: self.min.clone(),
            max: self.max.clone(),
            avg: self.avg.clone(),
            p10: self.p10.clone(),
            p25: self.p25.clone(),
            p50: self.p50.clone(),
            p75: self.p75.clone(),
            p90: self.p90.clone(),
            p95: self.p95.clone(),
        }
    }
}

/// Fee statistics as the upstream's fee-stats endpoint reports them.
#[derive(Debug)]
pub struct HorizonFeeStats {
    pub last_ledger_base_fee: String,
    pub fee_charged: FeeCharged,
}

impl Clone for HorizonFeeStats {
    fn clone(&self) -> (r: Self)
        ensures
            r == *self,
    {
        HorizonFeeStats {
            last_ledger_base_fee: self.last_ledger_base_fee.clone(),
            fee_charged: self.fee_charged.clone(),
        }
    }
}

/// One record of the upstream's recent-transactions endpoint.
#[derive(Debug)]
pub struct HorizonTransactionRecord {
    pub hash: String,
    pub ledger: u64,
    pub created_at: String,
    pub fee_charged: String,
    pub successful: bool,
}

/// The instant, in milliseconds since the Unix epoch, that an
/// RFC 3339 timestamp string denotes; nothing when the string is not a
/// valid RFC 3339 timestamp. The result depends on the characters
/// alone.
pub uninterp spec fn rfc3339_timestamp_millis(s: Seq<char>) -> Option<i64>;

/// Relies on chrono's `DateTime::parse_from_rfc3339` to parse an
/// RFC 3339 timestamp, converted to epoch milliseconds with
/// `DateTime::timestamp_millis`. Both are pure functions of the
/// input string.
#[verifier::external_body]
fn parse_rfc3339_millis(s: &str) -> (r: Option<i64>)
    ensures
        r == rfc3339_timestamp_millis(s@),
{
    chrono::DateTime::parse_from_rfc3339(s).ok().map(|d| d.timestamp_millis())
}

/// Whether a record converts to a fee sample: it must be successful,
/// carry a parseable positive fee, and carry an RFC 3339 timestamp
/// inside the supported time model.
pub open spec fn record_convertible(r: HorizonTransactionRecord) -> bool {
    &&& r.successful
    &&& spec_parse_u64(r.fee_charged@) is Some
    &&& rfc3339_timestamp_millis(r.created_at@) matches Some(t) && 0 <= t <= MAX_TIME_MS
}

/// Convert one upstream transaction record to a fee sample.
///
/// Unsuccessful transactions, unparseable fees, and timestamps that
/// are invalid or outside the supported time model are rejected as
/// format errors.
pub fn convert_to_fee_data_point(record: HorizonTransactionRecord) -> (r: Result<
    FeeDataPoint,
    ProviderError,
>)
    ensures
        match r {
            Ok(p) => {
                &&& record_convertible(record)
                &&& p.fee_amount == spec_parse_u64(record.fee_charged@)->0
                &&& Some(p.timestamp_ms) == rfc3339_timestamp_millis(record.created_at@)
                &&& 0 <= p.timestamp_ms <= MAX_TIME_MS
                &&& p.transaction_hash == record.hash
                &&& p.ledger_sequence == record.ledger
            },
            Err(e) => {
                &&& !record_convertible(record)
                &&& e is FormatError
            },
        },
{
    if !record.successful {
        return Err(
            ProviderError::FormatError { message: "Transaction was not successful".to_owned() },
        );
    }
    let fee_amount = match parse_u64(record.fee_charged.as_str()) {
        Some(v) => v,
        None => {
            return Err(ProviderError::FormatError { message: "Invalid fee amount".to_owned() });
        },
    };
    let timestamp_ms = match parse_rfc3339_millis(record.created_at.as_str()) {
        Some(t) => t,
        None => {
            return Err(ProviderError::FormatError { message: "Invalid timestamp".to_owned() });
        },
    };
    if timestamp_ms < 0 || timestamp_ms > MAX_TIME_MS {
        return Err(
            ProviderError::FormatError { message: "Timestamp outside supported range".to_owned() },
        );
    }
    Ok(
        FeeDataPoint {
            fee_amount,
            timestamp_ms,
            transaction_hash: record.hash,
            ledger_sequence: record.ledger,
        },
    )
}

/// The fee sample a convertible record denotes.
pub open spec fn spec_point_of(r: HorizonTransactionRecord) -> FeeDataPoint
    recommends
        record_convertible(r),
{
    FeeDataPoint {
        fee_amount: spec_parse_u64(r.fee_charged@)->0,
        timestamp_ms: rfc3339_timestamp_millis(r.created_at@)->0,
        transaction_hash: r.hash,
        ledger_sequence: r.ledger,
    }
}

/// The fee samples of the convertible records of a batch, in order.
pub open spec fn spec_convert_list(rs: Seq<HorizonTransactionRecord>) -> Seq<FeeDataPoint>
    decreases rs.len(),
{
    if rs.len() == 0 {
        Seq::empty()
    } else {
        let prev = spec_convert_list(rs.drop_last());
        if record_convertible(rs.last()) {
            prev.push(spec_point_of(rs.last()))
        } else {
            prev
        }
    }
}

/// Convert a batch of upstream records, skipping records that do not
/// convert; fails with a format error when no record converts.
pub fn convert_records(records: Vec<HorizonTransactionRecord>) -> (r: Result<
    Vec<FeeDataPoint>,
    ProviderError,
>)
    ensures
        match r {
            Ok(points) => {
                &&& points@ == spec_convert_list(records@)
                &&& points@.len() >= 1
            },
            Err(e) => {
                &&& e is FormatError
                &&& spec_convert_list(records@).len() == 0
            },
        },
{
    let mut points: Vec<FeeDataPoint> = Vec::new();
    let mut i: usize = 0;
    proof {
        assert(records@.subrange(0, 0) =~= Seq::<HorizonTransactionRecord>::empty());
    }
    while i < records.len()
        invariant
            0 <= i <= records@.len(),
            points@ == spec_convert_list(records@.subrange(0, i as int)),
        decreases records@.len() - i,
    {
        let ghost prefix = records@.subrange(0, i as int);
        let record = HorizonTransactionRecord {
            hash: records[i].hash.clone(),
            ledger: records[i].ledger,
            created_at: records[i].created_at.clone(),
            fee_charged: records[i].fee_charged.clone(),
            successful: records[i].successful,
        };
        proof {
            assert(record == records@[i as int]);
            assert(records@.subrange(0, i + 1 as int) =~= prefix.push(records@[i as int]));
            assert(records@.subrange(0, i + 1 as int).drop_last() =~= prefix);
        }
        match convert_to_fee_data_point(record) {
            Ok(p) => {
                proof {
                    assert(p == spec_point_of(records@[i as int]));
                }
                points.push(p);
            },
            Err(_) => {},
        }
        i = i + 1;
    }
    proof {
        assert(records@.subrange(0, records@.len() as int) =~= records@);
    }
    if points.len() == 0 {
        return Err(
            ProviderError::FormatError {
                message: "No valid fee data points found in recent transactions".to_owned(),
            },
        );
    }
    Ok(points)
}

/// Provider metadata describing a fee-data source.
#[derive(Debug, Clone, Copy, PartialEq, Eq, Structural)]
pub struct ProviderMetadata {
    pub supports_historical: bool,
    pub max_batch_size: usize,
    pub rate_limit_per_minute: Option<u32>,
    pub data_freshness_seconds: u32,
}

impl Default for ProviderMetadata {
    /// The default: no historical support, batches of one hundred,
    /// no rate limit known, data fresh within a minute.
    fn default() -> (r: Self)
        ensures
            !r.supports_historical,
            r.max_batch_size == 100,
            r.rate_limit_per_minute is None,
            r.data_freshness_seconds == 60,
    {
        ProviderMetadata {
            supports_historical: false,
            max_batch_size: 100,
            rate_limit_per_minute: None,
            data_freshness_seconds: 60,
        }
    }
}

} // verus!
