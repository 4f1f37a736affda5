//! In-memory TTL cache for a single clonable response value.
//!
//! The current instant is handed in by the caller, in milliseconds on
//! an arbitrary monotonic scale, so freshness is deterministic.

use vstd::prelude::*;

verus! {

/// A cache holding at most one value, fresh for `ttl_ms` after it was
/// stored.
#[derive(Debug)]
pub struct ResponseCache<T> {
    value: Option<T>,
    cached_at_ms: Option<u64>,
    ttl_ms: u64,
}

impl<T> ResponseCache<T> {
    /// The cached value, if any.
    pub closed spec fn spec_value(self) -> Option<T> {
        self.value
    }

    /// When the value was stored, if one is stored.
    pub closed spec fn spec_cached_at(self) -> Option<u64> {
        self.cached_at_ms
    }

    /// The configured time-to-live.
    pub closed spec fn spec_ttl(self) -> u64 {
        self.ttl_ms
    }

    /// Whether a stored value is still fresh at `now`: it was stored
    /// no more than the time-to-live ago.
    pub open spec fn spec_is_fresh(self, now_ms: u64) -> bool {
        match (self.spec_value(), self.spec_cached_at()) {
            (Some(_), Some(at)) => at <= now_ms && now_ms - at <= self.spec_ttl(),
            _ => false,
        }
    }

    /// Create an empty cache with the given time-to-live.
    pub fn new(ttl_ms: u64) -> (r: Self)
        ensures
            r.spec_value() is None,
            r.spec_cached_at() is None,
            r.spec_ttl() == ttl_ms,
    {
        ResponseCache { value: None, cached_at_ms: None, ttl_ms }
    }

    /// Borrow the cached value only while it is still fresh at `now`.
    pub fn get(&self, now_ms: u64) -> (r: Option<&T>)
        ensures
            match r {
                Some(v) => self.spec_is_fresh(now_ms) && Some(*v) == self.spec_value(),
                None => !self.spec_is_fresh(now_ms),
            },
    {
        if self.is_fresh(now_ms) {
            match &self.value {
                Some(v) => Some(v),
                None => None,
            }
        } else {
            None
        }
    }

    /// Store a value at instant `now`.
    pub fn set(&mut self, value: T, now_ms: u64)
        ensures
            final(self).spec_value() == Some(value),
            final(self).spec_cached_at() == Some(now_ms),
            final(self).spec_ttl() == old(self).spec_ttl(),
    {
        self.value = Some(value);
        self.cached_at_ms = Some(now_ms);
    }

    /// Drop any cached value.
    pub fn invalidate(&mut self)
        ensures
            final(self).spec_value() is None,
            final(self).spec_cached_at() is None,
            final(self).spec_ttl() == old(self).spec_ttl(),
    {
        self.value = None;
        self.cached_at_ms = None;
    }

    /// Whether a stored value is still fresh at `now`.
    pub fn is_fresh(&self, now_ms: u64) -> (r: bool)
        ensures
            r == self.spec_is_fresh(now_ms),
    {
        match (&self.value, &self.cached_at_ms) {
            (Some(_), Some(at)) => {
                let at = *at;
                if now_ms >= at {
                    now_ms - at <= self.ttl_ms
                } else {
                    proof {
                        assert((now_ms - at) < 0);
                    }
                    false
                }
            },
            _ => false,
        }
    }
}

} // verus!
