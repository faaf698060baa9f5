//! Per-client rate limits: each client's token-bucket quota, and what a
//! refused request is told. `governor` keeps the buckets.

use vstd::prelude::*;
use crate::config::{ClientRateLimitOverride, RateLimitConfig};
use crate::http::{header_text, Headers};
use crate::strmap::{key_lookup, StrMap};

verus! {

/// The quota settings: a default and per-client overrides.
#[derive(Debug)]
pub struct RateLimitPolicy {
    pub default_rps: u32,
    pub default_burst: u32,
    pub overrides: StrMap<ClientRateLimitOverride>,
}

impl RateLimitPolicy {
    /// The policy of the configuration.
    pub fn new(cfg: &RateLimitConfig) -> (r: RateLimitPolicy)
        ensures
            r.default_rps == cfg.default_requests_per_sec,
            r.default_burst == cfg.default_burst,
            r.overrides@ == cfg.clients@,
    {
        let mut overrides: StrMap<ClientRateLimitOverride> = StrMap::new();
        let es = &cfg.clients.entries;
        let mut i: usize = 0;
        while i < es.len()
            invariant
                i <= es.len(),
                overrides@ == crate::strmap::entries_view(es@.take(i as int)),
            decreases es.len() - i,
        {
            let ghost before = overrides@;
            overrides.entries.push((es[i].0.clone(), es[i].1));
            assert(crate::strmap::entries_view(es@.take(i + 1)) =~= before.push((es@[i as int].0@, es@[i as int].1)));
            assert(overrides@ =~= before.push((es@[i as int].0@, es@[i as int].1)));
            i = i + 1;
        }
        assert(es@.take(es.len() as int) =~= es@);
        RateLimitPolicy {
            default_rps: cfg.default_requests_per_sec,
            default_burst: cfg.default_burst,
            overrides,
        }
    }

    /// The `(requests per second, burst)` of `client`'s bucket: its
    /// override, else the default, each at least 1.
    pub fn quota_for(&self, client: &str) -> (r: (u32, u32))
        ensures
            r == quota_spec(self.default_rps, self.default_burst, key_lookup(self.overrides@, client@)),
    {
        let (rps, burst) = match self.overrides.get(client) {
            Some(o) => (o.requests_per_sec, o.burst),
            None => (self.default_rps, self.default_burst),
        };
        (if rps < 1 {
            1
        } else {
            rps
        }, if burst < 1 {
            1
        } else {
            burst
        })
    }
}

pub open spec fn at_least_one(x: u32) -> u32 {
    if x < 1 {
        1
    } else {
        x
    }
}

pub open spec fn quota_spec(default_rps: u32, default_burst: u32, o: Option<ClientRateLimitOverride>) -> (u32, u32) {
    match o {
        Some(o) => (at_least_one(o.requests_per_sec), at_least_one(o.burst)),
        None => (at_least_one(default_rps), at_least_one(default_burst)),
    }
}

/// The client a request is counted against: its `apollographql-client-name`
/// header as sent, or `__anonymous__`.
pub fn rate_limit_client(headers: &Headers) -> (r: String)
    ensures
        r@ == match header_text(headers@, "apollographql-client-name"@) {
            Some(v) => v,
            None => "__anonymous__"@,
        },
{
    match headers.text("apollographql-client-name") {
        Some(v) => v.clone(),
        None => "__anonymous__".to_owned(),
    }
}

/// The `Retry-After` seconds for a refused request: the whole seconds until
/// the bucket allows it, at least 1.
pub fn retry_after_secs(wait_secs: u64) -> (r: u64)
    ensures
        r == if wait_secs < 1 {
            1
        } else {
            wait_secs
        },
{
    if wait_secs < 1 {
        1
    } else {
        wait_secs
    }
}

} // verus!
