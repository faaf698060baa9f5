//! The full-response cache: its keys, the lifetime of an entry, and when a
//! response may be stored. Redis holds the entries.

use vstd::prelude::*;
use crate::config::CacheConfig;
use crate::digest::{hex_encode, hex_of, sha256, sha256_bytes};
use crate::json::{json_text, to_json_text, Json, JsonV};
use crate::plan::types::{EntityFetch, ExecutionPlan, FieldFetch};

verus! {

#[verifier::external_type_specification]
#[verifier::external_body]
pub struct ExRedisConnectionManager(redis::aio::ConnectionManager);

/// A connection to the cache and its settings.
pub struct ResponseCache {
    pub conn: redis::aio::ConnectionManager,
    pub cfg: CacheConfig,
}

/// The text hashed into a cache key: the document, the operation name (empty
/// when absent), the variables' JSON text (`{}` when it cannot be written)
/// and the identity, separated by `\x1e`.
pub open spec fn cache_key_input(
    document: Seq<char>,
    operation_name: Option<Seq<char>>,
    variables: JsonV,
    identity: Seq<char>,
) -> Seq<char> {
    let op = match operation_name {
        Some(n) => n,
        None => Seq::empty(),
    };
    let vars = match json_text(variables) {
        Some(t) => t,
        None => "{}"@,
    };
    document + "\x1e"@ + op + "\x1e"@ + vars + "\x1e"@ + identity
}

pub open spec fn min_u64(a: u64, b: u64) -> u64 {
    if a <= b {
        a
    } else {
        b
    }
}

/// The shortest TTL that applies to any of `es`: pricing entity calls use the
/// pricing TTL.
pub open spec fn entity_ttl(es: Seq<EntityFetch>, cfg: CacheConfig, secs: u64) -> u64
    decreases es.len(),
{
    if es.len() == 0 {
        secs
    } else {
        let s = entity_ttl(es.drop_last(), cfg, secs);
        if es.last().subgraph@ == "pricing"@ {
            min_u64(s, cfg.ttl_pricing_sec)
        } else {
            s
        }
    }
}

/// The TTL bound after one root field: search, property reads and review
/// summaries each have their own TTL.
pub open spec fn field_ttl(f: FieldFetch, cfg: CacheConfig, secs: u64) -> u64 {
    let k = f.response_key@;
    let s1 = if k == "searchProperties"@ {
        min_u64(secs, cfg.ttl_search_sec)
    } else {
        secs
    };
    let s2 = if k == "property"@ {
        min_u64(s1, cfg.ttl_property_read_sec)
    } else {
        s1
    };
    let s3 = if k == "reviewSummary"@ {
        min_u64(s2, cfg.ttl_review_summary_sec)
    } else {
        s2
    };
    entity_ttl(f.entity_fetches@, cfg, s3)
}

pub open spec fn fields_ttl(fs: Seq<FieldFetch>, cfg: CacheConfig) -> u64
    decreases fs.len(),
{
    if fs.len() == 0 {
        u64::MAX
    } else {
        field_ttl(fs.last(), cfg, fields_ttl(fs.drop_last(), cfg))
    }
}

/// The lifetime of a cached response, in seconds: the shortest TTL of the
/// kinds of data the plan reads, at least 1; 60 when none applies.
pub open spec fn ttl_spec(fs: Seq<FieldFetch>, cfg: CacheConfig) -> u64 {
    let s = fields_ttl(fs, cfg);
    if s == u64::MAX {
        60
    } else if s < 1 {
        1
    } else {
        s
    }
}

impl ResponseCache {
    /// The hex SHA-256 key of a response, over the document, the operation
    /// name, the variables and the caller's identity.
    pub fn cache_key(document: &str, operation_name: Option<&str>, variables: &Json, identity: &str) -> (r:
        String)
        ensures
            r@ == hex_of(
                sha256(
                    cache_key_input(
                        document@,
                        match operation_name {
                            Some(n) => Some(n@),
                            None => None,
                        },
                        variables@,
                        identity@,
                    ),
                ),
            ),
    {
        let vars = match to_json_text(variables) {
            Some(t) => t,
            None => "{}".to_owned(),
        };
        let mut input = document.to_owned();
        input.append("\x1e");
        match operation_name {
            Some(n) => input.append(n),
            None => {},
        }
        input.append("\x1e");
        input.append(vars.as_str());
        input.append("\x1e");
        input.append(identity);
        let digest = sha256_bytes(input.as_str());
        hex_encode(&digest)
    }

    /// How long a response to `plan` may stay cached, in seconds.
    pub fn ttl_for_plan(&self, plan: &ExecutionPlan) -> (r: u64)
        ensures
            r == ttl_spec(plan.field_fetches@, self.cfg),
    {
        self.cfg.ttl_for_plan(plan)
    }

    /// Whether caching is switched on and has somewhere to go.
    pub fn enabled(&self) -> (r: bool)
        ensures
            r == (self.cfg.enabled && self.cfg.redis_url@.len() > 0),
    {
        self.cfg.enabled()
    }
}

impl CacheConfig {
    /// How long a response to `plan` may stay cached, in seconds.
    pub fn ttl_for_plan(&self, plan: &ExecutionPlan) -> (r: u64)
        ensures
            r == ttl_spec(plan.field_fetches@, *self),
    {
        let fs = &plan.field_fetches;
        let mut secs: u64 = u64::MAX;
        let mut i: usize = 0;
        while i < fs.len()
            invariant
                i <= fs.len(),
                secs == fields_ttl(fs@.take(i as int), *self),
            decreases fs.len() - i,
        {
            assert(fs@.take(i + 1).drop_last() =~= fs@.take(i as int));
            let f = &fs[i];
            let k = f.response_key.as_str();
            if crate::text::str_eq(k, "searchProperties") && self.ttl_search_sec < secs {
                secs = self.ttl_search_sec;
            }
            if crate::text::str_eq(k, "property") && self.ttl_property_read_sec < secs {
                secs = self.ttl_property_read_sec;
            }
            if crate::text::str_eq(k, "reviewSummary") && self.ttl_review_summary_sec < secs {
                secs = self.ttl_review_summary_sec;
            }
            let ghost s3 = secs;
            let es = &f.entity_fetches;
            let mut j: usize = 0;
            while j < es.len()
                invariant
                    j <= es.len(),
                    secs == entity_ttl(es@.take(j as int), *self, s3),
                decreases es.len() - j,
            {
                assert(es@.take(j + 1).drop_last() =~= es@.take(j as int));
                if crate::text::str_eq(es[j].subgraph.as_str(), "pricing") && self.ttl_pricing_sec
                    < secs {
                    secs = self.ttl_pricing_sec;
                }
                j = j + 1;
            }
            assert(es@.take(es.len() as int) =~= es@);
            i = i + 1;
        }
        assert(fs@.take(fs.len() as int) =~= fs@);
        if secs == u64::MAX {
            60
        } else if secs < 1 {
            1
        } else {
            secs
        }
    }

    /// Whether caching is switched on and has somewhere to go.
    pub fn enabled(&self) -> (r: bool)
        ensures
            r == (self.enabled && self.redis_url@.len() > 0),
    {
        let empty = crate::text::str_eq(self.redis_url.as_str(), "");
        proof {
            reveal_strlit("");
            if self.redis_url@.len() == 0 {
                assert(self.redis_url@ =~= ""@);
            }
        }
        self.enabled && !empty
    }
}

/// A cached response lives at least one second.
pub proof fn lemma_ttl_at_least_one(fs: Seq<FieldFetch>, cfg: CacheConfig)
    ensures
        ttl_spec(fs, cfg) >= 1,
{
}

proof fn lemma_entity_ttl_bound(es: Seq<EntityFetch>, cfg: CacheConfig, secs: u64)
    ensures
        entity_ttl(es, cfg, secs) <= secs,
        (exists|i: int| 0 <= i < es.len() && #[trigger] es[i].subgraph@ == "pricing"@) ==> entity_ttl(es, cfg, secs)
            <= cfg.ttl_pricing_sec,
    decreases es.len(),
{
    if es.len() > 0 {
        lemma_entity_ttl_bound(es.drop_last(), cfg, secs);
        if exists|i: int| 0 <= i < es.len() && #[trigger] es[i].subgraph@ == "pricing"@ {
            let i = choose|i: int| 0 <= i < es.len() && #[trigger] es[i].subgraph@ == "pricing"@;
            if i < es.len() - 1 {
                assert(es.drop_last()[i] == es[i]);
            }
        }
    }
}

proof fn lemma_fields_ttl_bound(fs: Seq<FieldFetch>, cfg: CacheConfig, i: int)
    requires
        0 <= i < fs.len(),
    ensures
        fs[i].response_key@ == "searchProperties"@ ==> fields_ttl(fs, cfg) <= cfg.ttl_search_sec,
        fs[i].response_key@ == "property"@ ==> fields_ttl(fs, cfg) <= cfg.ttl_property_read_sec,
        fs[i].response_key@ == "reviewSummary"@ ==> fields_ttl(fs, cfg) <= cfg.ttl_review_summary_sec,
        (exists|j: int| 0 <= j < fs[i].entity_fetches@.len() && #[trigger] fs[i].entity_fetches@[j].subgraph@
            == "pricing"@) ==> fields_ttl(fs, cfg) <= cfg.ttl_pricing_sec,
    decreases fs.len(),
{
    let prev = fields_ttl(fs.drop_last(), cfg);
    let f = fs.last();
    let k = f.response_key@;
    let s1 = if k == "searchProperties"@ { min_u64(prev, cfg.ttl_search_sec) } else { prev };
    let s2 = if k == "property"@ { min_u64(s1, cfg.ttl_property_read_sec) } else { s1 };
    let s3 = if k == "reviewSummary"@ { min_u64(s2, cfg.ttl_review_summary_sec) } else { s2 };
    lemma_entity_ttl_bound(f.entity_fetches@, cfg, s3);
    if i < fs.len() - 1 {
        assert(fs.drop_last()[i] == fs[i]);
        lemma_fields_ttl_bound(fs.drop_last(), cfg, i);
    }
}

/// A cached response never outlives the TTL of any kind of data its plan
/// reads (search results, property reads, review summaries, prices), unless
/// that TTL is below the one-second minimum.
pub proof fn lemma_ttl_within_data_ttls(fs: Seq<FieldFetch>, cfg: CacheConfig, i: int)
    requires
        0 <= i < fs.len(),
    ensures
        fs[i].response_key@ == "searchProperties"@ && cfg.ttl_search_sec >= 1 ==> ttl_spec(fs, cfg)
            <= cfg.ttl_search_sec,
        fs[i].response_key@ == "property"@ && cfg.ttl_property_read_sec >= 1 ==> ttl_spec(fs, cfg)
            <= cfg.ttl_property_read_sec,
        fs[i].response_key@ == "reviewSummary"@ && cfg.ttl_review_summary_sec >= 1 ==> ttl_spec(fs, cfg)
            <= cfg.ttl_review_summary_sec,
        (exists|j: int| 0 <= j < fs[i].entity_fetches@.len() && #[trigger] fs[i].entity_fetches@[j].subgraph@
            == "pricing"@) && cfg.ttl_pricing_sec >= 1 ==> ttl_spec(fs, cfg) <= cfg.ttl_pricing_sec,
{
    lemma_fields_ttl_bound(fs, cfg, i);
}
} // verus!
