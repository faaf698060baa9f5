//! Router configuration: the values read from the TOML file, with the
//! defaults used where the file leaves a key out. Durations are whole
//! milliseconds or seconds as the key names say.

use vstd::prelude::*;
use crate::strmap::StrMap;
use crate::text::chars_of;

verus! {

#[derive(Debug)]
pub struct Config {
    pub server: Server,
    pub supergraph: SupergraphPath,
    /// Per-subgraph HTTP timeout overrides (ms), by `@join__graph` name.
    pub timeouts: StrMap<u64>,
    pub http_client: HttpClientConfig,
    pub reliability: ReliabilityConfig,
    pub cache: CacheConfig,
    pub limits: LimitsConfig,
    pub rate_limit: RateLimitConfig,
    pub auth: AuthConfig,
    pub persisted_queries: PersistedQueriesConfig,
    /// Hand-declared field ownership, by subgraph name (see
    /// [`crate::registry`]).
    pub subgraphs: StrMap<SubgraphConfig>,
    pub usage: UsageConfig,
}

/// Field-usage reporting.
#[derive(Debug)]
pub struct UsageConfig {
    pub enabled: bool,
    /// Where usage events are posted.
    pub endpoint: String,
}

impl Default for UsageConfig {
    fn default() -> (r: Self)
        ensures
            !r.enabled,
            r.endpoint@.len() == 0,
    {
        UsageConfig { enabled: false, endpoint: String::new() }
    }
}

#[derive(Debug)]
pub struct Server {
    pub port: u16,
    /// Fallback when a subgraph has no `[timeouts]` entry.
    pub default_subgraph_timeout_ms: u64,
}

#[derive(Debug)]
pub struct SupergraphPath {
    pub path: String,
}

/// One subgraph's URL and the root fields it owns.
#[derive(Debug)]
pub struct SubgraphConfig {
    pub url: String,
    /// Query fields.
    pub fields: Vec<String>,
    /// Mutation fields.
    pub mutations: Vec<String>,
    pub timeout_ms: Option<u64>,
}

#[derive(Debug)]
pub struct HttpClientConfig {
    pub pool_max_idle_per_host: usize,
    /// Idle socket lifetime in the pool.
    pub pool_idle_timeout_sec: u64,
    pub tcp_keepalive_sec: u64,
}

#[derive(Debug)]
pub struct ReliabilityConfig {
    /// Extra attempts after the first (at most `1 + retry_max_attempts`).
    pub retry_max_attempts: u32,
    pub retry_initial_backoff_ms: u64,
    pub retry_max_backoff_ms: u64,
    pub circuit_window_sec: u64,
    pub circuit_min_samples: usize,
    /// The failure ratio that opens a breaker, in millionths.
    pub circuit_failure_ratio_ppm: u32,
    pub circuit_open_recovery_sec: u64,
}

#[derive(Debug, Clone)]
pub struct CacheConfig {
    pub enabled: bool,
    pub redis_url: String,
    pub ttl_property_read_sec: u64,
    pub ttl_search_sec: u64,
    pub ttl_pricing_sec: u64,
    pub ttl_review_summary_sec: u64,
}

#[derive(Debug)]
pub struct LimitsConfig {
    pub max_depth: usize,
    pub max_cost: u32,
}

#[derive(Debug)]
pub struct RateLimitConfig {
    pub default_requests_per_sec: u32,
    pub default_burst: u32,
    pub clients: StrMap<ClientRateLimitOverride>,
}

#[derive(Debug, Clone, Copy, PartialEq, Eq, Structural)]
pub struct ClientRateLimitOverride {
    pub requests_per_sec: u32,
    pub burst: u32,
}

impl View for ClientRateLimitOverride {
    type V = ClientRateLimitOverride;

    open spec fn view(&self) -> ClientRateLimitOverride {
        *self
    }
}

impl View for SubgraphConfig {
    type V = SubgraphConfig;

    open spec fn view(&self) -> SubgraphConfig {
        *self
    }
}

#[derive(Debug)]
pub struct AuthConfig {
    pub jwt_secret: String,
    pub identity_signature_secret: String,
}

#[derive(Debug)]
pub struct PersistedQueriesConfig {
    pub path: String,
    pub allow_arbitrary_queries: bool,
}

pub fn default_timeout_ms() -> (r: u64)
    ensures
        r == 1000,
{
    1000
}

pub fn default_pool_max_idle() -> (r: usize)
    ensures
        r == 50,
{
    50
}

pub fn default_pool_idle_sec() -> (r: u64)
    ensures
        r == 90,
{
    90
}

pub fn default_tcp_keepalive_sec() -> (r: u64)
    ensures
        r == 90,
{
    90
}

pub fn default_retry_max() -> (r: u32)
    ensures
        r == 2,
{
    2
}

pub fn default_retry_initial_backoff_ms() -> (r: u64)
    ensures
        r == 10,
{
    10
}

pub fn default_retry_max_backoff_ms() -> (r: u64)
    ensures
        r == 250,
{
    250
}

pub fn default_circuit_window_sec() -> (r: u64)
    ensures
        r == 60,
{
    60
}

pub fn default_circuit_min_samples() -> (r: usize)
    ensures
        r == 8,
{
    8
}

/// One half.
pub fn default_circuit_failure_ratio_ppm() -> (r: u32)
    ensures
        r == 500_000,
{
    500_000
}

pub fn default_circuit_open_recovery_sec() -> (r: u64)
    ensures
        r == 15,
{
    15
}

pub fn default_ttl_property_read_sec() -> (r: u64)
    ensures
        r == 600,
{
    600
}

pub fn default_ttl_search_sec() -> (r: u64)
    ensures
        r == 120,
{
    120
}

pub fn default_ttl_pricing_sec() -> (r: u64)
    ensures
        r == 30,
{
    30
}

pub fn default_ttl_review_summary_sec() -> (r: u64)
    ensures
        r == 300,
{
    300
}

pub fn default_max_depth() -> (r: usize)
    ensures
        r == 10,
{
    10
}

pub fn default_max_cost() -> (r: u32)
    ensures
        r == 1000,
{
    1000
}

pub fn default_rl_rps() -> (r: u32)
    ensures
        r == 100,
{
    100
}

pub fn default_rl_burst() -> (r: u32)
    ensures
        r == 100,
{
    100
}

pub fn default_jwt_secret() -> (r: String)
    ensures
        r@ == "travelgraph-dev-jwt-secret"@,
{
    "travelgraph-dev-jwt-secret".to_owned()
}

pub fn default_identity_signature_secret() -> (r: String)
    ensures
        r@ == "travelgraph-dev-identity-secret"@,
{
    "travelgraph-dev-identity-secret".to_owned()
}

pub fn default_persisted_queries_path() -> (r: String)
    ensures
        r@ == "persisted-queries.json"@,
{
    "persisted-queries.json".to_owned()
}

impl Default for HttpClientConfig {
    fn default() -> (r: Self)
        ensures
            r.pool_max_idle_per_host == 50,
            r.pool_idle_timeout_sec == 90,
            r.tcp_keepalive_sec == 90,
    {
        HttpClientConfig {
            pool_max_idle_per_host: default_pool_max_idle(),
            pool_idle_timeout_sec: default_pool_idle_sec(),
            tcp_keepalive_sec: default_tcp_keepalive_sec(),
        }
    }
}

impl Default for ReliabilityConfig {
    fn default() -> (r: Self)
        ensures
            r.retry_max_attempts == 2,
            r.retry_initial_backoff_ms == 10,
            r.retry_max_backoff_ms == 250,
            r.circuit_window_sec == 60,
            r.circuit_min_samples == 8,
            r.circuit_failure_ratio_ppm == 500_000,
            r.circuit_open_recovery_sec == 15,
    {
        ReliabilityConfig {
            retry_max_attempts: default_retry_max(),
            retry_initial_backoff_ms: default_retry_initial_backoff_ms(),
            retry_max_backoff_ms: default_retry_max_backoff_ms(),
            circuit_window_sec: default_circuit_window_sec(),
            circuit_min_samples: default_circuit_min_samples(),
            circuit_failure_ratio_ppm: default_circuit_failure_ratio_ppm(),
            circuit_open_recovery_sec: default_circuit_open_recovery_sec(),
        }
    }
}

impl Default for CacheConfig {
    fn default() -> (r: Self)
        ensures
            !r.enabled,
            r.redis_url@.len() == 0,
            r.ttl_property_read_sec == 600,
            r.ttl_search_sec == 120,
            r.ttl_pricing_sec == 30,
            r.ttl_review_summary_sec == 300,
    {
        CacheConfig {
            enabled: false,
            redis_url: String::new(),
            ttl_property_read_sec: default_ttl_property_read_sec(),
            ttl_search_sec: default_ttl_search_sec(),
            ttl_pricing_sec: default_ttl_pricing_sec(),
            ttl_review_summary_sec: default_ttl_review_summary_sec(),
        }
    }
}

impl Default for LimitsConfig {
    fn default() -> (r: Self)
        ensures
            r.max_depth == 10,
            r.max_cost == 1000,
    {
        LimitsConfig { max_depth: default_max_depth(), max_cost: default_max_cost() }
    }
}

impl Default for RateLimitConfig {
    fn default() -> (r: Self)
        ensures
            r.default_requests_per_sec == 100,
            r.default_burst == 100,
            r.clients@.len() == 0,
    {
        RateLimitConfig {
            default_requests_per_sec: default_rl_rps(),
            default_burst: default_rl_burst(),
            clients: StrMap::new(),
        }
    }
}

impl Default for AuthConfig {
    fn default() -> (r: Self)
        ensures
            r.jwt_secret@ == "travelgraph-dev-jwt-secret"@,
            r.identity_signature_secret@ == "travelgraph-dev-identity-secret"@,
    {
        AuthConfig {
            jwt_secret: default_jwt_secret(),
            identity_signature_secret: default_identity_signature_secret(),
        }
    }
}

impl Default for PersistedQueriesConfig {
    fn default() -> (r: Self)
        ensures
            r.path@ == "persisted-queries.json"@,
            !r.allow_arbitrary_queries,
    {
        PersistedQueriesConfig { path: default_persisted_queries_path(), allow_arbitrary_queries: false }
    }
}

/// `c` is `lower`, or its ASCII capital when `lower` is a lowercase letter.
pub open spec fn ci_eq(c: char, lower: char) -> bool {
    c == lower || ('a' <= lower && lower <= 'z' && (c as u32) + 32 == (lower as u32))
}

/// `v` is the lowercase word `w` up to ASCII case.
pub open spec fn ci_word(v: Seq<char>, w: Seq<char>) -> bool {
    v.len() == w.len() && forall|i: int| 0 <= i < v.len() ==> ci_eq(v[i], w[i])
}

/// An environment flag that is on: `1`, `true` or `yes` in any case
/// (`to_lowercase` lowers no character but the ASCII capitals onto these).
pub open spec fn truthy(v: Seq<char>) -> bool {
    ci_word(v, seq!['1']) || ci_word(v, seq!['t', 'r', 'u', 'e']) || ci_word(v, seq!['y', 'e', 's'])
}

fn ci_eq_char(c: char, lower: char) -> (r: bool)
    ensures
        r == ci_eq(c, lower),
{
    c == lower || ('a' <= lower && lower <= 'z' && (c as u32) + 32 == (lower as u32))
}

fn ci_word_chars(v: &Vec<char>, w: &Vec<char>) -> (r: bool)
    ensures
        r == ci_word(v@, w@),
{
    if v.len() != w.len() {
        return false;
    }
    let mut i: usize = 0;
    while i < v.len()
        invariant
            v.len() == w.len(),
            i <= v.len(),
            forall|j: int| 0 <= j < i ==> ci_eq(v@[j], w@[j]),
        decreases v.len() - i,
    {
        if !ci_eq_char(v[i], w[i]) {
            return false;
        }
        i = i + 1;
    }
    true
}

/// Whether an environment flag's value turns it on.
pub fn is_truthy(v: &str) -> (r: bool)
    ensures
        r == truthy(v@),
{
    let cs = chars_of(v);
    let one: Vec<char> = vec!['1'];
    let t: Vec<char> = vec!['t', 'r', 'u', 'e'];
    let y: Vec<char> = vec!['y', 'e', 's'];
    proof {
        assert(one@ =~= seq!['1']);
        assert(t@ =~= seq!['t', 'r', 'u', 'e']);
        assert(y@ =~= seq!['y', 'e', 's']);
    }
    ci_word_chars(&cs, &one) || ci_word_chars(&cs, &t) || ci_word_chars(&cs, &y)
}

/// The environment variables that override a loaded configuration, each
/// `None` when unset (or not Unicode).
#[derive(Debug)]
pub struct EnvOverrides {
    /// `ROUTER_REDIS_URL`
    pub redis_url: Option<String>,
    /// `ROUTER_CACHE_ENABLED`
    pub cache_enabled: Option<String>,
    /// `ROUTER_JWT_SECRET`
    pub jwt_secret: Option<String>,
    /// `TRAVELGRAPH_IDENTITY_SECRET`
    pub identity_signature_secret: Option<String>,
    /// `ROUTER_PERSISTED_QUERIES_PATH`
    pub persisted_queries_path: Option<String>,
    /// `ROUTER_ALLOW_ARBITRARY_QUERIES`
    pub allow_arbitrary_queries: Option<String>,
}

/// A text setting after an override that counts only when not empty.
pub open spec fn text_override(cur: Seq<char>, v: Option<String>) -> Seq<char> {
    match v {
        Some(s) => if s@.len() > 0 {
            s@
        } else {
            cur
        },
        None => cur,
    }
}

/// A flag after an override: set means on exactly when [`truthy`].
pub open spec fn flag_override(cur: bool, v: Option<String>) -> bool {
    match v {
        Some(s) => truthy(s@),
        None => cur,
    }
}

fn override_text(cur: &mut String, v: Option<String>)
    ensures
        final(cur)@ == text_override(old(cur)@, v),
{
    if let Some(s) = v {
        if chars_of(s.as_str()).len() > 0 {
            *cur = s;
        }
    }
}

fn override_flag(cur: &mut bool, v: Option<String>)
    ensures
        *final(cur) == flag_override(*old(cur), v),
{
    if let Some(s) = v {
        *cur = is_truthy(s.as_str());
    }
}

impl Config {
    /// The pool's idle socket lifetime, in seconds.
    pub fn http_pool_idle_timeout(&self) -> (r: u64)
        ensures
            r == self.http_client.pool_idle_timeout_sec,
    {
        self.http_client.pool_idle_timeout_sec
    }

    /// The TCP keep-alive interval in seconds; `None` (off) when configured
    /// as 0.
    pub fn http_tcp_keepalive(&self) -> (r: Option<u64>)
        ensures
            self.http_client.tcp_keepalive_sec == 0 ==> r is None,
            self.http_client.tcp_keepalive_sec != 0 ==> r == Some(self.http_client.tcp_keepalive_sec),
    {
        if self.http_client.tcp_keepalive_sec == 0 {
            None
        } else {
            Some(self.http_client.tcp_keepalive_sec)
        }
    }

    /// Applies the environment's overrides: the Redis URL, the two secrets
    /// and the persisted-query path when set and not empty, the cache and
    /// arbitrary-query flags when set. Nothing else changes.
    pub fn apply_env_overrides(&mut self, env: EnvOverrides)
        ensures
            final(self).cache.redis_url@ == text_override(old(self).cache.redis_url@, env.redis_url),
            final(self).cache.enabled == flag_override(old(self).cache.enabled, env.cache_enabled),
            final(self).auth.jwt_secret@ == text_override(old(self).auth.jwt_secret@, env.jwt_secret),
            final(self).auth.identity_signature_secret@ == text_override(
                old(self).auth.identity_signature_secret@,
                env.identity_signature_secret,
            ),
            final(self).persisted_queries.path@ == text_override(
                old(self).persisted_queries.path@,
                env.persisted_queries_path,
            ),
            final(self).persisted_queries.allow_arbitrary_queries == flag_override(
                old(self).persisted_queries.allow_arbitrary_queries,
                env.allow_arbitrary_queries,
            ),
            final(self).cache.ttl_property_read_sec == old(self).cache.ttl_property_read_sec,
            final(self).cache.ttl_search_sec == old(self).cache.ttl_search_sec,
            final(self).cache.ttl_pricing_sec == old(self).cache.ttl_pricing_sec,
            final(self).cache.ttl_review_summary_sec == old(self).cache.ttl_review_summary_sec,
            final(self).server == old(self).server,
            final(self).supergraph == old(self).supergraph,
            final(self).timeouts == old(self).timeouts,
            final(self).http_client == old(self).http_client,
            final(self).reliability == old(self).reliability,
            final(self).limits == old(self).limits,
            final(self).rate_limit == old(self).rate_limit,
            final(self).subgraphs == old(self).subgraphs,
            final(self).usage == old(self).usage,
    {
        override_text(&mut self.cache.redis_url, env.redis_url);
        override_flag(&mut self.cache.enabled, env.cache_enabled);
        override_text(&mut self.auth.jwt_secret, env.jwt_secret);
        override_text(&mut self.auth.identity_signature_secret, env.identity_signature_secret);
        override_text(&mut self.persisted_queries.path, env.persisted_queries_path);
        override_flag(&mut self.persisted_queries.allow_arbitrary_queries, env.allow_arbitrary_queries);
    }

    /// A subgraph's own timeout, else the server-wide default.
    pub fn timeout_for(&self, sub: &SubgraphConfig) -> (r: u64)
        ensures
            r == match sub.timeout_ms {
                Some(t) => t,
                None => self.server.default_subgraph_timeout_ms,
            },
    {
        match sub.timeout_ms {
            Some(t) => t,
            None => self.server.default_subgraph_timeout_ms,
        }
    }
}

/// The built-in subgraph timeouts (ms) for subgraphs without a `[timeouts]`
/// entry.
pub open spec fn default_timeouts_spec() -> Seq<(Seq<char>, u64)> {
    seq![
        ("property"@, 300u64),
        ("pricing"@, 500u64),
        ("booking"@, 700u64),
        ("review"@, 500u64),
        ("user"@, 500u64),
    ]
}

/// The built-in per-subgraph timeouts in milliseconds.
pub fn default_subgraph_timeouts_ms() -> (r: StrMap<u64>)
    ensures
        r@ == default_timeouts_spec(),
{
    let mut e: Vec<(String, u64)> = Vec::new();
    e.push(("property".to_owned(), 300));
    e.push(("pricing".to_owned(), 500));
    e.push(("booking".to_owned(), 700));
    e.push(("review".to_owned(), 500));
    e.push(("user".to_owned(), 500));
    let m = StrMap { entries: e };
    let ghost d = default_timeouts_spec();
    assert(m@.len() == d.len());
    assert forall|i: int| 0 <= i < d.len() implies m@[i] == d[i] by {
        assert(m@[i] == (m.entries@[i].0@, m.entries@[i].1@));
    }
    assert(m@ =~= d);
    m
}

} // verus!
