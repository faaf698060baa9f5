use travelgraph_router::config::{
    default_subgraph_timeouts_ms, is_truthy, AuthConfig, EnvOverrides, CacheConfig, ClientRateLimitOverride, Config, HttpClientConfig,
    LimitsConfig, PersistedQueriesConfig, RateLimitConfig, ReliabilityConfig, Server, SupergraphPath, UsageConfig,
};
use travelgraph_router::graphql::types::{GraphQLError, GraphQLRequest, GraphQLResponse};
use travelgraph_router::http::{header_value, Headers};
use travelgraph_router::json::Json;
use travelgraph_router::metrics::{
    record_cache, record_circuit_breaker_open, record_graphql_request, record_query_complexity, record_rate_limited,
    record_subgraph_duration, record_subgraph_error, MetricUpdate, Observation,
};
use travelgraph_router::persisted_queries::PersistedQueryStore;
use travelgraph_router::plan::types::{ExecutionPlan, OperationKind};
use travelgraph_router::rate_limit::{rate_limit_client, retry_after_secs, RateLimitPolicy};
use travelgraph_router::server::{
    accept_request, apply_timeout_overrides, breaker_config, cache_wanted, complete, manifest_source, ManifestSource, completion_outcome, merge_timeout_defaults, operation_label,
    plan_request, response_cacheable, Admission,
};
use travelgraph_router::strmap::StrMap;
use travelgraph_router::supergraph::catalog::parse as parse_supergraph;

const SUPERGRAPH: &str = r#"
schema { query: Query }
directive @join__graph(name: String!, url: String!) on ENUM_VALUE
directive @join__type(graph: join__Graph!, key: String, extension: Boolean = false) repeatable on OBJECT
directive @join__field(graph: join__Graph!) on FIELD_DEFINITION
enum join__Graph {
  PROPERTY @join__graph(name: "property", url: "http://prop:8081/graphql")
  REVIEW   @join__graph(name: "review",   url: "http://review:8085/graphql")
  SEARCH   @join__graph(name: "search",   url: "http://search:8090/graphql")
}
type Query @join__type(graph: PROPERTY) {
  property(id: ID!): Property @join__field(graph: PROPERTY)
  reviewSummary(propertyId: ID!): ReviewSummary! @join__field(graph: REVIEW)
}
type Property @join__type(graph: PROPERTY, key: "id") { id: ID! name: String! }
type ReviewSummary @join__type(graph: REVIEW) { count: Int! }
"#;

fn config() -> Config {
    Config {
        server: Server { port: 8080, default_subgraph_timeout_ms: 1000 },
        supergraph: SupergraphPath { path: "supergraph.graphql".to_string() },
        timeouts: StrMap::new(),
        http_client: HttpClientConfig::default(),
        reliability: ReliabilityConfig::default(),
        cache: CacheConfig::default(),
        limits: LimitsConfig::default(),
        rate_limit: RateLimitConfig::default(),
        auth: AuthConfig::default(),
        persisted_queries: PersistedQueriesConfig::default(),
        subgraphs: StrMap::new(),
        usage: UsageConfig::default(),
    }
}

fn request(query: &str) -> GraphQLRequest {
    GraphQLRequest { query: query.to_string(), operation_name: None, variables: Json::Object(Vec::new()), extensions: None }
}

#[test]
fn defaults_match_the_documented_values() {
    let c = config();
    assert_eq!(c.http_client.pool_max_idle_per_host, 50);
    assert_eq!(c.http_tcp_keepalive(), Some(90));
    assert_eq!(c.http_pool_idle_timeout(), 90);
    assert_eq!(c.reliability.retry_max_attempts, 2);
    assert_eq!(c.reliability.circuit_failure_ratio_ppm, 500_000);
    assert_eq!(c.limits.max_depth, 10);
    assert_eq!(c.limits.max_cost, 1000);
    assert_eq!(c.rate_limit.default_burst, 100);
    assert_eq!(c.auth.jwt_secret, "travelgraph-dev-jwt-secret");
    assert_eq!(c.persisted_queries.path, "persisted-queries.json");
    assert!(!c.cache.enabled);
    let mut off = config();
    off.http_client.tcp_keepalive_sec = 0;
    assert_eq!(off.http_tcp_keepalive(), None);
}

#[test]
fn built_in_timeouts() {
    let t = default_subgraph_timeouts_ms();
    assert_eq!(t.len(), 5);
    assert_eq!(t.get("property"), Some(&300));
    assert_eq!(t.get("booking"), Some(&700));
    assert_eq!(t.get("unknown"), None);
}

#[test]
fn configured_timeouts_override_built_in_ones() {
    let mut c = config();
    c.timeouts.insert("review".to_string(), 900);
    c.timeouts.insert("search".to_string(), 50);
    let m = merge_timeout_defaults(&c);
    assert_eq!(m.get("review"), Some(&900));
    assert_eq!(m.get("search"), Some(&50));
    assert_eq!(m.get("property"), Some(&300));

    let mut cat = parse_supergraph(SUPERGRAPH).unwrap();
    c.server.default_subgraph_timeout_ms = 1234;
    c.timeouts = StrMap::new();
    c.timeouts.insert("review".to_string(), 900);
    apply_timeout_overrides(&mut cat, &c);
    assert_eq!(cat.subgraphs.get("property").unwrap().timeout_ms, 300);
    assert_eq!(cat.subgraphs.get("review").unwrap().timeout_ms, 900);
    assert_eq!(cat.subgraphs.get("search").unwrap().timeout_ms, 1234);
    assert_eq!(cat.subgraphs.get("search").unwrap().url, "http://search:8090/graphql");
}

#[test]
fn labels_and_header_values() {
    assert_eq!(operation_label(Some("Q")), "Q");
    assert_eq!(operation_label(None), "<anonymous>");
    let mut h = Headers::new();
    h.push("apollographql-client-name".to_string(), Some("  web  ".to_string()));
    h.push("apollographql-client-version".to_string(), Some("   ".to_string()));
    assert_eq!(header_value(&h, "apollographql-client-name", "__anonymous__"), "web");
    assert_eq!(header_value(&h, "apollographql-client-version", "__unknown__"), "__unknown__");
    assert_eq!(header_value(&h, "missing", "fb"), "fb");
    assert_eq!(rate_limit_client(&h), "  web  ");
    assert_eq!(rate_limit_client(&Headers::new()), "__anonymous__");
}

#[test]
fn rate_limit_quotas() {
    let mut cfg = RateLimitConfig::default();
    cfg.clients.insert("mobile".to_string(), ClientRateLimitOverride { requests_per_sec: 0, burst: 7 });
    let p = RateLimitPolicy::new(&cfg);
    assert_eq!(p.quota_for("mobile"), (1, 7));
    assert_eq!(p.quota_for("web"), (100, 100));
    assert_eq!(retry_after_secs(0), 1);
    assert_eq!(retry_after_secs(3), 3);
}

#[test]
fn metric_updates() {
    let u = record_cache("hit");
    assert_eq!(u.len(), 2);
    assert!(matches!(&u[1], MetricUpdate::Increment { name, .. } if *name == "graphql_cache_hits_total"));
    assert_eq!(record_cache("miss").len(), 2);
    assert_eq!(record_cache("other").len(), 1);
    let r = record_graphql_request("Q", "ok", 5_000_000);
    match &r[1] {
        MetricUpdate::Record { name, labels, observation } => {
            assert_eq!(*name, "graphql_request_duration_ms");
            assert_eq!(labels, &vec![("operation", "Q".to_string())]);
            assert_eq!(*observation, Observation::DurationNanos(5_000_000));
        },
        other => panic!("unexpected {other:?}"),
    }
    assert!(matches!(&record_query_complexity(42)[0], MetricUpdate::Record { observation: Observation::Amount(42), .. }));
    assert!(matches!(&record_rate_limited("web")[0], MetricUpdate::Increment { name, .. } if *name == "graphql_rate_limited_total"));
    assert_eq!(record_subgraph_duration("review", 1).len(), 1);
    assert_eq!(record_subgraph_error("review").len(), 1);
    assert!(matches!(&record_circuit_breaker_open("review")[0], MetricUpdate::Increment { name, .. } if *name == "graphql_circuit_breaker_open"));
}

#[test]
fn unknown_persisted_hash_is_answered_before_parsing() {
    let cat = parse_supergraph(SUPERGRAPH).unwrap();
    let mut req = request("not graphql at all {");
    req.extensions = Some(Json::Object(vec![(
        "persistedQuery".to_string(),
        Json::Object(vec![("sha256Hash".to_string(), Json::Str("nope".to_string()))]),
    )]));
    match accept_request(&PersistedQueryStore::new(), true, &req, &cat) {
        Admission::Reject { status, errors, outcome } => {
            assert_eq!(status, 200);
            assert_eq!(outcome, "persisted_query_error");
            assert_eq!(errors[0].message, "PersistedQueryNotFound");
        },
        other => panic!("unexpected {other:?}"),
    }
}

#[test]
fn parse_errors_are_bad_requests() {
    let cat = parse_supergraph(SUPERGRAPH).unwrap();
    match accept_request(&PersistedQueryStore::new(), true, &request("query { a "), &cat) {
        Admission::Reject { status, outcome, .. } => {
            assert_eq!(status, 400);
            assert_eq!(outcome, "parse_error");
        },
        other => panic!("unexpected {other:?}"),
    }
}

#[test]
fn validation_errors_are_answered() {
    let cat = parse_supergraph(SUPERGRAPH).unwrap();
    match accept_request(&PersistedQueryStore::new(), true, &request("query Q { property(id: $id) { name } }"), &cat) {
        Admission::Reject { status, outcome, errors } => {
            assert_eq!(status, 200);
            assert_eq!(outcome, "validation_error");
            assert!(errors.iter().any(|e| e.message.contains("$id")));
        },
        other => panic!("unexpected {other:?}"),
    }
}

#[test]
fn stored_query_is_admitted_and_planned() {
    let cat = parse_supergraph(SUPERGRAPH).unwrap();
    let mut queries = StrMap::new();
    queries.insert("h1".to_string(), "{ property(id: \"1\") { name } }".to_string());
    let store = PersistedQueryStore { queries };
    let mut req = request("");
    req.extensions = Some(Json::Object(vec![(
        "persistedQuery".to_string(),
        Json::Object(vec![("sha256Hash".to_string(), Json::Str("h1".to_string()))]),
    )]));
    let (query, document, complexity) = match accept_request(&store, false, &req, &cat) {
        Admission::Accept { query, document, complexity } => (query, document, complexity),
        other => panic!("unexpected {other:?}"),
    };
    assert_eq!(query, "{ property(id: \"1\") { name } }");
    assert_eq!(complexity, Some(5));
    let plan = plan_request(&document, None, &cat, &LimitsConfig::default()).unwrap();
    assert_eq!(plan.field_fetches.len(), 1);
    let tight = LimitsConfig { max_depth: 10, max_cost: 4 };
    let (err, outcome) = plan_request(&document, None, &cat, &tight).unwrap_err();
    assert_eq!(outcome, "cost_limit_error");
    assert_eq!(err.message, "query complexity score 5 exceeds limit 4");
}

#[test]
fn unknown_root_field_is_a_plan_refusal() {
    let cat = parse_supergraph(SUPERGRAPH).unwrap();
    let doc = travelgraph_router::graphql::ast::parse_document("{ nothing }", "q.graphql").unwrap();
    let (err, outcome) = plan_request(&doc, None, &cat, &LimitsConfig::default()).unwrap_err();
    assert_eq!(outcome, "plan_error");
    assert_eq!(err.message, "no subgraph owns root field \"Query.nothing\"");
}

#[test]
fn completion_and_cacheability() {
    let plan = ExecutionPlan { operation_kind: OperationKind::Query, operation_name: None, field_fetches: Vec::new() };
    let ok = GraphQLResponse { data: Some(Json::Null), errors: Vec::new(), extensions: None };
    let c = complete(&plan, &ok, "user-1", true);
    assert!(c.ok && c.publish_usage && c.cacheable);
    assert_eq!(completion_outcome(&c), "ok");
    assert!(!complete(&plan, &ok, "", true).cacheable);
    assert!(!complete(&plan, &ok, "u", false).publish_usage);
    let failed = GraphQLResponse { data: Some(Json::Null), errors: vec![GraphQLError::message("x".to_string())], extensions: None };
    let c = complete(&plan, &failed, "u", true);
    assert!(!c.ok && !c.publish_usage && !c.cacheable);
    assert_eq!(completion_outcome(&c), "graphql_error");
    let mutation = ExecutionPlan { operation_kind: OperationKind::Mutation, operation_name: None, field_fetches: Vec::new() };
    assert!(!response_cacheable(&mutation, Some("u"), &ok));
    assert!(!response_cacheable(&plan, None, &ok));
    let no_data = GraphQLResponse { data: None, errors: Vec::new(), extensions: None };
    assert!(!response_cacheable(&plan, Some("u"), &no_data));
}

fn no_overrides() -> EnvOverrides {
    EnvOverrides {
        redis_url: None,
        cache_enabled: None,
        jwt_secret: None,
        identity_signature_secret: None,
        persisted_queries_path: None,
        allow_arbitrary_queries: None,
    }
}

#[test]
fn environment_flags_read_one_true_yes_in_any_case() {
    for v in ["1", "true", "TRUE", "True", "yes", "YeS"] {
        assert!(is_truthy(v), "{v}");
    }
    for v in ["", "0", "false", "on", "y", " true", "truee", "2"] {
        assert!(!is_truthy(v), "{v}");
    }
}

#[test]
fn environment_overrides_apply_to_their_settings() {
    let mut c = config();
    c.cache.redis_url = "redis://file:6379".to_string();
    c.apply_env_overrides(EnvOverrides {
        redis_url: Some("redis://env:6379".to_string()),
        cache_enabled: Some("Yes".to_string()),
        jwt_secret: Some("env-jwt".to_string()),
        identity_signature_secret: Some("env-identity".to_string()),
        persisted_queries_path: Some("/etc/pq.json".to_string()),
        allow_arbitrary_queries: Some("1".to_string()),
    });
    assert_eq!(c.cache.redis_url, "redis://env:6379");
    assert!(c.cache.enabled);
    assert_eq!(c.auth.jwt_secret, "env-jwt");
    assert_eq!(c.auth.identity_signature_secret, "env-identity");
    assert_eq!(c.persisted_queries.path, "/etc/pq.json");
    assert!(c.persisted_queries.allow_arbitrary_queries);
    assert_eq!(c.server.port, 8080);
}

#[test]
fn empty_or_unset_environment_keeps_file_values() {
    let mut c = config();
    c.cache.enabled = true;
    c.persisted_queries.allow_arbitrary_queries = true;
    c.apply_env_overrides(no_overrides());
    assert!(c.cache.enabled);
    assert!(c.persisted_queries.allow_arbitrary_queries);
    assert_eq!(c.auth.jwt_secret, "travelgraph-dev-jwt-secret");
    c.apply_env_overrides(EnvOverrides {
        redis_url: Some(String::new()),
        cache_enabled: Some("off".to_string()),
        jwt_secret: Some(String::new()),
        identity_signature_secret: Some(String::new()),
        persisted_queries_path: Some(String::new()),
        allow_arbitrary_queries: Some(String::new()),
    });
    assert_eq!(c.cache.redis_url, "");
    assert!(!c.cache.enabled);
    assert_eq!(c.auth.jwt_secret, "travelgraph-dev-jwt-secret");
    assert_eq!(c.persisted_queries.path, "persisted-queries.json");
    assert!(!c.persisted_queries.allow_arbitrary_queries);
}

#[test]
fn breaker_settings_come_from_the_reliability_section() {
    let mut c = config();
    c.reliability.circuit_window_sec = 30;
    c.reliability.circuit_open_recovery_sec = u64::MAX;
    let b = breaker_config(&c.reliability);
    assert_eq!(b.window_ms, 30_000);
    assert_eq!(b.recovery_ms, u64::MAX);
    assert_eq!(b.min_samples, c.reliability.circuit_min_samples);
    assert_eq!(b.failure_ratio_ppm, 500_000);
}

#[test]
fn cache_connects_only_when_enabled_with_a_url() {
    let mut c = config();
    assert!(!cache_wanted(&c.cache));
    c.cache.enabled = true;
    assert!(!cache_wanted(&c.cache));
    c.cache.redis_url = "redis://localhost:6379".to_string();
    assert!(cache_wanted(&c.cache));
    c.cache.enabled = false;
    assert!(!cache_wanted(&c.cache));
}

#[test]
fn missing_manifest_is_empty_only_when_arbitrary_queries_are_allowed() {
    assert_eq!(manifest_source(true, false), ManifestSource::Load);
    assert_eq!(manifest_source(true, true), ManifestSource::Load);
    assert_eq!(manifest_source(false, true), ManifestSource::Empty);
    assert_eq!(manifest_source(false, false), ManifestSource::Load);
}
