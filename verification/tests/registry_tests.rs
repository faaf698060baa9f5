use travelgraph_router::config::{
    AuthConfig, CacheConfig, Config, HttpClientConfig, LimitsConfig, PersistedQueriesConfig, RateLimitConfig,
    ReliabilityConfig, Server, SubgraphConfig, SupergraphPath, UsageConfig,
};
use travelgraph_router::graphql::ast::OpType;
use travelgraph_router::registry::{RegistryError, SubgraphRegistry};
use travelgraph_router::strmap::StrMap;

fn test_subgraph(url: &str, fields: &[&str]) -> SubgraphConfig {
    SubgraphConfig {
        url: url.to_owned(),
        fields: fields.iter().map(|s| s.to_string()).collect(),
        mutations: Vec::new(),
        timeout_ms: None,
    }
}

fn cfg() -> Config {
    let mut subgraphs = StrMap::new();
    subgraphs.insert(
        "property".to_owned(),
        test_subgraph("http://property:8081/graphql", &["property", "searchProperties"]),
    );
    subgraphs.insert("review".to_owned(), test_subgraph("http://review:8085/graphql", &["reviews", "reviewSummary"]));
    Config {
        server: Server { port: 8080, default_subgraph_timeout_ms: 1000 },
        supergraph: SupergraphPath { path: "supergraph.graphql".to_string() },
        timeouts: StrMap::new(),
        http_client: HttpClientConfig::default(),
        reliability: ReliabilityConfig::default(),
        cache: CacheConfig::default(),
        limits: LimitsConfig::default(),
        rate_limit: RateLimitConfig::default(),
        auth: AuthConfig::default(),
        persisted_queries: PersistedQueriesConfig::default(),
        subgraphs,
        usage: UsageConfig::default(),
    }
}

#[test]
fn maps_field_to_owner() {
    let r = SubgraphRegistry::from_config(&cfg()).unwrap();
    assert_eq!(r.subgraph_for(OpType::Query, "searchProperties").map(|s| s.as_str()), Some("property"));
    assert_eq!(r.subgraph_for(OpType::Query, "reviewSummary").map(|s| s.as_str()), Some("review"));
    assert_eq!(r.subgraph_for(OpType::Query, "unknownField"), None);
}

#[test]
fn detects_duplicate_field_ownership() {
    let mut bad = cfg();
    let mut review = test_subgraph("http://review:8085/graphql", &["reviews", "reviewSummary"]);
    review.fields.push("searchProperties".to_owned());
    bad.subgraphs.insert("review".to_owned(), review);
    let err = SubgraphRegistry::from_config(&bad).unwrap_err();
    let msg = err.message();
    assert!(msg.contains("searchProperties"), "msg: {msg}");
    assert_eq!(
        msg,
        "field \"searchProperties\" is owned by both subgraph \"property\" and subgraph \"review\""
    );
    assert!(matches!(err, RegistryError::DuplicateField { .. }));
}

#[test]
fn routes_carry_url_and_timeout() {
    let mut c = cfg();
    let mut review = test_subgraph("http://review:8085/graphql", &["reviews"]);
    review.timeout_ms = Some(250);
    review.mutations.push("addReview".to_string());
    c.subgraphs.insert("review".to_owned(), review);
    let r = SubgraphRegistry::from_config(&c).unwrap();
    let route = r.route("review").unwrap();
    assert_eq!(route.url, "http://review:8085/graphql");
    assert_eq!(route.timeout_ms, 250);
    assert_eq!(r.route("property").unwrap().timeout_ms, 1000);
    assert!(r.route("nope").is_none());
    assert_eq!(r.subgraph_for(OpType::Mutation, "addReview").map(|s| s.as_str()), Some("review"));
    assert_eq!(r.subgraph_for(OpType::Subscription, "reviews"), None);
    let names: Vec<&str> = r.all().iter().map(|(n, _)| n.as_str()).collect();
    assert_eq!(names, vec!["property", "review"]);
}

#[test]
fn routes_are_exactly_the_configured_subgraphs() {
    let mut c = cfg();
    let mut review = test_subgraph("http://review:8085/graphql", &["reviews"]);
    review.timeout_ms = Some(250);
    c.subgraphs.insert("review".to_owned(), review);
    let r = SubgraphRegistry::from_config(&c).unwrap();
    let names: Vec<&str> = r.all().iter().map(|(n, _)| n.as_str()).collect();
    assert_eq!(names, vec!["property", "review"]);
    let p = r.route("property").unwrap();
    assert_eq!((p.url.as_str(), p.timeout_ms), ("http://property:8081/graphql", 1000));
    let rv = r.route("review").unwrap();
    assert_eq!((rv.url.as_str(), rv.timeout_ms), ("http://review:8085/graphql", 250));
    assert!(r.route("pricing").is_none());
}

#[test]
fn a_field_listed_twice_by_one_subgraph_is_refused() {
    let mut c = cfg();
    let mut review = test_subgraph("http://review:8085/graphql", &["reviews"]);
    review.mutations = vec!["addReview".to_owned(), "addReview".to_owned()];
    c.subgraphs.insert("review".to_owned(), review);
    let err = SubgraphRegistry::from_config(&c).unwrap_err();
    assert_eq!(err.message(), "field \"addReview\" is owned by both subgraph \"review\" and subgraph \"review\"");
    assert_eq!(SubgraphRegistry::from_config(&cfg()).unwrap().subgraph_for(OpType::Subscription, "reviews"), None);
}
