use travelgraph_router::config::{
    AuthConfig, CacheConfig, Config, HttpClientConfig, LimitsConfig, PersistedQueriesConfig, RateLimitConfig,
    ReliabilityConfig, Server, SubgraphConfig, SupergraphPath, UsageConfig,
};
use travelgraph_router::graphql::parse::parse;
use travelgraph_router::graphql::project::plan;
use travelgraph_router::registry::SubgraphRegistry;
use travelgraph_router::strmap::StrMap;

fn registry() -> SubgraphRegistry {
    let mut subgraphs = StrMap::new();
    subgraphs.insert(
        "property".to_owned(),
        SubgraphConfig {
            url: "http://property/graphql".into(),
            fields: vec!["searchProperties".into(), "property".into()],
            mutations: vec![],
            timeout_ms: None,
        },
    );
    subgraphs.insert(
        "review".to_owned(),
        SubgraphConfig {
            url: "http://review/graphql".into(),
            fields: vec!["reviewSummary".into()],
            mutations: vec![],
            timeout_ms: None,
        },
    );
    SubgraphRegistry::from_config(&Config {
        server: Server { port: 8080, default_subgraph_timeout_ms: 1000 },
        supergraph: SupergraphPath { path: "supergraph.graphql".to_string() },
        timeouts: StrMap::new(),
        http_client: HttpClientConfig::default(),
        reliability: ReliabilityConfig::default(),
        cache: CacheConfig::default(),
        limits: LimitsConfig::default(),
        rate_limit: RateLimitConfig::default(),
        auth: AuthConfig::default(),
        persisted_queries: PersistedQueriesConfig::default(),
        subgraphs,
        usage: UsageConfig::default(),
    })
    .unwrap()
}

#[test]
fn produces_one_plan_per_subgraph_with_expected_response_keys() {
    let r = registry();
    let parsed = parse(
        "{ searchProperties(city: \"Austin\") { id name } reviewSummary(propertyId: \"00000000-0000-0000-0000-000000000001\") { count } }",
    )
    .unwrap();
    let plans = plan(&parsed.document, None, &r).unwrap();
    assert_eq!(plans.len(), 2);
    let property_plan = plans.iter().find(|p| p.subgraph == "property").unwrap();
    let review_plan = plans.iter().find(|p| p.subgraph == "review").unwrap();
    assert_eq!(property_plan.response_keys, vec!["searchProperties"]);
    assert_eq!(review_plan.response_keys, vec!["reviewSummary"]);
    assert!(property_plan.query_text.contains("searchProperties"));
    assert!(!property_plan.query_text.contains("reviewSummary"));
    assert!(review_plan.query_text.contains("reviewSummary"));
    assert!(!review_plan.query_text.contains("searchProperties"));
}

#[test]
fn unknown_field_is_a_routing_error() {
    let r = registry();
    let parsed = parse("{ thisFieldDoesNotExist }").unwrap();
    let errs = plan(&parsed.document, None, &r).unwrap_err();
    assert!(errs[0].message.contains("thisFieldDoesNotExist"));
}

#[test]
fn variables_follow_the_fields_that_use_them() {
    let r = registry();
    let parsed = parse(
        "query Q($c: String!, $p: ID!) { s: searchProperties(city: $c) { id } reviewSummary(propertyId: $p) { count } property(id: $p) { name } }",
    )
    .unwrap();
    let plans = plan(&parsed.document, None, &r).unwrap();
    assert_eq!(plans.len(), 2);
    assert_eq!(plans[0].subgraph, "property");
    assert_eq!(plans[0].response_keys, vec!["s", "property"]);
    assert!(plans[0].query_text.contains("$c"));
    assert!(plans[0].query_text.contains("$p"));
    assert_eq!(plans[1].subgraph, "review");
    assert!(plans[1].query_text.contains("$p"));
    assert!(!plans[1].query_text.contains("$c"));
}

#[test]
fn operation_choice_errors() {
    let r = registry();
    let two = parse("query A { property(id: 1) { name } } query B { reviewSummary(propertyId: 1) { count } }").unwrap();
    let errs = plan(&two.document, None, &r).unwrap_err();
    assert_eq!(errs[0].message, "Document contains multiple operations but no operationName was provided.");
    let errs = plan(&two.document, Some("C"), &r).unwrap_err();
    assert_eq!(errs[0].message, "Operation \"C\" not found in document.");
    let plans = plan(&two.document, Some("B"), &r).unwrap();
    assert_eq!(plans[0].subgraph, "review");
    let frag = parse("{ ... on Query { property(id: 1) { name } } }").unwrap();
    let errs = plan(&frag.document, None, &r).unwrap_err();
    assert_eq!(errs.len(), 1);
    assert!(errs[0].message.starts_with("Fragment spreads at the top level"));
}
