use travelgraph_router::cache::ResponseCache;
use travelgraph_router::config::CacheConfig;
use travelgraph_router::graphql::ast::parse_document;
use travelgraph_router::json::Json;
use travelgraph_router::plan::planner::plan_operation;
use travelgraph_router::supergraph::catalog::parse as parse_supergraph;
use travelgraph_router::usage::collect_usage_events;

const SUPERGRAPH: &str = r#"
schema { query: Query }
directive @join__graph(name: String!, url: String!) on ENUM_VALUE
directive @join__type(graph: join__Graph!, key: String, extension: Boolean = false) repeatable on OBJECT
directive @join__field(graph: join__Graph!) on FIELD_DEFINITION
enum join__Graph {
  PROPERTY @join__graph(name: "property", url: "http://prop:8081/graphql")
  PRICING  @join__graph(name: "pricing",  url: "http://price:8082/graphql")
}
type Query @join__type(graph: PROPERTY) {
  searchProperties(city: String!): [Property!]! @join__field(graph: PROPERTY)
  property(id: ID!): Property @join__field(graph: PROPERTY)
}
type Property
  @join__type(graph: PROPERTY, key: "id")
  @join__type(graph: PRICING, key: "id", extension: true) {
  id: ID!
  name: String! @join__field(graph: PROPERTY)
  price: Price @join__field(graph: PRICING)
}
type Price @join__type(graph: PRICING) { totalAmount: String! }
"#;

#[test]
fn cache_key_is_hex_sha256_of_its_inputs() {
    let vars = Json::Object(vec![("city".to_string(), Json::Str("Austin".to_string()))]);
    let k1 = ResponseCache::cache_key("{ a }", Some("Op"), &vars, "user-1");
    let k2 = ResponseCache::cache_key("{ a }", Some("Op"), &vars, "user-1");
    let k3 = ResponseCache::cache_key("{ a }", Some("Op"), &vars, "user-2");
    let k4 = ResponseCache::cache_key("{ a }", None, &vars, "user-1");
    assert_eq!(k1, k2);
    assert_ne!(k1, k3);
    assert_ne!(k1, k4);
    assert_eq!(k1.len(), 64);
    // The hashed text is document, name, variables and identity separated by 0x1e.
    let expect = travelgraph_router::digest::hex_encode(&travelgraph_router::digest::sha256_bytes(
        "{ a }\u{1e}Op\u{1e}{\"city\":\"Austin\"}\u{1e}user-1",
    ));
    assert_eq!(k1, expect);
}

#[test]
fn sha256_of_abc() {
    let d = travelgraph_router::digest::sha256_bytes("abc");
    assert_eq!(
        travelgraph_router::digest::hex_encode(&d),
        "ba7816bf8f01cfea414140de5dae2223b00361a396177a9cb410ff61f20015ad"
    );
}

fn ttl_of(query: &str, cfg: &CacheConfig) -> u64 {
    let cat = parse_supergraph(SUPERGRAPH).unwrap();
    let doc = parse_document(query, "q.graphql").unwrap();
    let plan = plan_operation(&doc, None, &cat).unwrap();
    cfg.ttl_for_plan(&plan)
}

#[test]
fn plans_read_their_ttl_inputs() {
    let cfg = CacheConfig::default();
    assert_eq!(ttl_of("{ property(id: \"1\") { name } }", &cfg), 600);
    assert_eq!(ttl_of("{ searchProperties(city: \"x\") { name price { totalAmount } } }", &cfg), 30);
    assert_eq!(ttl_of("{ searchProperties(city: \"x\") { name } }", &cfg), 120);
    let zero = CacheConfig { ttl_property_read_sec: 0, ..CacheConfig::default() };
    assert_eq!(ttl_of("{ property(id: \"1\") { name } }", &zero), 1);
}

#[test]
fn enabled_needs_a_redis_url() {
    let mut cfg = CacheConfig::default();
    assert!(!cfg.enabled());
    cfg.enabled = true;
    assert!(!cfg.enabled());
    cfg.redis_url = "redis://cache:6379".to_string();
    assert!(cfg.enabled());
}

#[test]
fn usage_events_for_entity_fields() {
    let cat = parse_supergraph(SUPERGRAPH).unwrap();
    let doc = parse_document("query Q { searchProperties(city: \"x\") { __typename id name price { totalAmount } } }", "q.graphql").unwrap();
    let plan = plan_operation(&doc, None, &cat).unwrap();
    let events = collect_usage_events(&doc, &plan, &cat, "Q", "web", "1.0");
    let paths: Vec<&str> = events.iter().map(|e| e.field_path.as_str()).collect();
    assert_eq!(paths, vec!["searchProperties.id", "searchProperties.name", "searchProperties.price"]);
    let price = &events[2];
    assert_eq!(price.service_name, "pricing-service");
    assert_eq!(price.typename, "Property");
    assert_eq!(price.field_name, "price");
    assert_eq!(price.operation_name, "Q");
    assert_eq!(price.client_name, "web");
    assert_eq!(price.client_version, "1.0");
    assert!(price.timestamp.is_none());
}
