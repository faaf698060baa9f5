use travelgraph_router::graphql::ast::parse_document;
use travelgraph_router::plan::planner::{plan_operation, PlanError};
use travelgraph_router::supergraph::catalog::parse as parse_supergraph;

const SUPERGRAPH: &str = r#"
schema { query: Query }
directive @join__graph(name: String!, url: String!) on ENUM_VALUE
directive @join__type(graph: join__Graph!, key: String, extension: Boolean = false) repeatable on OBJECT
directive @join__field(graph: join__Graph!) on FIELD_DEFINITION
scalar join__FieldSet

enum join__Graph {
  PROPERTY @join__graph(name: "property", url: "http://prop:8081/graphql")
  PRICING  @join__graph(name: "pricing",  url: "http://price:8082/graphql")
  REVIEW   @join__graph(name: "review",   url: "http://review:8085/graphql")
}

type Query
  @join__type(graph: PROPERTY)
  @join__type(graph: PRICING)
  @join__type(graph: REVIEW) {
  searchProperties(city: String!): [Property!]! @join__field(graph: PROPERTY)
  property(id: ID!): Property @join__field(graph: PROPERTY)
  reviewSummary(propertyId: ID!): ReviewSummary! @join__field(graph: REVIEW)
}

type Property
  @join__type(graph: PROPERTY, key: "id")
  @join__type(graph: PRICING,  key: "id", extension: true)
  @join__type(graph: REVIEW,   key: "id", extension: true) {
  id: ID!
  name: String! @join__field(graph: PROPERTY)
  price: Price @join__field(graph: PRICING)
  reviews: [Review!]! @join__field(graph: REVIEW)
}

type Price @join__type(graph: PRICING) { totalAmount: String! }
type Review @join__type(graph: REVIEW) { rating: Int! }
type ReviewSummary @join__type(graph: REVIEW) { count: Int! }
"#;

fn parse_query(src: &str) -> travelgraph_router::graphql::ast::Doc {
    parse_document(src, "q.graphql").expect("query must parse cleanly in test")
}

#[test]
fn single_subgraph_query_produces_single_subgraph_plan() {
    let cat = parse_supergraph(SUPERGRAPH).unwrap();
    let doc = parse_query("{ reviewSummary(propertyId: \"x\") { count } }");
    let plan = plan_operation(&doc, None, &cat).unwrap();
    assert_eq!(plan.field_fetches.len(), 1);
    let f = &plan.field_fetches[0];
    assert_eq!(f.initial.subgraph, "review");
    assert!(f.entity_fetches.is_empty(), "single-subgraph queries must not generate entity fetches");
}

#[test]
fn property_with_reviews_plans_initial_then_entity_fetch() {
    let cat = parse_supergraph(SUPERGRAPH).unwrap();
    let doc = parse_query("{ property(id: \"x\") { name reviews { rating } } }");
    let plan = plan_operation(&doc, None, &cat).unwrap();
    let f = &plan.field_fetches[0];
    assert_eq!(f.initial.subgraph, "property");
    assert_eq!(f.entity_type.as_deref(), Some("Property"));
    assert!(f.initial.query_text.contains("__typename"));
    assert!(f.initial.query_text.contains(" id "), "id should be projected: {}", f.initial.query_text);
    assert!(f.initial.query_text.contains("name"));
    assert!(!f.initial.query_text.contains("rating"));
    assert_eq!(f.entity_fetches.len(), 1);
    assert_eq!(f.entity_fetches[0].subgraph, "review");
    assert!(f.entity_fetches[0].fragment_body.contains("reviews"));
}

#[test]
fn search_with_price_and_reviews_plans_two_extender_fetches() {
    let cat = parse_supergraph(SUPERGRAPH).unwrap();
    let doc = parse_query(
        "{ searchProperties(city: \"Austin\") { name price { totalAmount } reviews { rating } } }",
    );
    let plan = plan_operation(&doc, None, &cat).unwrap();
    let f = &plan.field_fetches[0];
    assert_eq!(f.initial.subgraph, "property");
    let extenders: Vec<_> = f.entity_fetches.iter().map(|e| e.subgraph.as_str()).collect();
    assert!(extenders.contains(&"pricing"));
    assert!(extenders.contains(&"review"));
    assert_eq!(f.entity_fetches.len(), 2, "one batched _entities call per extending subgraph");
}

#[test]
fn unknown_root_field_is_a_plan_error() {
    let cat = parse_supergraph(SUPERGRAPH).unwrap();
    let doc = parse_query("{ unknownField }");
    let err = plan_operation(&doc, None, &cat).expect_err("unknown root must error");
    assert!(matches!(err, PlanError::UnknownRootField(_)));
}

#[test]
fn subscriptions_are_not_planned() {
    let cat = parse_supergraph(SUPERGRAPH).unwrap();
    let doc = parse_query("subscription S { reviewSummary(propertyId: \"x\") { count } }");
    let err = plan_operation(&doc, None, &cat).expect_err("subscription must error");
    assert!(matches!(err, PlanError::UnsupportedSubscription));
    assert_eq!(err.message(), "subscription operations are not supported by the router");
}

#[test]
fn plan_error_carries_plan_error_code() {
    let g = PlanError::UnknownRootField("x".to_string()).into_graphql();
    assert_eq!(g.message, "no subgraph owns root field \"x\"");
    assert!(g.path.is_empty());
    assert!(g.extensions.is_some());
}

#[test]
fn named_operation_is_picked_and_variables_forwarded() {
    let cat = parse_supergraph(SUPERGRAPH).unwrap();
    let doc = parse_query(
        "query A { property(id: \"1\") { name } } query B($c: String!, $unused: Int) { searchProperties(city: $c) { name } }",
    );
    let plan = plan_operation(&doc, Some("B"), &cat).unwrap();
    assert_eq!(plan.operation_name.as_deref(), Some("B"));
    assert_eq!(plan.field_fetches.len(), 1);
    let f = &plan.field_fetches[0];
    assert_eq!(f.response_key, "searchProperties");
    assert_eq!(f.initial.variable_names, vec!["c".to_string()]);
    assert!(f.initial.query_text.contains("$c: String!"));
    assert!(!f.initial.query_text.contains("unused"));
}

#[test]
fn initial_selection_starts_with_typename_and_key() {
    let cat = parse_supergraph(SUPERGRAPH).unwrap();
    let doc = parse_query("{ property(id: \"x\") { name price { totalAmount } } }");
    let plan = plan_operation(&doc, None, &cat).unwrap();
    let f = &plan.field_fetches[0];
    assert!(
        f.initial.query_text.contains("{ __typename id name }"),
        "initial selection: {}",
        f.initial.query_text
    );
    assert_eq!(f.entity_fetches.len(), 1);
    assert_eq!(f.entity_fetches[0].key_field, "id");
}
