use travelgraph_router::supergraph::catalog::{parse, SupergraphError};

const FIXTURE: &str = r#"
schema
  @link(url: "https://specs.apollo.dev/link/v1.0")
  @link(url: "https://specs.apollo.dev/join/v0.3", for: EXECUTION) {
  query: Query
}

directive @join__graph(name: String!, url: String!) on ENUM_VALUE
directive @join__type(graph: join__Graph!, key: String, extension: Boolean = false) repeatable on OBJECT
directive @join__field(graph: join__Graph!) on FIELD_DEFINITION

scalar join__FieldSet

enum join__Graph {
  PROPERTY @join__graph(name: "property", url: "http://property:8081/graphql")
  PRICING  @join__graph(name: "pricing",  url: "http://pricing:8082/graphql")
  REVIEW   @join__graph(name: "review",   url: "http://review:8085/graphql")
}

type Query
  @join__type(graph: PROPERTY)
  @join__type(graph: PRICING)
  @join__type(graph: REVIEW) {
  searchProperties(city: String!): [Property!]! @join__field(graph: PROPERTY)
  property(id: ID!): Property @join__field(graph: PROPERTY)
  price(propertyId: ID!): Price @join__field(graph: PRICING)
  reviews(propertyId: ID!): [Review!]! @join__field(graph: REVIEW)
}

type Property
  @join__type(graph: PROPERTY, key: "id")
  @join__type(graph: PRICING, key: "id", extension: true)
  @join__type(graph: REVIEW, key: "id", extension: true) {
  id: ID!
  name: String! @join__field(graph: PROPERTY)
  price: Price @join__field(graph: PRICING)
  reviews: [Review!]! @join__field(graph: REVIEW)
}

type Price @join__type(graph: PRICING) {
  totalAmount: String!
}

type Review @join__type(graph: REVIEW) {
  rating: Int!
}
"#;

#[test]
fn parses_subgraphs_and_routes() {
    let cat = parse(FIXTURE).unwrap();
    assert_eq!(cat.subgraphs.len(), 3);
    assert!(cat.subgraphs.contains_key("property"));
    assert_eq!(cat.subgraphs.get("pricing").unwrap().url, "http://pricing:8082/graphql");
}

#[test]
fn maps_root_query_fields_to_owning_subgraphs() {
    let cat = parse(FIXTURE).unwrap();
    assert_eq!(cat.root_query_fields.get("searchProperties").unwrap(), "property");
    assert_eq!(cat.root_query_fields.get("price").unwrap(), "pricing");
    assert_eq!(cat.root_query_fields.get("reviews").unwrap(), "review");
    assert!(!cat.root_query_fields.contains_key("_service"));
}

#[test]
fn captures_property_owner_and_extenders() {
    let cat = parse(FIXTURE).unwrap();
    let prop = cat.entity_types.get("Property").unwrap();
    assert_eq!(prop.owner, "property");
    assert_eq!(prop.key_fields, vec!["id".to_string()]);
    let extenders: Vec<&str> = prop.extenders.iter().map(|e| e.subgraph.as_str()).collect();
    assert!(extenders.contains(&"pricing"));
    assert!(extenders.contains(&"review"));
    assert_eq!(prop.field_owners.get("price").unwrap(), "pricing");
    assert_eq!(prop.field_owners.get("reviews").unwrap(), "review");
    assert_eq!(prop.field_owners.get("name").unwrap(), "property");
}

#[test]
fn routes_default_to_the_standard_timeout() {
    let cat = parse(FIXTURE).unwrap();
    assert_eq!(cat.subgraphs.get("review").unwrap().timeout_ms, 1000);
    assert!(cat.field_cost_overrides.entries.is_empty());
}

#[test]
fn unparsable_supergraph_is_a_parse_error() {
    let err = parse("type {").unwrap_err();
    assert!(matches!(err, SupergraphError::Parse(_)));
}
