use travelgraph_router::error::SubgraphError;
use travelgraph_router::execute::{
    build_body, entities_query, entity_calls, extract_entity_refs, initial_call, subgraph_results, subset_variables,
    FieldFetchResult, InitialFetchResult,
};
use travelgraph_router::graphql::types::GraphQLResponse;
use travelgraph_router::json::Json;
use travelgraph_router::plan::types::{EntityFetch, FieldFetch, InitialFetch, OperationKind, SelectionPath};

fn obj(members: Vec<(&str, Json)>) -> Json {
    Json::Object(members.into_iter().map(|(k, v)| (k.to_string(), v)).collect())
}

fn s(v: &str) -> Json {
    Json::Str(v.to_string())
}

fn keys(j: &Json) -> Vec<String> {
    match j {
        Json::Object(m) => m.iter().map(|(k, _)| k.clone()).collect(),
        _ => Vec::new(),
    }
}

fn field(entity_fetches: Vec<EntityFetch>) -> FieldFetch {
    FieldFetch {
        response_key: "searchProperties".to_string(),
        is_list: true,
        entity_type: Some("Property".to_string()),
        initial: InitialFetch {
            subgraph: "property".to_string(),
            url: "http://property/graphql".to_string(),
            timeout_ms: 300,
            query_text: "query Q($city: String!) { searchProperties(city: $city) { __typename id } }".to_string(),
            variable_names: vec!["city".to_string()],
        },
        entity_fetches,
        client_requested_id_keys: Vec::new(),
    }
}

fn pricing() -> EntityFetch {
    EntityFetch {
        subgraph: "pricing".to_string(),
        url: "http://pricing/graphql".to_string(),
        timeout_ms: 500,
        typename: "Property".to_string(),
        key_field: "id".to_string(),
        fragment_body: "price { totalAmount }".to_string(),
        selection_path: SelectionPath { root_key: "searchProperties".to_string(), is_list: true },
    }
}

#[test]
fn subset_keeps_only_named_variables() {
    let vars = obj(vec![("city", s("Austin")), ("other", s("x"))]);
    let names = vec!["city".to_string(), "missing".to_string()];
    let out = subset_variables(&vars, &names);
    assert_eq!(keys(&out), vec!["city".to_string()]);
    assert_eq!(keys(&subset_variables(&vars, &Vec::new())), Vec::<String>::new());
    assert_eq!(keys(&subset_variables(&Json::Null, &names)), Vec::<String>::new());
}

#[test]
fn body_has_query_variables_and_operation_name() {
    let b = build_body("{ a }", obj(vec![]), Some("Op"));
    assert_eq!(keys(&b), vec!["query".to_string(), "variables".to_string(), "operationName".to_string()]);
    let b = build_body("{ a }", obj(vec![]), None);
    assert_eq!(keys(&b), vec!["query".to_string(), "variables".to_string()]);
}

#[test]
fn entity_refs_walk_lists_and_skip_keyless_objects() {
    let data = obj(vec![(
        "searchProperties",
        Json::Array(vec![obj(vec![("id", s("1"))]), obj(vec![("name", s("n"))]), Json::Array(vec![obj(vec![("id", s("2"))])])]),
    )]);
    let refs = extract_entity_refs(Some(&data), "searchProperties", "Property", "id");
    assert_eq!(refs.len(), 2);
    assert!(matches!(&refs[0].key_value, Json::Str(v) if v == "1"));
    assert!(matches!(&refs[1].key_value, Json::Str(v) if v == "2"));
    assert_eq!(refs[0].typename, "Property");
    assert!(extract_entity_refs(Some(&data), "other", "Property", "id").is_empty());
    assert!(extract_entity_refs(None, "searchProperties", "Property", "id").is_empty());
}

#[test]
fn entities_query_text() {
    assert_eq!(
        entities_query("Property", "price { totalAmount }"),
        "query($representations: [_Any!]!) { _entities(representations: $representations) { ... on Property { price { totalAmount } } } }"
    );
}

#[test]
fn initial_call_prunes_variables() {
    let f = field(Vec::new());
    let vars = obj(vec![("city", s("Austin")), ("unused", s("x"))]);
    let headers = vec![("x-user-id", "u".to_string())];
    let call = initial_call(&f, &vars, Some("Q"), &headers, OperationKind::Query);
    assert_eq!(call.subgraph, "property");
    assert_eq!(call.timeout_ms, 300);
    assert_eq!(call.headers, headers);
    let v = call.body.get("variables").unwrap();
    assert_eq!(keys(v), vec!["city".to_string()]);
}

#[test]
fn one_batched_call_per_extender() {
    let f = field(vec![pricing()]);
    let resp = GraphQLResponse {
        data: Some(obj(vec![("searchProperties", Json::Array(vec![obj(vec![("id", s("1"))]), obj(vec![("id", s("2"))])]))])),
        errors: Vec::new(),
        extensions: None,
    };
    let (refs, calls) = entity_calls(&f, &Ok(resp), &Vec::new());
    assert_eq!(refs.len(), 2);
    assert_eq!(calls.len(), 1);
    assert_eq!(calls[0].subgraph, "pricing");
    assert_eq!(calls[0].operation, OperationKind::Query);
    match calls[0].body.get("variables").and_then(|v| v.get("representations")) {
        Some(Json::Array(reps)) => {
            assert_eq!(reps.len(), 2);
            assert_eq!(keys(&reps[0]), vec!["__typename".to_string(), "id".to_string()]);
        },
        other => panic!("unexpected {other:?}"),
    }
    let (refs, calls) = entity_calls(&f, &Err(SubgraphError::Timeout(1)), &Vec::new());
    assert!(refs.is_empty() && calls.is_empty());
}

#[test]
fn merge_input_is_the_initial_outcome() {
    let f = field(Vec::new());
    let initial = InitialFetchResult { plan: f.initial.clone(), duration_ms: 7, outcome: Err(SubgraphError::Timeout(300)) };
    let out = subgraph_results(vec![FieldFetchResult { field: f, initial, entities: Vec::new() }]);
    assert_eq!(out.len(), 1);
    assert_eq!(out[0].plan.subgraph, "property");
    assert_eq!(out[0].plan.response_keys, vec!["searchProperties".to_string()]);
    assert_eq!(out[0].duration_ms, 7);
}
