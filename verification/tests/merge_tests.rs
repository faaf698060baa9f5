use travelgraph_router::error::SubgraphError;
use travelgraph_router::graphql::project::PerSubgraphPlan;
use travelgraph_router::graphql::types::{GraphQLError, GraphQLResponse};
use travelgraph_router::json::Json;
use travelgraph_router::merge::{describe, merge, SubgraphResult};

fn plan(subgraph: &str, keys: &[&str]) -> PerSubgraphPlan {
    PerSubgraphPlan {
        subgraph: subgraph.to_owned(),
        query_text: String::from("{ stub }"),
        response_keys: keys.iter().map(|s| s.to_string()).collect(),
    }
}

fn obj(members: Vec<(&str, Json)>) -> Json {
    Json::Object(members.into_iter().map(|(k, v)| (k.to_string(), v)).collect())
}

fn s(v: &str) -> Json {
    Json::Str(v.to_string())
}

fn get<'a>(v: &'a Json, k: &str) -> &'a Json {
    v.get(k).expect("member present")
}

#[test]
fn merges_successful_subgraph_responses_and_preserves_their_errors() {
    let property_resp = GraphQLResponse {
        data: Some(obj(vec![("searchProperties", Json::Array(vec![obj(vec![("id", s("1"))])]))])),
        errors: vec![GraphQLError::message("warning from property".to_string())],
        extensions: None,
    };
    let review_resp = GraphQLResponse {
        data: Some(obj(vec![("reviewSummary", obj(vec![("count", Json::Number("5".to_string()))]))])),
        errors: Vec::new(),
        extensions: None,
    };

    let merged = merge(vec![
        SubgraphResult { plan: plan("property", &["searchProperties"]), duration_ms: 12, outcome: Ok(property_resp) },
        SubgraphResult { plan: plan("review", &["reviewSummary"]), duration_ms: 8, outcome: Ok(review_resp) },
    ]);

    let data = merged.response.data.unwrap();
    match get(&data, "searchProperties") {
        Json::Array(items) => assert!(matches!(get(&items[0], "id"), Json::Str(v) if v == "1")),
        other => panic!("unexpected {other:?}"),
    }
    assert!(matches!(get(get(&data, "reviewSummary"), "count"), Json::Number(n) if n == "5"));
    assert_eq!(merged.response.errors.len(), 1);
    assert_eq!(merged.response.errors[0].message, "warning from property");
    assert_eq!(merged.subgraph_durations_ms.len(), 2);
}

#[test]
fn timeout_yields_null_data_and_path_scoped_error() {
    let merged = merge(vec![
        SubgraphResult {
            plan: plan("property", &["searchProperties"]),
            duration_ms: 5,
            outcome: Ok(GraphQLResponse {
                data: Some(obj(vec![("searchProperties", Json::Array(vec![obj(vec![("id", s("1"))])]))])),
                errors: Vec::new(),
                extensions: None,
            }),
        },
        SubgraphResult {
            plan: plan("pricing", &["price"]),
            duration_ms: 1000,
            outcome: Err(SubgraphError::Timeout(1000)),
        },
    ]);

    let data = merged.response.data.unwrap();
    match get(&data, "searchProperties") {
        Json::Array(items) => assert!(matches!(get(&items[0], "id"), Json::Str(v) if v == "1")),
        other => panic!("unexpected {other:?}"),
    }
    assert!(matches!(get(&data, "price"), Json::Null), "price should be null when its subgraph timed out");

    assert_eq!(merged.response.errors.len(), 1);
    let err = &merged.response.errors[0];
    assert!(matches!(err.path.as_slice(), [Json::Str(p)] if p == "price"));
    assert!(err.message.contains("timed out"));
    let ext = err.extensions.as_ref().unwrap();
    assert!(matches!(get(ext, "code"), Json::Str(c) if c == "SUBGRAPH_TIMEOUT"));
    assert!(matches!(get(ext, "subgraph"), Json::Str(c) if c == "pricing"));
}

#[test]
fn timeout_message_uses_duration_text() {
    let (m, code) = describe(&SubgraphError::Timeout(1500));
    assert_eq!(m, "Subgraph timed out after 1.5s.");
    assert_eq!(code, "SUBGRAPH_TIMEOUT");
    let (m, _) = describe(&SubgraphError::Timeout(250));
    assert_eq!(m, "Subgraph timed out after 250ms.");
}

#[test]
fn every_error_kind_has_its_code() {
    let (m, c) = describe(&SubgraphError::BadStatus { status: 503, body: "down".to_string() });
    assert_eq!((m.as_str(), c), ("Subgraph responded with HTTP 503.", "SUBGRAPH_HTTP_ERROR"));
    let (m, c) = describe(&SubgraphError::Transport("refused".to_string()));
    assert_eq!((m.as_str(), c), ("Subgraph transport error: refused.", "SUBGRAPH_TRANSPORT_ERROR"));
    let (m, c) = describe(&SubgraphError::Decode("eof".to_string()));
    assert_eq!((m.as_str(), c), ("Subgraph returned an undecodable response: eof.", "SUBGRAPH_DECODE_ERROR"));
    let (_, c) = describe(&SubgraphError::CircuitOpen { retry_after_ms: 3000 });
    assert_eq!(c, "SUBGRAPH_CIRCUIT_OPEN");
}

#[test]
fn missing_keys_and_non_object_data_become_null() {
    let merged = merge(vec![
        SubgraphResult {
            plan: plan("a", &["x", "y"]),
            duration_ms: 1,
            outcome: Ok(GraphQLResponse { data: Some(obj(vec![("x", s("v"))])), errors: Vec::new(), extensions: None }),
        },
        SubgraphResult {
            plan: plan("b", &["z"]),
            duration_ms: 2,
            outcome: Ok(GraphQLResponse { data: Some(Json::Null), errors: Vec::new(), extensions: None }),
        },
    ]);
    let data = merged.response.data.unwrap();
    assert!(matches!(get(&data, "x"), Json::Str(v) if v == "v"));
    assert!(matches!(get(&data, "y"), Json::Null));
    assert!(matches!(get(&data, "z"), Json::Null));
    assert!(merged.response.errors.is_empty());
    assert_eq!(merged.subgraph_durations_ms, vec![("a".to_string(), 1), ("b".to_string(), 2)]);
}

#[test]
fn failed_subgraph_reports_one_error_per_key() {
    let merged = merge(vec![SubgraphResult {
        plan: plan("review", &["r1", "r2"]),
        duration_ms: 3,
        outcome: Err(SubgraphError::Transport("reset".to_string())),
    }]);
    assert_eq!(merged.response.errors.len(), 2);
    assert!(matches!(merged.response.errors[1].path.as_slice(), [Json::Str(p)] if p == "r2"));
    let data = merged.response.data.unwrap();
    assert!(matches!(get(&data, "r1"), Json::Null));
}
