use travelgraph_router::json::Json;
use travelgraph_router::persisted_queries::{
    load_manifest_text, persisted_hash, store_from_manifest, PersistedQueryDecision, PersistedQueryStore,
};
use travelgraph_router::strmap::StrMap;

fn obj(members: Vec<(&str, Json)>) -> Json {
    Json::Object(members.into_iter().map(|(k, v)| (k.to_string(), v)).collect())
}

fn code_of(e: &travelgraph_router::graphql::types::GraphQLError) -> String {
    match e.extensions.as_ref().and_then(|x| x.get("code")) {
        Some(Json::Str(c)) => c.clone(),
        other => panic!("no code: {other:?}"),
    }
}

#[test]
fn known_hash_uses_manifest_query() {
    let mut queries = StrMap::new();
    queries.insert("abc".to_string(), "query { me { id } }".to_string());
    let store = PersistedQueryStore { queries };
    let extensions = obj(vec![(
        "persistedQuery",
        obj(vec![("version", Json::Number("1".to_string())), ("sha256Hash", Json::Str("abc".to_string()))]),
    )]);

    assert_eq!(
        store.resolve(None, Some(&extensions), false).unwrap(),
        PersistedQueryDecision::UseStored("query { me { id } }")
    );
}

#[test]
fn unknown_hash_returns_apollo_retry_code() {
    let store = PersistedQueryStore::new();
    let extensions = obj(vec![("persistedQuery", obj(vec![("sha256Hash", Json::Str("missing".to_string()))]))]);

    let err = store.resolve(Some("query { me { id } }"), Some(&extensions), true).unwrap_err();
    assert_eq!(code_of(&err), "PERSISTED_QUERY_NOT_FOUND");
    assert_eq!(err.message, "PersistedQueryNotFound");
}

#[test]
fn arbitrary_query_requires_dev_flag() {
    let store = PersistedQueryStore::new();

    let err = store.resolve(Some("query { me { id } }"), None, false).unwrap_err();
    assert_eq!(code_of(&err), "PERSISTED_QUERY_REQUIRED");
    assert_eq!(
        store.resolve(Some("query { me { id } }"), None, true).unwrap(),
        PersistedQueryDecision::UseRequestQuery
    );
}

#[test]
fn blank_query_is_not_arbitrary() {
    let store = PersistedQueryStore::new();
    let err = store.resolve(Some("   "), None, true).unwrap_err();
    assert_eq!(code_of(&err), "PERSISTED_QUERY_REQUIRED");
}

#[test]
fn hash_is_trimmed_and_blank_hash_ignored() {
    let ext = obj(vec![("persistedQuery", obj(vec![("sha256Hash", Json::Str("  abc \n".to_string()))]))]);
    assert_eq!(persisted_hash(Some(&ext)), Some("abc".to_string()));
    let blank = obj(vec![("persistedQuery", obj(vec![("sha256Hash", Json::Str("  ".to_string()))]))]);
    assert_eq!(persisted_hash(Some(&blank)), None);
    let number = obj(vec![("persistedQuery", obj(vec![("sha256Hash", Json::Number("1".to_string()))]))]);
    assert_eq!(persisted_hash(Some(&number)), None);
    assert_eq!(persisted_hash(None), None);
}

#[test]
fn manifest_text_loads_hash_to_query() {
    let store = load_manifest_text(r#"{"abc": "{ a }", "def": "{ b }"}"#).unwrap();
    assert_eq!(store.queries.len(), 2);
    assert_eq!(store.queries.get("abc").map(|s| s.as_str()), Some("{ a }"));
    assert_eq!(store.queries.get("def").map(|s| s.as_str()), Some("{ b }"));
    let later = load_manifest_text(r#"{"abc": "{ a }", "abc": "{ c }"}"#).unwrap();
    assert_eq!(later.queries.len(), 1);
    assert_eq!(later.queries.get("abc").map(|s| s.as_str()), Some("{ c }"));
}

#[test]
fn malformed_manifests_are_refused() {
    assert!(load_manifest_text("{").unwrap_err().contains("EOF"));
    assert_eq!(
        load_manifest_text(r#"{"abc": 1}"#).unwrap_err(),
        "the manifest must be a JSON object of query strings"
    );
    assert!(load_manifest_text("[]").is_err());
    assert!(store_from_manifest(&Json::Str("x".to_string())).is_err());
    let s = store_from_manifest(&obj(vec![("h", Json::Str("q".to_string()))])).unwrap();
    assert_eq!(s.queries.get("h").map(|x| x.as_str()), Some("q"));
}
