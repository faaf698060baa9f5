use travelgraph_router::graphql::parse::parse;
use travelgraph_router::json::Json;
use travelgraph_router::limits::cost::{analyze, estimate_cost, CostLimitError, CostReport};
use travelgraph_router::strmap::StrMap;
use travelgraph_router::supergraph::catalog::SupergraphCatalog;

fn empty_cat() -> SupergraphCatalog {
    SupergraphCatalog {
        subgraphs: StrMap::new(),
        root_query_fields: StrMap::new(),
        root_mutation_fields: StrMap::new(),
        entity_types: StrMap::new(),
        field_cost_overrides: StrMap::new(),
    }
}

#[test]
fn rejects_deep_nesting_beyond_limit() {
    let mut inner = "id".to_string();
    for i in 0..14 {
        inner = format!("f{i} {{ {inner} }}");
    }
    let q = format!("query Q {{ {inner} }}");
    let doc = parse(&q).unwrap();
    let r = analyze(&doc.document, None, &empty_cat(), 10, 10_000);
    assert!(matches!(r, Err(CostLimitError::Depth { .. })));
}

#[test]
fn rejects_cost_above_limit_with_many_search_fields() {
    let body: String = (0..55)
        .map(|i| format!("  a{i}: searchProperties(city: \"x\") {{ id }}\n"))
        .collect();
    let q = format!("query Q {{\n{body}}}");
    let doc = parse(&q).unwrap();
    let r = analyze(&doc.document, None, &empty_cat(), 100, 1000);
    assert!(matches!(r, Err(CostLimitError::Cost { cost, .. }) if cost > 1000));
}

#[test]
fn cost_override_from_catalog() {
    let mut cat = empty_cat();
    cat.field_cost_overrides.insert("Query.searchProperties".into(), 500);
    let q = r#"query Q { searchProperties(city: "A") { id } }"#;
    let doc = parse(q).unwrap();
    let r = analyze(&doc.document, None, &cat, 10, 400);
    assert!(matches!(r, Err(CostLimitError::Cost { .. })));
}

#[test]
fn scores_search_list_and_nesting() {
    // searchProperties: 20 + 3 (selection) + 5 (list-shaped); id and name: 1 each.
    let doc = parse("{ searchProperties(city: \"x\") { id name } }").unwrap();
    let r = analyze(&doc.document, None, &empty_cat(), 10, 1000).unwrap();
    assert_eq!(r, CostReport { depth: 2, cost: 30 });
}

#[test]
fn mutation_adds_thirty() {
    let doc = parse("mutation M { book(id: 1) }").unwrap();
    let r = estimate_cost(&doc.document, None, &empty_cat()).unwrap();
    assert_eq!(r, CostReport { depth: 1, cost: 31 });
}

#[test]
fn negative_override_costs_nothing() {
    let mut cat = empty_cat();
    cat.field_cost_overrides.insert("Query.a".into(), -5);
    let doc = parse("{ a b }").unwrap();
    let r = analyze(&doc.document, None, &cat, 10, 1000).unwrap();
    assert_eq!(r.cost, 1);
}

#[test]
fn subscriptions_are_blocked() {
    let doc = parse("subscription S { ticks }").unwrap();
    let r = analyze(&doc.document, None, &empty_cat(), 10, 1000);
    assert!(matches!(r, Err(CostLimitError::SubscriptionBlocked)));
}

#[test]
fn operation_selection_errors() {
    let doc = parse("query A { a } query B { b }").unwrap();
    assert!(matches!(
        analyze(&doc.document, None, &empty_cat(), 10, 1000),
        Err(CostLimitError::AmbiguousOperation)
    ));
    match analyze(&doc.document, Some("C"), &empty_cat(), 10, 1000) {
        Err(CostLimitError::UnknownOperation(n)) => assert_eq!(n, "C"),
        other => panic!("unexpected {other:?}"),
    }
    let none = parse("type T { a: Int }").unwrap();
    assert!(matches!(
        analyze(&none.document, None, &empty_cat(), 10, 1000),
        Err(CostLimitError::NoOperations)
    ));
}

#[test]
fn depth_error_becomes_graphql_error() {
    let e = CostLimitError::Depth { depth: 14, max_depth: 10 };
    assert_eq!(e.message(), "query nesting depth 14 exceeds limit 10");
    let g = e.into_graphql();
    assert_eq!(g.message, "query nesting depth 14 exceeds limit 10");
    match g.extensions {
        Some(Json::Object(members)) => {
            let keys: Vec<&str> = members.iter().map(|(k, _)| k.as_str()).collect();
            assert_eq!(keys, vec!["code", "depth", "maxDepth"]);
            assert!(matches!(&members[0].1, Json::Str(s) if s == "GRAPHQL_COST_LIMIT"));
            assert!(matches!(&members[1].1, Json::Number(n) if n == "14"));
            assert!(matches!(&members[2].1, Json::Number(n) if n == "10"));
        },
        other => panic!("unexpected extensions {other:?}"),
    }
}

#[test]
fn cost_error_becomes_graphql_error() {
    let g = CostLimitError::Cost { cost: 1101, max_cost: 1000 }.into_graphql();
    assert_eq!(g.message, "query complexity score 1101 exceeds limit 1000");
    match g.extensions {
        Some(Json::Object(members)) => {
            let keys: Vec<&str> = members.iter().map(|(k, _)| k.as_str()).collect();
            assert_eq!(keys, vec!["code", "cost", "maxCost"]);
            assert!(matches!(&members[1].1, Json::Number(n) if n == "1101"));
        },
        other => panic!("unexpected extensions {other:?}"),
    }
    let s = CostLimitError::SubscriptionBlocked.into_graphql();
    assert_eq!(s.message, "subscriptions are blocked by the router");
    assert!(matches!(s.extensions, Some(Json::Object(m)) if m.len() == 1));
}
