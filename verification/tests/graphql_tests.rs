use travelgraph_router::graphql::parse::{diagnostics_to_errors, parse};
use travelgraph_router::graphql::types::Location;
use travelgraph_router::graphql::validate::{validate, validate_with_diagnostics};

#[test]
fn parses_a_valid_query() {
    let parsed = parse("{ searchProperties(city: \"Austin\") { id name } }").unwrap();
    assert_eq!(parsed.document.definitions.len(), 1);
}

#[test]
fn parses_a_named_query_with_variables() {
    let parsed = parse("query Q($city: String!) { searchProperties(city: $city) { id } }").unwrap();
    assert_eq!(parsed.document.definitions.len(), 1);
}

#[test]
fn syntax_error_returns_errors_with_location() {
    let result = parse("query Q { searchProperties(city: \"Austin\") { id ");
    let errs = match result {
        Ok(parsed) => panic!("expected parse failure, got {parsed:?}"),
        Err(errs) => errs,
    };
    assert!(!errs.is_empty(), "expected at least one error");
    let any_message = errs.iter().any(|e| !e.message.is_empty());
    assert!(any_message, "every error needs a non-empty message");
}

#[test]
fn valid_query_has_no_errors() {
    let parsed = parse("{ searchProperties(city: \"Austin\") { id name } }").unwrap();
    let errs = validate(&parsed.document);
    assert!(errs.is_empty(), "unexpected errors: {errs:?}");
}

#[test]
fn undeclared_variable_is_rejected() {
    let parsed = parse("query Q { searchProperties(city: $city) { id } }").unwrap();
    let errs = validate(&parsed.document);
    assert!(!errs.is_empty(), "expected at least one error");
    let mentions_city = errs.iter().any(|e| e.message.contains("$city"));
    assert!(mentions_city, "errors should mention the offending variable: {errs:?}");
}

#[test]
fn anonymous_with_named_operations_is_rejected() {
    let parsed = parse("{ a } query Named { b }").unwrap();
    let errs = validate(&parsed.document);
    assert!(!errs.is_empty(), "anonymous + named must fail validation");
}

#[test]
fn diagnostics_split_on_blank_lines_with_locations() {
    let rendered = "  Error: bad thing\n  --> operation.graphql:3:7\n\nError: other\n   at 12:40  \n";
    let errs = diagnostics_to_errors(rendered);
    assert_eq!(errs.len(), 2);
    assert_eq!(errs[0].message, "Error: bad thing\n  --> operation.graphql:3:7");
    assert_eq!(errs[0].locations, vec![Location { line: 3, column: 7 }]);
    assert_eq!(errs[1].message, "Error: other\n   at 12:40");
    assert!(errs[1].locations.is_empty());
    assert!(errs[0].path.is_empty());
    assert!(errs[0].extensions.is_none());
}

#[test]
fn diagnostics_fall_back_to_first_colon_pair() {
    let errs = diagnostics_to_errors("x: 4 : 9 : rest");
    assert_eq!(errs.len(), 1);
    assert_eq!(errs[0].locations, vec![Location { line: 4, column: 9 }]);
}

#[test]
fn blank_diagnostics_give_no_errors() {
    assert!(diagnostics_to_errors("   \n\n  ").is_empty());
}

#[test]
fn undeclared_variable_message_names_operation_once() {
    let parsed = parse("query Q { a(x: $v, y: [$v, {k: $w}]) { b(z: $v) } }").unwrap();
    let errs = validate_with_diagnostics(&parsed.document, None);
    let msgs: Vec<&str> = errs.iter().map(|e| e.message.as_str()).collect();
    assert_eq!(
        msgs,
        vec![
            "Variable \"$v\" is not declared on operation \"Q\".",
            "Variable \"$w\" is not declared on operation \"Q\".",
        ]
    );
}

#[test]
fn anonymous_operation_label_in_message() {
    let parsed = parse("{ a(x: $v) }").unwrap();
    let errs = validate_with_diagnostics(&parsed.document, None);
    assert_eq!(errs.len(), 1);
    assert_eq!(errs[0].message, "Variable \"$v\" is not declared on operation \"<anonymous>\".");
}

#[test]
fn document_without_operation_is_reported() {
    let parsed = parse("type T { a: Int }").unwrap();
    let errs = validate_with_diagnostics(&parsed.document, None);
    assert_eq!(errs.len(), 1);
    assert_eq!(errs[0].message, "Document must contain at least one operation.");
}

#[test]
fn repeated_diagnostic_messages_are_reported_once() {
    let parsed = parse("{ a }").unwrap();
    let errs = validate_with_diagnostics(&parsed.document, Some("Error: dup\n\nError: dup\n\nError: other"));
    let msgs: Vec<&str> = errs.iter().map(|e| e.message.as_str()).collect();
    assert_eq!(msgs, vec!["Error: dup", "Error: other"]);
}
