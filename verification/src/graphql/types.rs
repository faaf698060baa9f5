//! The GraphQL request and response envelope
//! (<https://spec.graphql.org/October2021/#sec-Response-Format>).

use vstd::prelude::*;
use crate::json::{Json, JsonV, values_view};

verus! {

/// `POST /graphql` body.
#[derive(Debug)]
pub struct GraphQLRequest {
    pub query: String,
    pub operation_name: Option<String>,
    /// An empty object when the client sent none.
    pub variables: Json,
    /// Request extensions such as `persistedQuery`.
    pub extensions: Option<Json>,
}

/// `{ "line": 1, "column": 5 }`.
#[derive(Debug, Clone, Copy, PartialEq, Eq, Structural)]
pub struct Location {
    pub line: usize,
    pub column: usize,
}

#[derive(Debug)]
pub struct GraphQLError {
    pub message: String,
    pub locations: Vec<Location>,
    pub path: Vec<Json>,
    pub extensions: Option<Json>,
}

pub struct GraphQLErrorView {
    pub message: Seq<char>,
    pub locations: Seq<Location>,
    pub path: Seq<JsonV>,
    pub extensions: Option<JsonV>,
}

pub open spec fn opt_json_view(o: Option<Json>) -> Option<JsonV> {
    match o {
        Some(j) => Some(j@),
        None => None,
    }
}

impl View for GraphQLError {
    type V = GraphQLErrorView;

    open spec fn view(&self) -> GraphQLErrorView {
        GraphQLErrorView {
            message: self.message@,
            locations: self.locations@,
            path: values_view(self.path@),
            extensions: opt_json_view(self.extensions),
        }
    }
}

pub open spec fn errors_view(v: Seq<GraphQLError>) -> Seq<GraphQLErrorView> {
    v.map_values(|e: GraphQLError| e@)
}

/// The response envelope. `data` is `None` when the request never executed
/// (parse or validation failure) and `Some(null)` when a field failed.
#[derive(Debug)]
pub struct GraphQLResponse {
    pub data: Option<Json>,
    pub errors: Vec<GraphQLError>,
    pub extensions: Option<Json>,
}

impl GraphQLError {
    /// An error with only a message.
    pub fn message(message: String) -> (r: GraphQLError)
        ensures
            r@ == (GraphQLErrorView {
                message: message@,
                locations: Seq::empty(),
                path: Seq::empty(),
                extensions: None,
            }),
    {
        let r = GraphQLError { message, locations: Vec::new(), path: Vec::new(), extensions: None };
        assert(values_view(r.path@) =~= Seq::<JsonV>::empty());
        r
    }

    /// The error with its `path` replaced.
    pub fn with_path(self, path: Vec<Json>) -> (r: GraphQLError)
        ensures
            r@ == (GraphQLErrorView { path: values_view(path@), ..self@ }),
    {
        GraphQLError { path, ..self }
    }

    /// The error with its `extensions` set.
    pub fn with_extensions(self, ext: Json) -> (r: GraphQLError)
        ensures
            r@ == (GraphQLErrorView { extensions: Some(ext@), ..self@ }),
    {
        GraphQLError { extensions: Some(ext), ..self }
    }
}

} // verus!
