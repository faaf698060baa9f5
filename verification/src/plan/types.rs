//! Plan nodes, kept apart so the executor can read them without the planner.

use vstd::prelude::*;

verus! {

/// The kind of operation a plan executes; subscriptions are never planned.
#[derive(PartialEq, Eq, Structural, Clone, Copy, Debug)]
pub enum OperationKind {
    Query,
    Mutation,
}

/// Where the executor finds the entities an `_entities` call needs.
#[derive(Debug, Clone)]
pub struct SelectionPath {
    pub root_key: String,
    pub is_list: bool,
}

/// One batched `_entities` call to a subgraph that extends an entity type.
#[derive(Debug, Clone)]
pub struct EntityFetch {
    pub subgraph: String,
    pub url: String,
    pub timeout_ms: u64,
    /// The entity type the fragment applies to.
    pub typename: String,
    pub key_field: String,
    /// Inline-fragment body (between `... on Type {` and `}`).
    pub fragment_body: String,
    pub selection_path: SelectionPath,
}

/// The first call for a root field, to the subgraph that owns it.
#[derive(Debug, Clone)]
pub struct InitialFetch {
    pub subgraph: String,
    pub url: String,
    pub timeout_ms: u64,
    /// Self-contained operation text for this subgraph.
    pub query_text: String,
    /// Variables referenced by `query_text`, sorted and without repeats.
    pub variable_names: Vec<String>,
}

/// The plan for one top-level field selection.
#[derive(Debug, Clone)]
pub struct FieldFetch {
    pub response_key: String,
    pub is_list: bool,
    /// The entity type the field returns, when the planner found one.
    pub entity_type: Option<String>,
    pub initial: InitialFetch,
    /// One follow-up call per extending subgraph.
    pub entity_fetches: Vec<EntityFetch>,
    /// The entity's `@key` fields that the client selected itself, in
    /// selection order and without repeats.
    pub client_requested_id_keys: Vec<String>,
}

/// The plan for one operation: one [`FieldFetch`] per planned root field.
#[derive(Debug, Clone)]
pub struct ExecutionPlan {
    pub operation_kind: OperationKind,
    pub operation_name: Option<String>,
    pub field_fetches: Vec<FieldFetch>,
}

} // verus!
