//! The decisions of a `POST /graphql` request, in the order the handler
//! takes them: persisted-query resolution, parsing, validation and the cost
//! estimate; then, unless the cache answered, the depth and complexity
//! limits and planning; after execution, how the request is counted, and
//! whether its response is published as usage and cached. The handler does
//! the I/O between these steps.

use vstd::prelude::*;
use crate::config::{CacheConfig, Config, LimitsConfig, ReliabilityConfig};
use crate::reliability::circuit::CircuitBreakerConfig;
use crate::graphql::ast::{standalone_validation, Doc};
use crate::graphql::parse::{parse, parse_result};
use crate::graphql::types::{errors_view, GraphQLError, GraphQLErrorView, GraphQLRequest, GraphQLResponse};
use crate::graphql::validate::{validate, validation_errors};
use crate::json::JsonV;
use crate::limits::cost::{analysis, analyze, estimate_cost, CostLimitError};
use crate::persisted_queries::{opt_json_ref_view, resolution, PersistedQueryDecision, PersistedQueryStore};
use crate::plan::planner::{opt_str_view, plan_matches, plan_of, plan_operation, PlanError};
use crate::plan::types::{ExecutionPlan, OperationKind};
use crate::strmap::{key_insert, key_lookup, StrMap};
use crate::supergraph::catalog::{RouteView, SupergraphCatalog, SupergraphRoute};
use crate::text::{chars_of, is_blank, trim};
use crate::config::{default_subgraph_timeouts_ms, default_timeouts_spec};

verus! {

/// The label requests are logged and counted under: the operation name, or
/// `<anonymous>`.
pub fn operation_label(operation_name: Option<&str>) -> (r: String)
    ensures
        r@ == match operation_name {
            Some(n) => n@,
            None => "<anonymous>"@,
        },
{
    match operation_name {
        Some(n) => n.to_owned(),
        None => "<anonymous>".to_owned(),
    }
}

/// The built-in timeouts with the configured ones stored over them, in order.
pub open spec fn merged_timeouts(overrides: Seq<(Seq<char>, u64)>) -> Seq<(Seq<char>, u64)>
    decreases overrides.len(),
{
    if overrides.len() == 0 {
        default_timeouts_spec()
    } else {
        key_insert(merged_timeouts(overrides.drop_last()), overrides.last().0, overrides.last().1)
    }
}

/// The per-subgraph timeouts (ms): the built-in ones, overridden by the
/// configuration's `[timeouts]`.
pub fn merge_timeout_defaults(cfg: &Config) -> (r: StrMap<u64>)
    ensures
        r@ == merged_timeouts(cfg.timeouts@),
{
    let mut m = default_subgraph_timeouts_ms();
    let es = &cfg.timeouts.entries;
    let ghost ov = cfg.timeouts@;
    let mut i: usize = 0;
    while i < es.len()
        invariant
            i <= es.len(),
            ov == cfg.timeouts@,
            ov.len() == es.len(),
            forall|k: int| 0 <= k < es.len() ==> #[trigger] ov[k] == (es@[k].0@, es@[k].1),
            m@ == merged_timeouts(ov.take(i as int)),
        decreases es.len() - i,
    {
        assert(ov.take(i + 1).drop_last() =~= ov.take(i as int));
        assert(ov.take(i + 1).last() == ov[i as int]);
        m.insert(es[i].0.clone(), es[i].1);
        i = i + 1;
    }
    assert(ov.take(es.len() as int) =~= ov);
    m
}

/// The catalog's routes with each timeout set from `timeouts`, or to
/// `fallback` for a subgraph that has none.
pub open spec fn routes_with_timeouts(
    routes: Seq<(Seq<char>, RouteView)>,
    timeouts: Seq<(Seq<char>, u64)>,
    fallback: u64,
) -> Seq<(Seq<char>, RouteView)> {
    routes.map_values(
        |e: (Seq<char>, RouteView)|
            (
                e.0,
                RouteView {
                    timeout_ms: match key_lookup(timeouts, e.0) {
                        Some(t) => t,
                        None => fallback,
                    },
                    ..e.1
                },
            ),
    )
}

/// Whole seconds as milliseconds, `u64::MAX` where that does not fit.
pub open spec fn secs_to_ms(secs: u64) -> u64 {
    if secs * 1000 <= u64::MAX {
        (secs * 1000) as u64
    } else {
        u64::MAX
    }
}

fn ms_of_secs(secs: u64) -> (r: u64)
    ensures
        r == secs_to_ms(secs),
{
    if secs <= u64::MAX / 1000 {
        secs * 1000
    } else {
        u64::MAX
    }
}

/// The breaker settings that the reliability section configures.
pub fn breaker_config(r: &ReliabilityConfig) -> (c: CircuitBreakerConfig)
    ensures
        c.window_ms == secs_to_ms(r.circuit_window_sec),
        c.min_samples == r.circuit_min_samples,
        c.failure_ratio_ppm == r.circuit_failure_ratio_ppm,
        c.recovery_ms == secs_to_ms(r.circuit_open_recovery_sec),
{
    CircuitBreakerConfig {
        window_ms: ms_of_secs(r.circuit_window_sec),
        min_samples: r.circuit_min_samples,
        failure_ratio_ppm: r.circuit_failure_ratio_ppm,
        recovery_ms: ms_of_secs(r.circuit_open_recovery_sec),
    }
}

/// Whether the router connects to Redis: the cache is enabled and has a URL.
pub fn cache_wanted(c: &CacheConfig) -> (r: bool)
    ensures
        r == (c.enabled && c.redis_url@.len() > 0),
{
    c.enabled && chars_of(c.redis_url.as_str()).len() > 0
}

/// Where the persisted-query store comes from.
#[derive(Debug, Clone, Copy, PartialEq, Eq, Structural)]
pub enum ManifestSource {
    /// Read the manifest file (reading a missing file fails start-up).
    Load,
    /// Start with an empty store.
    Empty,
}

/// The manifest is read when it exists; a missing one gives an empty store
/// only when arbitrary queries are allowed, and is read (and fails)
/// otherwise.
pub fn manifest_source(manifest_exists: bool, allow_arbitrary_queries: bool) -> (r: ManifestSource)
    ensures
        r == (if !manifest_exists && allow_arbitrary_queries {
            ManifestSource::Empty
        } else {
            ManifestSource::Load
        }),
{
    if manifest_exists {
        ManifestSource::Load
    } else if allow_arbitrary_queries {
        ManifestSource::Empty
    } else {
        ManifestSource::Load
    }
}

/// Sets every subgraph's timeout: its `[timeouts]` entry, else its built-in
/// timeout, else the server default.
pub fn apply_timeout_overrides(catalog: &mut SupergraphCatalog, cfg: &Config)
    ensures
        final(catalog).subgraphs@ == routes_with_timeouts(
            old(catalog).subgraphs@,
            merged_timeouts(cfg.timeouts@),
            cfg.server.default_subgraph_timeout_ms,
        ),
        final(catalog).root_query_fields == old(catalog).root_query_fields,
        final(catalog).root_mutation_fields == old(catalog).root_mutation_fields,
        final(catalog).entity_types == old(catalog).entity_types,
        final(catalog).field_cost_overrides == old(catalog).field_cost_overrides,
{
    let defaults = merge_timeout_defaults(cfg);
    let fallback = cfg.server.default_subgraph_timeout_ms;
    let ghost target = routes_with_timeouts(catalog.subgraphs@, defaults@, fallback);
    let mut entries: Vec<(String, SupergraphRoute)> = Vec::new();
    let mut i: usize = 0;
    while i < catalog.subgraphs.entries.len()
        invariant
            i <= catalog.subgraphs.entries.len(),
            catalog.subgraphs@ == old(catalog).subgraphs@,
            target == routes_with_timeouts(catalog.subgraphs@, defaults@, fallback),
            crate::strmap::entries_view(entries@) == target.take(i as int),
        decreases catalog.subgraphs.entries.len() - i,
    {
        let (name, route) = (&catalog.subgraphs.entries[i].0, &catalog.subgraphs.entries[i].1);
        let ms = match defaults.get(name.as_str()) {
            Some(t) => *t,
            None => fallback,
        };
        let ghost before = crate::strmap::entries_view(entries@);
        entries.push(
            (name.clone(), SupergraphRoute { name: route.name.clone(), url: route.url.clone(), timeout_ms: ms }),
        );
        assert(catalog.subgraphs@[i as int] == (name@, route@));
        assert(crate::strmap::entries_view(entries@) =~= before.push(target[i as int]));
        assert(target.take(i + 1) =~= target.take(i as int).push(target[i as int]));
        i = i + 1;
    }
    assert(target.take(catalog.subgraphs.entries.len() as int) =~= target);
    catalog.subgraphs = StrMap { entries };
}

/// Whether a response may be cached: a query, for a known caller, that
/// produced data and no errors.
pub fn response_cacheable(plan: &ExecutionPlan, identity: Option<&str>, resp: &GraphQLResponse) -> (r: bool)
    ensures
        r == (plan.operation_kind == OperationKind::Query && (match identity {
            Some(s) => s@.len() > 0,
            None => false,
        }) && resp.errors@.len() == 0 && resp.data is Some),
{
    let known = match identity {
        Some(s) => {
            let e = crate::text::str_eq(s, "");
            proof {
                reveal_strlit("");
                if s@.len() == 0 {
                    assert(s@ =~= ""@);
                }
            }
            !e
        },
        None => false,
    };
    plan.operation_kind == OperationKind::Query && known && resp.errors.len() == 0 && resp.data.is_some()
}

/// The outcome of the steps before the cache.
#[derive(Debug)]
pub enum Admission {
    /// Answer now with this HTTP status and these errors; count the request
    /// under `outcome`.
    Reject { status: u16, errors: Vec<GraphQLError>, outcome: &'static str },
    /// Go on with this document text and its syntax tree; `complexity` is
    /// its unlimited cost score when it has one.
    Accept { query: String, document: Doc, complexity: Option<u32> },
}

/// The document text a request runs, once the safelist has ruled: the stored
/// text, or the request's own.
pub open spec fn chosen_query(decided: Option<Seq<char>>, request_query: Seq<char>) -> Seq<char> {
    match decided {
        Some(q) => q,
        None => request_query,
    }
}

/// What the steps after the safelist decide for document text `query`.
pub open spec fn document_admission(
    a: Admission,
    query: Seq<char>,
    operation_name: Option<Seq<char>>,
    overrides: Seq<(Seq<char>, i32)>,
) -> bool {
    match parse_result(query) {
        Err(es) => a matches Admission::Reject { status, errors, outcome } && status == 400 && errors_view(
            errors@,
        ) == es && outcome@ == "parse_error"@,
        Ok(defs) => {
            let ve = validation_errors(defs, standalone_validation(query, "operation.graphql"@));
            if ve.len() > 0 {
                a matches Admission::Reject { status, errors, outcome } && status == 200 && errors_view(
                    errors@,
                ) == ve && outcome@ == "validation_error"@
            } else {
                a matches Admission::Accept { query: q, document, complexity } && q@ == query
                    && document.definitions@ == defs && document.source_text() == query
                    && document.source_path() == "operation.graphql"@ && document.wf() && complexity
                    == match analysis(
                    document,
                    operation_name,
                    overrides,
                    usize::MAX,
                    u32::MAX,
                ) {
                    Ok(rep) => Some(rep.cost),
                    Err(_) => None::<u32>,
                }
            }
        },
    }
}

/// What [`accept_request`] decides, given the safelist's ruling `res`.
pub open spec fn request_admission(
    a: Admission,
    res: Result<Option<Seq<char>>, GraphQLErrorView>,
    request_query: Seq<char>,
    operation_name: Option<Seq<char>>,
    overrides: Seq<(Seq<char>, i32)>,
) -> bool {
    match res {
        Err(e) => a matches Admission::Reject { status, errors, outcome } && status == 200 && errors_view(
            errors@,
        ) == seq![e] && outcome@ == "persisted_query_error"@,
        Ok(decided) => document_admission(a, chosen_query(decided, request_query), operation_name, overrides),
    }
}

/// Resolves, parses, validates and scores a request's document.
pub fn accept_request(
    store: &PersistedQueryStore,
    allow_arbitrary_queries: bool,
    req: &GraphQLRequest,
    catalog: &SupergraphCatalog,
) -> (r: Admission)
    ensures
        request_admission(
            r,
            resolution(
                store.queries@,
                if trim(req.query@).len() > 0 {
                    Some(req.query@)
                } else {
                    None
                },
                crate::graphql::types::opt_json_view(req.extensions),
                allow_arbitrary_queries,
            ),
            req.query@,
            crate::plan::planner::opt_string_view(req.operation_name),
            catalog.field_cost_overrides@,
        ),
{
    let request_query = if is_blank(req.query.as_str()) {
        None
    } else {
        Some(req.query.as_str())
    };
    let ext = match &req.extensions {
        Some(e) => Some(e),
        None => None,
    };
    let ghost res = resolution(
        store.queries@,
        if trim(req.query@).len() > 0 {
            Some(req.query@)
        } else {
            None
        },
        crate::graphql::types::opt_json_view(req.extensions),
        allow_arbitrary_queries,
    );
    assert(opt_json_ref_view(ext) == crate::graphql::types::opt_json_view(req.extensions));
    let query = match store.resolve(request_query, ext, allow_arbitrary_queries) {
        Ok(PersistedQueryDecision::UseStored(q)) => q.to_owned(),
        Ok(PersistedQueryDecision::UseRequestQuery) => req.query.clone(),
        Err(e) => {
            let mut errors: Vec<GraphQLError> = Vec::new();
            let ghost ev = e@;
            errors.push(e);
            assert(errors_view(errors@) =~= seq![ev]);
            let r = Admission::Reject { status: 200, errors, outcome: "persisted_query_error" };
            assert(request_admission(r, res, req.query@, crate::plan::planner::opt_string_view(req.operation_name), catalog.field_cost_overrides@));
            return r;
        },
    };
    let ghost opn = crate::plan::planner::opt_string_view(req.operation_name);
    let ghost cq = chosen_query(res->Ok_0, req.query@);
    assert(res is Ok);
    assert(query@ == cq);
    let doc = match parse(query.as_str()) {
        Ok(p) => p.document,
        Err(errors) => {
            let r = Admission::Reject { status: 400, errors, outcome: "parse_error" };
            assert(document_admission(r, cq, opn, catalog.field_cost_overrides@));
            assert(request_admission(r, res, req.query@, opn, catalog.field_cost_overrides@));
            return r;
        },
    };
    let errors = validate(&doc);
    if errors.len() > 0 {
        let r = Admission::Reject { status: 200, errors, outcome: "validation_error" };
        assert(document_admission(r, cq, opn, catalog.field_cost_overrides@));
        assert(request_admission(r, res, req.query@, opn, catalog.field_cost_overrides@));
        return r;
    }
    let op_name = match &req.operation_name {
        Some(n) => Some(n.as_str()),
        None => None,
    };
    let complexity = match estimate_cost(&doc, op_name, catalog) {
        Ok(rep) => Some(rep.cost),
        Err(_) => None,
    };
    let r = Admission::Accept { query, document: doc, complexity };
    assert(document_admission(r, cq, opn, catalog.field_cost_overrides@));
    assert(request_admission(r, res, req.query@, opn, catalog.field_cost_overrides@));
    r
}

/// Why a request that passed admission is still answered without running.
pub open spec fn refusal_spec(
    doc: Doc,
    operation_name: Option<Seq<char>>,
    catalog: crate::supergraph::catalog::CatalogView,
    limits: (usize, u32),
) -> Option<(GraphQLErrorView, Seq<char>)> {
    match analysis(doc, operation_name, catalog.field_cost_overrides, limits.0, limits.1) {
        Err(e) => Some(
            (
                GraphQLErrorView {
                    message: CostLimitError::spec_message(e),
                    locations: Seq::empty(),
                    path: Seq::empty(),
                    extensions: Some(JsonV::Object(CostLimitError::spec_extensions(e))),
                },
                "cost_limit_error"@,
            ),
        ),
        Ok(_) => match plan_of(doc, operation_name, catalog) {
            Err(pe) => Some(
                (
                    GraphQLErrorView {
                        message: PlanError::spec_message(pe),
                        locations: Seq::empty(),
                        path: Seq::empty(),
                        extensions: Some(JsonV::Object(seq![("code"@, JsonV::Str("PLAN_ERROR"@))])),
                    },
                    "plan_error"@,
                ),
            ),
            Ok(_) => None,
        },
    }
}

/// Applies the depth and complexity limits, then plans the operation:
/// the plan, or the error to answer with and the outcome to count.
pub fn plan_request(
    doc: &Doc,
    operation_name: Option<&str>,
    catalog: &SupergraphCatalog,
    limits: &LimitsConfig,
) -> (r: Result<ExecutionPlan, (GraphQLError, &'static str)>)
    ensures
        match refusal_spec(*doc, opt_str_view(operation_name), catalog@, (limits.max_depth, limits.max_cost)) {
            Some((e, outcome)) => r matches Err(x) && x.0@ == e && x.1@ == outcome,
            None => r matches Ok(p) && plan_of(*doc, opt_str_view(operation_name), catalog@) matches Ok(v)
                && plan_matches(p, v),
        },
{
    match analyze(doc, operation_name, catalog, limits.max_depth, limits.max_cost) {
        Err(e) => {
            return Err((e.into_graphql(), "cost_limit_error"));
        },
        Ok(_) => {},
    }
    match plan_operation(doc, operation_name, catalog) {
        Ok(p) => Ok(p),
        Err(e) => Err((e.into_graphql(), "plan_error")),
    }
}

/// What the handler does once the response is merged.
#[derive(Debug, Clone, Copy, PartialEq, Eq, Structural)]
pub struct Completion {
    /// `true` when the response has no errors: the request counts as `ok`,
    /// else as `graphql_error`.
    pub ok: bool,
    /// Whether field usage is published.
    pub publish_usage: bool,
    /// Whether the response is stored in the cache (when caching is on).
    pub cacheable: bool,
}

/// How a request counts once answered.
pub fn completion_outcome(c: &Completion) -> (r: &'static str)
    ensures
        r@ == if c.ok {
            "ok"@
        } else {
            "graphql_error"@
        },
{
    if c.ok {
        "ok"
    } else {
        "graphql_error"
    }
}

/// Decides the bookkeeping of an executed request: its outcome, whether
/// usage is published (successful requests, when enabled) and whether the
/// response may be cached.
pub fn complete(plan: &ExecutionPlan, response: &GraphQLResponse, identity: &str, usage_enabled: bool) -> (r:
    Completion)
    ensures
        r.ok == (response.errors@.len() == 0),
        r.publish_usage == (r.ok && usage_enabled),
        r.cacheable == (plan.operation_kind == OperationKind::Query && identity@.len() > 0
            && response.errors@.len() == 0 && response.data is Some),
{
    let ok = response.errors.len() == 0;
    Completion {
        ok,
        publish_usage: ok && usage_enabled,
        cacheable: response_cacheable(plan, Some(identity), response),
    }
}

} // verus!
