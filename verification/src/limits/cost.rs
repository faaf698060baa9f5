//! Query depth + complexity scoring.
//!
//! Every field costs 1, or 20 when its name contains `search`, unless the
//! catalog overrides `Parent.field`; a field with a selection set adds 3,
//! and 5 more when its name looks list-shaped; a fragment spread costs 1;
//! a mutation adds 30. Sums saturate at `u32::MAX`.

use vstd::prelude::*;
use crate::graphql::ast::{Doc, OpType, Sel};
use crate::graphql::types::{GraphQLError, GraphQLErrorView};
use crate::json::{json_str, Json, JsonV, members_view, lemma_view_object};
use crate::plan::planner::{looks_like_list, looks_like_list_exec, opt_str_view, pick_op, pick_operation, Picked};
use crate::strmap::{key_lookup, StrMap};
use crate::supergraph::catalog::SupergraphCatalog;
use crate::text::{contains, contains_str, decimal, decimal_string};

verus! {

broadcast use {vstd::std_specs::vec::axiom_vec_index_decreases, vstd::seq::axiom_seq_subrange_decreases};

/// Depth and complexity of an accepted operation.
#[derive(Debug, Clone, Copy, PartialEq, Eq, Structural)]
pub struct CostReport {
    pub depth: usize,
    pub cost: u32,
}

/// Why an operation is refused before planning.
#[derive(Debug)]
pub enum CostLimitError {
    NoOperations,
    UnknownOperation(String),
    AmbiguousOperation,
    Depth { depth: usize, max_depth: usize },
    Cost { cost: u32, max_cost: u32 },
    SubscriptionBlocked,
}

pub open spec fn sat_add(a: u32, b: u32) -> u32 {
    if a + b > u32::MAX {
        u32::MAX
    } else {
        (a + b) as u32
    }
}

pub open spec fn sat_inc(d: usize) -> usize {
    if d == usize::MAX {
        usize::MAX
    } else {
        (d + 1) as usize
    }
}

pub open spec fn max_usize(a: usize, b: usize) -> usize {
    if a >= b {
        a
    } else {
        b
    }
}

/// An override clamped to `0..=i32::MAX`.
pub open spec fn clamp_cost(o: i32) -> u32 {
    if o < 0 {
        0
    } else {
        o as u32
    }
}

/// The cost of a field before its selection set: its override, else 20 for
/// search fields and 1 otherwise.
pub open spec fn field_cost(name: Seq<char>, parent: Seq<char>, overrides: Seq<(Seq<char>, i32)>) -> u32 {
    match key_lookup(overrides, parent + "."@ + name) {
        Some(o) => clamp_cost(o),
        None => if contains(name, "search"@) {
            20
        } else {
            1
        },
    }
}

/// Walks one selection at nesting `depth`, from state (deepest field seen,
/// cost so far).
pub open spec fn walk_sel(
    s: Sel,
    depth: usize,
    parent: Seq<char>,
    overrides: Seq<(Seq<char>, i32)>,
    st: (usize, u32),
) -> (usize, u32)
    decreases s,
{
    match s {
        Sel::Field(f) => {
            let d2 = max_usize(st.0, depth);
            let fc = field_cost(f.name@, parent, overrides);
            if f.selection_set.len() == 0 {
                (d2, sat_add(st.1, fc))
            } else {
                let c1 = sat_add(st.1, sat_add(fc, 3));
                let c2 = if looks_like_list(f.name@) {
                    sat_add(c1, 5)
                } else {
                    c1
                };
                walk_sels(f.selection_set@, sat_inc(depth), parent, overrides, (d2, c2))
            }
        },
        Sel::InlineFragment(i) => walk_sels(i.selection_set@, sat_inc(depth), parent, overrides, st),
        Sel::FragmentSpread(_) => (st.0, sat_add(st.1, 1)),
    }
}

pub open spec fn walk_sels(
    ss: Seq<Sel>,
    depth: usize,
    parent: Seq<char>,
    overrides: Seq<(Seq<char>, i32)>,
    st: (usize, u32),
) -> (usize, u32)
    decreases ss,
{
    if ss.len() == 0 {
        st
    } else {
        walk_sel(ss.last(), depth, parent, overrides, walk_sels(ss.drop_last(), depth, parent, overrides, st))
    }
}

fn field_cost_exec(name: &String, parent: &str, overrides: &StrMap<i32>) -> (r: u32)
    ensures
        r == field_cost(name@, parent@, overrides@),
{
    let mut key = parent.to_owned();
    key.append(".");
    key.append(name.as_str());
    match overrides.get(key.as_str()) {
        Some(o) => if *o < 0 {
            0
        } else {
            *o as u32
        },
        None => if contains_str(name.as_str(), "search") {
            20
        } else {
            1
        },
    }
}

fn walk_sel_exec(
    s: &Sel,
    depth: usize,
    parent: &str,
    overrides: &StrMap<i32>,
    st: (usize, u32),
) -> (r: (usize, u32))
    ensures
        r == walk_sel(*s, depth, parent@, overrides@, st),
    decreases s,
{
    match s {
        Sel::Field(f) => {
            let d2 = if st.0 >= depth {
                st.0
            } else {
                depth
            };
            let fc = field_cost_exec(&f.name, parent, overrides);
            if f.selection_set.len() == 0 {
                (d2, st.1.saturating_add(fc))
            } else {
                let c1 = st.1.saturating_add(fc.saturating_add(3));
                let c2 = if looks_like_list_exec(f.name.as_str()) {
                    c1.saturating_add(5)
                } else {
                    c1
                };
                walk_sels_exec(&f.selection_set, depth.saturating_add(1), parent, overrides, (d2, c2))
            }
        },
        Sel::InlineFragment(i) => walk_sels_exec(
            &i.selection_set,
            depth.saturating_add(1),
            parent,
            overrides,
            st,
        ),
        Sel::FragmentSpread(_) => (st.0, st.1.saturating_add(1)),
    }
}

fn walk_sels_exec(
    ss: &Vec<Sel>,
    depth: usize,
    parent: &str,
    overrides: &StrMap<i32>,
    st: (usize, u32),
) -> (r: (usize, u32))
    ensures
        r == walk_sels(ss@, depth, parent@, overrides@, st),
    decreases ss,
{
    let mut cur = st;
    let mut i: usize = 0;
    while i < ss.len()
        invariant
            i <= ss.len(),
            cur == walk_sels(ss@.take(i as int), depth, parent@, overrides@, st),
        decreases ss.len() - i,
    {
        assert(ss@.take(i + 1).drop_last() =~= ss@.take(i as int));
        assert(ss@.take(i + 1).last() == ss@[i as int]);
        proof {
            assert(decreases_to!(ss => ss@[i as int]));
        }
        cur = walk_sel_exec(&ss[i], depth, parent, overrides, cur);
        i = i + 1;
    }
    assert(ss@.take(ss.len() as int) =~= ss@);
    cur
}

/// The depth and cost of an operation, before the limits apply.
pub open spec fn score_of(op_sels: Seq<Sel>, is_mutation: bool, overrides: Seq<(Seq<char>, i32)>) -> (
    usize,
    u32,
) {
    let parent = if is_mutation {
        "Mutation"@
    } else {
        "Query"@
    };
    let (d, c) = walk_sels(op_sels, 1, parent, overrides, (0, 0));
    (d, if is_mutation {
        sat_add(c, 30)
    } else {
        c
    })
}

/// The outcome of [`analyze`].
pub open spec fn analysis(
    doc: Doc,
    requested: Option<Seq<char>>,
    overrides: Seq<(Seq<char>, i32)>,
    max_depth: usize,
    max_cost: u32,
) -> Result<CostReport, CostLimitErrorView> {
    match pick_op(doc.definitions@, requested) {
        Picked::NoOperations => Err(CostLimitErrorView::NoOperations),
        Picked::UnknownOperation => Err(CostLimitErrorView::UnknownOperation(requested->0)),
        Picked::AmbiguousOperation => Err(CostLimitErrorView::AmbiguousOperation),
        Picked::Found(op) => if op.operation_type == OpType::Subscription {
            Err(CostLimitErrorView::SubscriptionBlocked)
        } else {
            let (d, c) = score_of(op.selection_set@, op.operation_type == OpType::Mutation, overrides);
            if d > max_depth {
                Err(CostLimitErrorView::Depth { depth: d, max_depth })
            } else if c > max_cost {
                Err(CostLimitErrorView::Cost { cost: c, max_cost })
            } else {
                Ok(CostReport { depth: d, cost: c })
            }
        },
    }
}

pub enum CostLimitErrorView {
    NoOperations,
    UnknownOperation(Seq<char>),
    AmbiguousOperation,
    Depth { depth: usize, max_depth: usize },
    Cost { cost: u32, max_cost: u32 },
    SubscriptionBlocked,
}

impl View for CostLimitError {
    type V = CostLimitErrorView;

    open spec fn view(&self) -> CostLimitErrorView {
        match self {
            CostLimitError::NoOperations => CostLimitErrorView::NoOperations,
            CostLimitError::UnknownOperation(n) => CostLimitErrorView::UnknownOperation(n@),
            CostLimitError::AmbiguousOperation => CostLimitErrorView::AmbiguousOperation,
            CostLimitError::Depth { depth, max_depth } => CostLimitErrorView::Depth {
                depth: *depth,
                max_depth: *max_depth,
            },
            CostLimitError::Cost { cost, max_cost } => CostLimitErrorView::Cost {
                cost: *cost,
                max_cost: *max_cost,
            },
            CostLimitError::SubscriptionBlocked => CostLimitErrorView::SubscriptionBlocked,
        }
    }
}

impl CostLimitError {
    pub open spec fn spec_message(e: CostLimitErrorView) -> Seq<char> {
        match e {
            CostLimitErrorView::NoOperations => "query has no executable operations"@,
            CostLimitErrorView::UnknownOperation(n) => "operation \""@ + n + "\" not found"@,
            CostLimitErrorView::AmbiguousOperation => "multiple operations require an operationName"@,
            CostLimitErrorView::Depth { depth, max_depth } => "query nesting depth "@ + decimal(
                depth as nat,
            ) + " exceeds limit "@ + decimal(max_depth as nat),
            CostLimitErrorView::Cost { cost, max_cost } => "query complexity score "@ + decimal(
                cost as nat,
            ) + " exceeds limit "@ + decimal(max_cost as nat),
            CostLimitErrorView::SubscriptionBlocked => "subscriptions are blocked by the router"@,
        }
    }

    /// The members of the error's `extensions` object.
    pub open spec fn spec_extensions(e: CostLimitErrorView) -> Seq<(Seq<char>, JsonV)> {
        let code = seq![("code"@, JsonV::Str("GRAPHQL_COST_LIMIT"@))];
        match e {
            CostLimitErrorView::Depth { depth, max_depth } => code.push(
                ("depth"@, JsonV::Number(decimal(depth as nat))),
            ).push(("maxDepth"@, JsonV::Number(decimal(max_depth as nat)))),
            CostLimitErrorView::Cost { cost, max_cost } => code.push(
                ("cost"@, JsonV::Number(decimal(cost as nat))),
            ).push(("maxCost"@, JsonV::Number(decimal(max_cost as nat)))),
            _ => code,
        }
    }

    /// The error's text.
    pub fn message(&self) -> (r: String)
        ensures
            r@ == Self::spec_message(self@),
    {
        match self {
            CostLimitError::NoOperations => "query has no executable operations".to_owned(),
            CostLimitError::UnknownOperation(n) => {
                let mut m = "operation \"".to_owned();
                m.append(n.as_str());
                m.append("\" not found");
                m
            },
            CostLimitError::AmbiguousOperation => "multiple operations require an operationName".to_owned(),
            CostLimitError::Depth { depth, max_depth } => {
                let mut m = "query nesting depth ".to_owned();
                m.append(decimal_string(*depth as u64).as_str());
                m.append(" exceeds limit ");
                m.append(decimal_string(*max_depth as u64).as_str());
                m
            },
            CostLimitError::Cost { cost, max_cost } => {
                let mut m = "query complexity score ".to_owned();
                m.append(decimal_string(*cost as u64).as_str());
                m.append(" exceeds limit ");
                m.append(decimal_string(*max_cost as u64).as_str());
                m
            },
            CostLimitError::SubscriptionBlocked => "subscriptions are blocked by the router".to_owned(),
        }
    }

    /// The GraphQL error sent to the client: code `GRAPHQL_COST_LIMIT`, and the
    /// measured value with its limit for depth and cost refusals.
    pub fn into_graphql(self) -> (r: GraphQLError)
        ensures
            r@ == (GraphQLErrorView {
                message: Self::spec_message(self@),
                locations: Seq::empty(),
                path: Seq::empty(),
                extensions: Some(JsonV::Object(Self::spec_extensions(self@))),
            }),
    {
        let m = self.message();
        let mut ext: Vec<(String, Json)> = Vec::new();
        ext.push(("code".to_owned(), json_str("GRAPHQL_COST_LIMIT")));
        let ghost e0 = ext@;
        assert(members_view(e0) =~= seq![("code"@, JsonV::Str("GRAPHQL_COST_LIMIT"@))]);
        match &self {
            CostLimitError::Depth { depth, max_depth } => {
                let a = Json::Number(decimal_string(*depth as u64));
                let b = Json::Number(decimal_string(*max_depth as u64));
                let ghost (av, bv) = (a@, b@);
                ext.push(("depth".to_owned(), a));
                ext.push(("maxDepth".to_owned(), b));
                assert(members_view(ext@) =~= members_view(e0).push(("depth"@, av)).push(("maxDepth"@, bv)));
            },
            CostLimitError::Cost { cost, max_cost } => {
                let a = Json::Number(decimal_string(*cost as u64));
                let b = Json::Number(decimal_string(*max_cost as u64));
                let ghost (av, bv) = (a@, b@);
                ext.push(("cost".to_owned(), a));
                ext.push(("maxCost".to_owned(), b));
                assert(members_view(ext@) =~= members_view(e0).push(("cost"@, av)).push(("maxCost"@, bv)));
            },
            _ => {},
        }
        proof {
            lemma_view_object(ext);
        }
        GraphQLError::message(m).with_extensions(Json::Object(ext))
    }
}

/// Scores the requested operation and applies the depth and cost limits;
/// subscriptions are refused.
pub fn analyze(
    doc: &Doc,
    operation_name: Option<&str>,
    catalog: &SupergraphCatalog,
    max_depth: usize,
    max_cost: u32,
) -> (r: Result<CostReport, CostLimitError>)
    ensures
        match analysis(
            *doc,
            opt_str_view(operation_name),
            catalog.field_cost_overrides@,
            max_depth,
            max_cost,
        ) {
            Ok(rep) => r == Ok::<CostReport, CostLimitError>(rep),
            Err(e) => r matches Err(ce) && ce@ == e,
        },
{
    let op = match pick_operation(doc, operation_name) {
        Ok(op) => op,
        Err(Picked::UnknownOperation) => {
            let n = match operation_name {
                Some(n) => n.to_owned(),
                None => String::new(),
            };
            return Err(CostLimitError::UnknownOperation(n));
        },
        Err(Picked::AmbiguousOperation) => {
            return Err(CostLimitError::AmbiguousOperation);
        },
        Err(_) => {
            return Err(CostLimitError::NoOperations);
        },
    };
    let is_mutation = match op.operation_type {
        OpType::Subscription => {
            return Err(CostLimitError::SubscriptionBlocked);
        },
        OpType::Mutation => true,
        OpType::Query => false,
    };
    let parent = if is_mutation {
        "Mutation"
    } else {
        "Query"
    };
    let (depth, mut cost) = walk_sels_exec(
        &op.selection_set,
        1,
        parent,
        &catalog.field_cost_overrides,
        (0, 0),
    );
    if is_mutation {
        cost = cost.saturating_add(30);
    }
    if depth > max_depth {
        return Err(CostLimitError::Depth { depth, max_depth });
    }
    if cost > max_cost {
        return Err(CostLimitError::Cost { cost, max_cost });
    }
    Ok(CostReport { depth, cost })
}

/// The depth and cost of the requested operation with no limits applied.
pub fn estimate_cost(doc: &Doc, operation_name: Option<&str>, catalog: &SupergraphCatalog) -> (r:
    Result<CostReport, CostLimitError>)
    ensures
        match analysis(
            *doc,
            opt_str_view(operation_name),
            catalog.field_cost_overrides@,
            usize::MAX,
            u32::MAX,
        ) {
            Ok(rep) => r == Ok::<CostReport, CostLimitError>(rep),
            Err(e) => r matches Err(ce) && ce@ == e,
        },
{
    analyze(doc, operation_name, catalog, usize::MAX, u32::MAX)
}

/// The limits only decide acceptance: an operation accepted under some
/// limits is accepted, with the same depth and cost, under any limits at
/// least as large.
pub proof fn lemma_limits_monotone(
    doc: Doc,
    requested: Option<Seq<char>>,
    overrides: Seq<(Seq<char>, i32)>,
    max_depth: usize,
    max_cost: u32,
    max_depth2: usize,
    max_cost2: u32,
)
    requires
        analysis(doc, requested, overrides, max_depth, max_cost) is Ok,
        max_depth <= max_depth2,
        max_cost <= max_cost2,
    ensures
        analysis(doc, requested, overrides, max_depth2, max_cost2) == analysis(
            doc,
            requested,
            overrides,
            max_depth,
            max_cost,
        ),
{
}

/// An operation is refused for depth exactly when its depth exceeds the
/// limit, and for cost when its depth fits but its cost exceeds the limit.
pub proof fn lemma_limit_refusals(
    doc: Doc,
    requested: Option<Seq<char>>,
    overrides: Seq<(Seq<char>, i32)>,
    max_depth: usize,
    max_cost: u32,
)
    requires
        analysis(doc, requested, overrides, usize::MAX, u32::MAX) is Ok,
    ensures
        ({
            let rep = analysis(doc, requested, overrides, usize::MAX, u32::MAX)->Ok_0;
            &&& (analysis(doc, requested, overrides, max_depth, max_cost) matches Err(
                CostLimitErrorView::Depth { .. },
            )) <==> rep.depth > max_depth
            &&& (analysis(doc, requested, overrides, max_depth, max_cost) matches Err(
                CostLimitErrorView::Cost { .. },
            )) <==> (rep.depth <= max_depth && rep.cost > max_cost)
            &&& analysis(doc, requested, overrides, max_depth, max_cost) is Ok <==> (rep.depth <= max_depth
                && rep.cost <= max_cost)
        }),
{
}

/// Some field selection among `ss`, whose selections sit at nesting level
/// `level`, sits at level `d`. A field's sub-selections and an inline
/// fragment's selections sit one level deeper (saturating at `usize::MAX`).
pub open spec fn field_among(ss: Seq<Sel>, level: usize, d: usize) -> bool
    decreases ss,
{
    if ss.len() == 0 {
        false
    } else {
        field_among(ss.drop_last(), level, d) || field_in(ss.last(), level, d)
    }
}

/// Selection `s`, at level `level`, is or holds a field selection at level
/// `d`.
pub open spec fn field_in(s: Sel, level: usize, d: usize) -> bool
    decreases s,
{
    match s {
        Sel::Field(f) => d == level || field_among(f.selection_set@, sat_inc(level), d),
        Sel::InlineFragment(i) => field_among(i.selection_set@, sat_inc(level), d),
        Sel::FragmentSpread(_) => false,
    }
}

proof fn lemma_walk_sel_depth(s: Sel, depth: usize, parent: Seq<char>, overrides: Seq<(Seq<char>, i32)>, st: (
    usize,
    u32,
))
    ensures
        walk_sel(s, depth, parent, overrides, st).0 >= st.0,
        forall|d: usize| #[trigger] field_in(s, depth, d) ==> walk_sel(s, depth, parent, overrides, st).0 >= d,
        walk_sel(s, depth, parent, overrides, st).0 == st.0 || field_in(
            s,
            depth,
            walk_sel(s, depth, parent, overrides, st).0,
        ),
    decreases s,
{
    match s {
        Sel::Field(f) => {
            let fc = field_cost(f.name@, parent, overrides);
            let d2 = max_usize(st.0, depth);
            if f.selection_set.len() > 0 {
                let c1 = sat_add(st.1, sat_add(fc, 3));
                let c2 = if looks_like_list(f.name@) {
                    sat_add(c1, 5)
                } else {
                    c1
                };
                lemma_walk_sels_depth(f.selection_set@, sat_inc(depth), parent, overrides, (d2, c2));
                assert forall|d: usize| #[trigger] field_in(s, depth, d) implies walk_sel(
                    s,
                    depth,
                    parent,
                    overrides,
                    st,
                ).0 >= d by {
                    if d != depth {
                        assert(field_among(f.selection_set@, sat_inc(depth), d));
                    }
                }
            } else {
                assert forall|d: usize| #[trigger] field_in(s, depth, d) implies walk_sel(
                    s,
                    depth,
                    parent,
                    overrides,
                    st,
                ).0 >= d by {
                    assert(!field_among(f.selection_set@, sat_inc(depth), d));
                }
            }
        },
        Sel::InlineFragment(i) => {
            lemma_walk_sels_depth(i.selection_set@, sat_inc(depth), parent, overrides, st);
            assert forall|d: usize| #[trigger] field_in(s, depth, d) implies walk_sel(s, depth, parent, overrides, st).0
                >= d by {
                assert(field_among(i.selection_set@, sat_inc(depth), d));
            }
        },
        Sel::FragmentSpread(_) => {},
    }
}

proof fn lemma_walk_sels_depth(ss: Seq<Sel>, depth: usize, parent: Seq<char>, overrides: Seq<(Seq<char>, i32)>, st: (
    usize,
    u32,
))
    ensures
        walk_sels(ss, depth, parent, overrides, st).0 >= st.0,
        forall|d: usize| #[trigger] field_among(ss, depth, d) ==> walk_sels(ss, depth, parent, overrides, st).0 >= d,
        walk_sels(ss, depth, parent, overrides, st).0 == st.0 || field_among(
            ss,
            depth,
            walk_sels(ss, depth, parent, overrides, st).0,
        ),
    decreases ss,
{
    if ss.len() > 0 {
        let mid = walk_sels(ss.drop_last(), depth, parent, overrides, st);
        lemma_walk_sels_depth(ss.drop_last(), depth, parent, overrides, st);
        lemma_walk_sel_depth(ss.last(), depth, parent, overrides, mid);
        assert forall|d: usize| #[trigger] field_among(ss, depth, d) implies walk_sels(ss, depth, parent, overrides, st).0
            >= d by {
            if field_among(ss.drop_last(), depth, d) {
            } else {
                assert(field_in(ss.last(), depth, d));
            }
        }
    }
}

/// The depth that analysis reports, and refuses on, is the deepest nesting
/// level of a field selection of the operation (0 when it selects no
/// field): every field selection sits at most that deep, and one sits
/// exactly there. So an operation with a field deeper than `max_depth` is
/// never accepted.
pub proof fn lemma_depth_is_deepest_field(
    doc: Doc,
    requested: Option<Seq<char>>,
    overrides: Seq<(Seq<char>, i32)>,
    max_depth: usize,
    max_cost: u32,
)
    requires
        pick_op(doc.definitions@, requested) is Found,
    ensures
        ({
            let sels = pick_op(doc.definitions@, requested)->Found_0.selection_set@;
            let r = analysis(doc, requested, overrides, max_depth, max_cost);
            let reported = match r {
                Ok(rep) => Some(rep.depth),
                Err(CostLimitErrorView::Depth { depth, .. }) => Some(depth),
                _ => None,
            };
            &&& reported matches Some(d) ==> (d == 0 || field_among(sels, 1, d)) && forall|l: usize|
                #[trigger] field_among(sels, 1, l) ==> l <= d
            &&& (exists|l: usize| #[trigger] field_among(sels, 1, l) && l > max_depth) ==> !(r is Ok)
        }),
{
    let op = pick_op(doc.definitions@, requested)->Found_0;
    let is_mutation = op.operation_type == OpType::Mutation;
    let parent = if is_mutation {
        "Mutation"@
    } else {
        "Query"@
    };
    lemma_walk_sels_depth(op.selection_set@, 1, parent, overrides, (0, 0));
}

} // verus!
