//! Field-by-field routing of an operation from the configured registry:
//! each top-level field goes to the subgraph that owns it, and each subgraph
//! gets an operation with only its fields and the variables they use.
//! Entities are planned by [`crate::plan`].

use vstd::prelude::*;
use crate::graphql::ast::{projection_text, serialize_projection, Doc, OpType, Operation, Sel, TopDef};
use crate::graphql::types::{errors_view, GraphQLError};
use crate::graphql::validate::{message_error, sel_uses, sel_uses_into};
use crate::plan::render::views_of;
use crate::registry::SubgraphRegistry;
use crate::strmap::{key_index, key_lookup, lemma_key_index, lemma_key_index_unique, lemma_key_absent};
use crate::text::str_eq;

verus! {

/// One subgraph's projection of an operation.
#[derive(Debug)]
pub struct PerSubgraphPlan {
    pub subgraph: String,
    pub query_text: String,
    /// The top-level response keys this subgraph contributes (alias if
    /// present, otherwise the field name).
    pub response_keys: Vec<String>,
}

/// The operation count of `defs` and the operation chosen: the last one
/// named `want`, or the last one when no name is wanted.
pub open spec fn pick_spec(defs: Seq<TopDef>, want: Option<Seq<char>>) -> (nat, Option<Operation>)
    decreases defs.len(),
{
    if defs.len() == 0 {
        (0, None)
    } else {
        let (c, chosen) = pick_spec(defs.drop_last(), want);
        match defs.last() {
            TopDef::Operation(op) => (
                c + 1,
                match want {
                    Some(w) => if op.name is Some && op.name->0@ == w {
                        Some(op)
                    } else {
                        chosen
                    },
                    None => Some(op),
                },
            ),
            _ => (c, chosen),
        }
    }
}

/// The operation to route, or the message of the error.
pub open spec fn pick_result(defs: Seq<TopDef>, want: Option<Seq<char>>) -> Result<Operation, Seq<char>> {
    let (count, chosen) = pick_spec(defs, want);
    if count == 0 {
        Err("Document contains no executable operations."@)
    } else if want is None && count > 1 {
        Err("Document contains multiple operations but no operationName was provided."@)
    } else {
        match chosen {
            Some(op) => Ok(op),
            None => match want {
                Some(n) => Err("Operation \""@ + n + "\" not found in document."@),
                None => Err("No operation could be selected."@),
            },
        }
    }
}

pub open spec fn fragment_message() -> Seq<char> {
    "Fragment spreads at the top level are not supported by the Phase 2 router. They will be handled by the Phase 3 query planner."@
}

pub open spec fn unowned_message(field: Seq<char>) -> Seq<char> {
    "No subgraph owns top-level field \""@ + field + "\"."@
}

/// `i` added to the bucket of `subgraph`, which is opened (last) if new.
pub open spec fn bucket_push(bs: Seq<(Seq<char>, Seq<usize>)>, subgraph: Seq<char>, i: usize) -> Seq<(Seq<char>, Seq<usize>)> {
    match key_index(bs, subgraph) {
        Some(k) => bs.update(k, (subgraph, bs[k].1.push(i))),
        None => bs.push((subgraph, seq![i])),
    }
}

/// The owner of a top-level field.
pub open spec fn owner_of(
    op_type: OpType,
    field: Seq<char>,
    queries: Seq<(Seq<char>, Seq<char>)>,
    mutations: Seq<(Seq<char>, Seq<char>)>,
) -> Option<Seq<char>> {
    match op_type {
        OpType::Query => key_lookup(queries, field),
        OpType::Mutation => key_lookup(mutations, field),
        OpType::Subscription => None,
    }
}

/// The positions of the top-level selections grouped by owning subgraph, in
/// order of first appearance; fails on the first selection that is not a
/// field or has no owner.
pub open spec fn route_selections(
    sels: Seq<Sel>,
    op_type: OpType,
    queries: Seq<(Seq<char>, Seq<char>)>,
    mutations: Seq<(Seq<char>, Seq<char>)>,
) -> Result<Seq<(Seq<char>, Seq<usize>)>, Seq<char>>
    decreases sels.len(),
{
    if sels.len() == 0 {
        Ok(Seq::empty())
    } else {
        match route_selections(sels.drop_last(), op_type, queries, mutations) {
            Err(m) => Err(m),
            Ok(bs) => match sels.last() {
                Sel::Field(f) => match owner_of(op_type, f.name@, queries, mutations) {
                    Some(s) => Ok(bucket_push(bs, s, (sels.len() - 1) as usize)),
                    None => Err(unowned_message(f.name@)),
                },
                _ => Err(fragment_message()),
            },
        }
    }
}

/// The variables the selections at `idxs` reference.
pub open spec fn bucket_uses(sels: Seq<Sel>, idxs: Seq<usize>) -> Seq<Seq<char>>
    decreases idxs.len(),
{
    if idxs.len() == 0 {
        Seq::empty()
    } else {
        bucket_uses(sels, idxs.drop_last()) + sel_uses(sels[idxs.last() as int])
    }
}

/// The positions, in order, of the first `n` variable definitions whose
/// variable is in `used`.
pub open spec fn kept_variables(op: Operation, used: Seq<Seq<char>>, n: nat) -> Seq<usize>
    decreases n,
{
    if n == 0 {
        Seq::empty()
    } else {
        kept_variables(op, used, (n - 1) as nat) + if used.contains(op.variables@[n - 1].name@) {
            seq![(n - 1) as usize]
        } else {
            Seq::empty()
        }
    }
}

pub open spec fn response_key_of(s: Sel) -> Seq<char> {
    match s {
        Sel::Field(f) => match f.alias {
            Some(a) => a@,
            None => f.name@,
        },
        _ => Seq::empty(),
    }
}

pub struct PlanView {
    pub subgraph: Seq<char>,
    pub query_text: Seq<char>,
    pub response_keys: Seq<Seq<char>>,
}

pub open spec fn plan_view(p: PerSubgraphPlan) -> PlanView {
    PlanView { subgraph: p.subgraph@, query_text: p.query_text@, response_keys: views_of(p.response_keys@) }
}

/// The projection for one bucket of operation `op` of the document parsed
/// from `source` under `path`.
pub open spec fn bucket_plan(source: Seq<char>, path: Seq<char>, op: Operation, b: (Seq<char>, Seq<usize>)) -> PlanView {
    let sels = op.selection_set@;
    PlanView {
        subgraph: b.0,
        query_text: projection_text(
            source,
            path,
            op.position,
            kept_variables(op, bucket_uses(sels, b.1), op.variables@.len()),
            b.1,
        ),
        response_keys: b.1.map_values(|i: usize| response_key_of(sels[i as int])),
    }
}

/// What [`plan`] produces for the document with definitions `defs` parsed
/// from `source` under `path`: the projections, or the message of its error.
pub open spec fn projection(
    source: Seq<char>,
    path: Seq<char>,
    defs: Seq<TopDef>,
    want: Option<Seq<char>>,
    queries: Seq<(Seq<char>, Seq<char>)>,
    mutations: Seq<(Seq<char>, Seq<char>)>,
) -> Result<Seq<PlanView>, Seq<char>> {
    match pick_result(defs, want) {
        Err(m) => Err(m),
        Ok(op) => match route_selections(op.selection_set@, op.operation_type, queries, mutations) {
            Err(m) => Err(m),
            Ok(bs) => Ok(bs.map_values(|b: (Seq<char>, Seq<usize>)| bucket_plan(source, path, op, b))),
        },
    }
}

fn pick_operation<'a>(doc: &'a Doc, operation_name: Option<&str>) -> (r: Result<&'a Operation, String>)
    ensures
        match pick_result(
            doc.definitions@,
            match operation_name {
                Some(n) => Some(n@),
                None => None,
            },
        ) {
            Ok(op) => r matches Ok(o) && *o == op,
            Err(m) => r matches Err(e) && e@ == m,
        },
        r matches Ok(o) ==> exists|k: int|
            0 <= k < doc.definitions@.len() && #[trigger] doc.definitions@[k] == TopDef::Operation(*o),
{
    let ghost want: Option<Seq<char>> = match operation_name {
        Some(n) => Some(n@),
        None => None,
    };
    let defs = &doc.definitions;
    let mut chosen: Option<&Operation> = None;
    let mut count: usize = 0;
    let mut i: usize = 0;
    while i < defs.len()
        invariant
            i <= defs.len(),
            defs@ == doc.definitions@,
            want == match operation_name {
                Some(n) => Some(n@),
                None => None::<Seq<char>>,
            },
            count <= i,
            pick_spec(defs@.take(i as int), want) == (count as nat, match chosen {
                Some(o) => Some(*o),
                None => None::<Operation>,
            }),
            chosen matches Some(o) ==> exists|k: int| 0 <= k < i && #[trigger] defs@[k] == TopDef::Operation(*o),
        decreases defs.len() - i,
    {
        assert(defs@.take(i + 1).drop_last() =~= defs@.take(i as int));
        if let TopDef::Operation(op) = &defs[i] {
            count = count + 1;
            match operation_name {
                Some(want_name) => {
                    let hit = match &op.name {
                        Some(n) => str_eq(n.as_str(), want_name),
                        None => false,
                    };
                    if hit {
                        chosen = Some(op);
                    }
                },
                None => {
                    chosen = Some(op);
                },
            }
        }
        i = i + 1;
    }
    assert(defs@.take(defs.len() as int) =~= defs@);
    if count == 0 {
        return Err("Document contains no executable operations.".to_owned());
    }
    if operation_name.is_none() && count > 1 {
        return Err("Document contains multiple operations but no operationName was provided.".to_owned());
    }
    match chosen {
        Some(op) => Ok(op),
        None => match operation_name {
            Some(name) => {
                let mut m = "Operation \"".to_owned();
                m.append(name);
                m.append("\" not found in document.");
                Err(m)
            },
            None => Err("No operation could be selected.".to_owned()),
        },
    }
}

/// Adds position `i` to the bucket of `subgraph`.
fn bucket_push_exec(bs: &mut Vec<(String, Vec<usize>)>, subgraph: &String, i: usize)
    ensures
        buckets_view(final(bs)@) == bucket_push(buckets_view(old(bs)@), subgraph@, i),
{
    let ghost before = buckets_view(bs@);
    proof {
        lemma_key_index(before, subgraph@);
    }
    let mut k: usize = 0;
    while k < bs.len()
        invariant
            k <= bs.len(),
            bs@ == old(bs)@,
            before == buckets_view(bs@),
            forall|j: int| 0 <= j < k ==> before[j].0 != subgraph@,
        decreases bs.len() - k,
    {
        assert(before[k as int].0 == bs@[k as int].0@);
        if str_eq(bs[k].0.as_str(), subgraph.as_str()) {
            proof {
                lemma_key_index_unique(before, subgraph@, k as int);
            }
            let mut v = bs[k].1.clone();
            v.push(i);
            let ghost vv = v@;
            bs.set(k, (subgraph.clone(), v));
            assert(buckets_view(bs@) =~= before.update(k as int, (subgraph@, before[k as int].1.push(i))));
            return;
        }
        k = k + 1;
    }
    proof {
        lemma_key_absent(before, subgraph@);
    }
    let mut v: Vec<usize> = Vec::new();
    v.push(i);
    bs.push((subgraph.clone(), v));
    assert(buckets_view(bs@) =~= before.push((subgraph@, seq![i])));
}

pub open spec fn buckets_view(bs: Seq<(String, Vec<usize>)>) -> Seq<(Seq<char>, Seq<usize>)> {
    bs.map_values(|b: (String, Vec<usize>)| (b.0@, b.1@))
}

proof fn lemma_route_err_extends(
    sels: Seq<Sel>,
    op_type: OpType,
    queries: Seq<(Seq<char>, Seq<char>)>,
    mutations: Seq<(Seq<char>, Seq<char>)>,
    k: int,
)
    requires
        0 <= k <= sels.len(),
        route_selections(sels.take(k), op_type, queries, mutations) is Err,
    ensures
        route_selections(sels, op_type, queries, mutations) == route_selections(sels.take(k), op_type, queries, mutations),
    decreases sels.len() - k,
{
    if k < sels.len() {
        assert(sels.take(k + 1).drop_last() =~= sels.take(k));
        lemma_route_err_extends(sels, op_type, queries, mutations, k + 1);
    } else {
        assert(sels.take(k) =~= sels);
    }
}

proof fn lemma_buckets_in_range(bs: Seq<(Seq<char>, Seq<usize>)>, s: Seq<char>, i: usize, n: usize)
    requires
        forall|a: int, b: int| 0 <= a < bs.len() && 0 <= b < bs[a].1.len() ==> #[trigger] bs[a].1[b] < n,
        i < n,
    ensures
        ({
            let r = bucket_push(bs, s, i);
            forall|a: int, b: int| 0 <= a < r.len() && 0 <= b < r[a].1.len() ==> #[trigger] r[a].1[b] < n
        }),
{
    lemma_key_index(bs, s);
    let r = bucket_push(bs, s, i);
    assert forall|a: int, b: int| 0 <= a < r.len() && 0 <= b < r[a].1.len() implies #[trigger] r[a].1[b] < n by {
        match key_index(bs, s) {
            Some(k) => {
                if a == k && b == bs[k].1.len() {
                } else if a == k {
                    assert(r[a].1[b] == bs[a].1[b]);
                } else {
                    assert(r[a] == bs[a]);
                }
            },
            None => {
                if a < bs.len() {
                    assert(r[a] == bs[a]);
                }
            },
        }
    }
}

/// What routing keeps true of its buckets: distinct subgraphs, none empty,
/// and every position in a bucket a field that the bucket's subgraph owns.
pub open spec fn buckets_owned(
    bs: Seq<(Seq<char>, Seq<usize>)>,
    sels: Seq<Sel>,
    op_type: OpType,
    queries: Seq<(Seq<char>, Seq<char>)>,
    mutations: Seq<(Seq<char>, Seq<char>)>,
) -> bool {
    &&& forall|a: int, b: int| 0 <= a < b < bs.len() ==> #[trigger] bs[a].0 != #[trigger] bs[b].0
    &&& forall|a: int| 0 <= a < bs.len() ==> (#[trigger] bs[a]).1.len() > 0
    &&& forall|a: int, k: int|
        0 <= a < bs.len() && 0 <= k < bs[a].1.len() ==> {
            let i = #[trigger] bs[a].1[k] as int;
            &&& 0 <= i < sels.len()
            &&& sels[i] is Field
            &&& owner_of(op_type, sels[i]->Field_0.name@, queries, mutations) == Some(bs[a].0)
        }
}

proof fn lemma_route_buckets_owned(
    sels: Seq<Sel>,
    op_type: OpType,
    queries: Seq<(Seq<char>, Seq<char>)>,
    mutations: Seq<(Seq<char>, Seq<char>)>,
)
    requires
        route_selections(sels, op_type, queries, mutations) is Ok,
        sels.len() <= usize::MAX,
    ensures
        buckets_owned(route_selections(sels, op_type, queries, mutations)->Ok_0, sels, op_type, queries, mutations),
    decreases sels.len(),
{
    if sels.len() > 0 {
        let d = sels.drop_last();
        lemma_route_buckets_owned(d, op_type, queries, mutations);
        let bs = route_selections(d, op_type, queries, mutations)->Ok_0;
        let f = sels.last()->Field_0;
        let s = owner_of(op_type, f.name@, queries, mutations)->0;
        let n = (sels.len() - 1) as usize;
        let r = bucket_push(bs, s, n);
        assert(sels.last() is Field);
        assert(owner_of(op_type, f.name@, queries, mutations) == Some(s));
        assert(sels[n as int] == sels.last());
        assert(route_selections(sels, op_type, queries, mutations)->Ok_0 == r);
        lemma_key_index(bs, s);
        assert forall|a: int, k: int| 0 <= a < r.len() && 0 <= k < r[a].1.len() implies {
            let i = #[trigger] r[a].1[k] as int;
            &&& 0 <= i < sels.len()
            &&& sels[i] is Field
            &&& owner_of(op_type, sels[i]->Field_0.name@, queries, mutations) == Some(r[a].0)
        } by {
            match key_index(bs, s) {
                Some(j) => {
                    if a == j && k == bs[j].1.len() {
                        assert(r[a].1[k] == n && r[a].0 == s);
                    } else if a == j {
                        assert(r[a].1[k] == bs[a].1[k]);
                        assert(d[bs[a].1[k] as int] == sels[bs[a].1[k] as int]);
                    } else {
                        assert(r[a] == bs[a]);
                        assert(d[bs[a].1[k] as int] == sels[bs[a].1[k] as int]);
                    }
                },
                None => {
                    if a < bs.len() {
                        assert(r[a] == bs[a]);
                        assert(d[bs[a].1[k] as int] == sels[bs[a].1[k] as int]);
                    } else {
                        assert(r[a].1[k] == n && r[a].0 == s);
                    }
                },
            }
        }
        assert forall|a: int, b: int| 0 <= a < b < r.len() implies #[trigger] r[a].0 != #[trigger] r[b].0 by {
            match key_index(bs, s) {
                Some(j) => {
                    assert(r[a].0 == bs[a].0 && r[b].0 == bs[b].0);
                },
                None => {
                    if b < bs.len() {
                        assert(r[a] == bs[a] && r[b] == bs[b]);
                    } else {
                        assert(r[a] == bs[a]);
                    }
                },
            }
        }
        assert forall|a: int| 0 <= a < r.len() implies (#[trigger] r[a]).1.len() > 0 by {
            match key_index(bs, s) {
                Some(j) => {
                    if a != j {
                        assert(r[a] == bs[a]);
                    }
                },
                None => {
                    if a < bs.len() {
                        assert(r[a] == bs[a]);
                    }
                },
            }
        }
    }
}

/// Top-level selection `i` of `op` is a field with response key `key` that
/// `subgraph` owns.
pub open spec fn field_owned_at(
    op: Operation,
    i: int,
    key: Seq<char>,
    subgraph: Seq<char>,
    queries: Seq<(Seq<char>, Seq<char>)>,
    mutations: Seq<(Seq<char>, Seq<char>)>,
) -> bool {
    let sels = op.selection_set@;
    &&& 0 <= i < sels.len()
    &&& sels[i] is Field
    &&& response_key_of(sels[i]) == key
    &&& owner_of(op.operation_type, sels[i]->Field_0.name@, queries, mutations) == Some(subgraph)
}

/// Some top-level field of `op` with response key `key` is owned by
/// `subgraph`.
pub open spec fn owned_field(
    op: Operation,
    key: Seq<char>,
    subgraph: Seq<char>,
    queries: Seq<(Seq<char>, Seq<char>)>,
    mutations: Seq<(Seq<char>, Seq<char>)>,
) -> bool {
    exists|i: int| #[trigger] field_owned_at(op, i, key, subgraph, queries, mutations)
}

/// Each subgraph gets one projection: the projections are for distinct
/// subgraphs, each carries at least one field, and each of its response
/// keys is that of a top-level field of the operation that its subgraph
/// owns.
pub proof fn lemma_projections_carry_owned_fields(
    source: Seq<char>,
    path: Seq<char>,
    defs: Seq<TopDef>,
    want: Option<Seq<char>>,
    queries: Seq<(Seq<char>, Seq<char>)>,
    mutations: Seq<(Seq<char>, Seq<char>)>,
)
    requires
        projection(source, path, defs, want, queries, mutations) is Ok,
    ensures
        ({
            let ps = projection(source, path, defs, want, queries, mutations)->Ok_0;
            let op = pick_result(defs, want)->Ok_0;
            let sels = op.selection_set@;
            &&& forall|a: int, b: int| 0 <= a < b < ps.len() ==> #[trigger] ps[a].subgraph != #[trigger] ps[b].subgraph
            &&& forall|a: int| 0 <= a < ps.len() ==> (#[trigger] ps[a]).response_keys.len() > 0
            &&& forall|a: int, k: int|
                0 <= a < ps.len() && 0 <= k < ps[a].response_keys.len() ==> #[trigger] owned_field(
                    op,
                    ps[a].response_keys[k],
                    ps[a].subgraph,
                    queries,
                    mutations,
                )
        }),
{
    let op = pick_result(defs, want)->Ok_0;
    let sels = op.selection_set@;
    assert(sels.len() == op.selection_set.len());
    lemma_route_buckets_owned(sels, op.operation_type, queries, mutations);
    let bs = route_selections(sels, op.operation_type, queries, mutations)->Ok_0;
    let ps = projection(source, path, defs, want, queries, mutations)->Ok_0;
    assert(ps == bs.map_values(|b: (Seq<char>, Seq<usize>)| bucket_plan(source, path, op, b)));
    assert forall|a: int, b: int| 0 <= a < b < ps.len() implies #[trigger] ps[a].subgraph != #[trigger] ps[b].subgraph by {
        assert(ps[a].subgraph == bs[a].0 && ps[b].subgraph == bs[b].0);
    }
    assert forall|a: int| 0 <= a < ps.len() implies (#[trigger] ps[a]).response_keys.len() > 0 by {
        assert(ps[a].response_keys.len() == bs[a].1.len());
    }
    assert forall|a: int, k: int| 0 <= a < ps.len() && 0 <= k < ps[a].response_keys.len() implies #[trigger] owned_field(
        op,
        ps[a].response_keys[k],
        ps[a].subgraph,
        queries,
        mutations,
    ) by {
        let i = bs[a].1[k] as int;
        assert(ps[a].response_keys[k] == response_key_of(sels[i]));
        assert(ps[a].subgraph == bs[a].0);
        assert(bs[a].1[k] == bs[a].1[k]);
        assert(field_owned_at(op, i, ps[a].response_keys[k], ps[a].subgraph, queries, mutations));
    }
}

/// Routes the selections of `op` to buckets by owning subgraph.
fn route(op: &Operation, registry: &SubgraphRegistry) -> (r: Result<Vec<(String, Vec<usize>)>, String>)
    ensures
        match route_selections(op.selection_set@, op.operation_type, registry.queries@, registry.mutations@) {
            Ok(bs) => r matches Ok(v) && buckets_view(v@) == bs && forall|a: int, b: int|
                0 <= a < bs.len() && 0 <= b < bs[a].1.len() ==> #[trigger] bs[a].1[b] < op.selection_set@.len(),
            Err(m) => r matches Err(e) && e@ == m,
        },
{
    let sels = &op.selection_set;
    let mut bs: Vec<(String, Vec<usize>)> = Vec::new();
    let mut i: usize = 0;
    assert(buckets_view(bs@) =~= Seq::<(Seq<char>, Seq<usize>)>::empty());
    while i < sels.len()
        invariant
            i <= sels.len(),
            sels@ == op.selection_set@,
            route_selections(sels@.take(i as int), op.operation_type, registry.queries@, registry.mutations@)
                == Ok::<Seq<(Seq<char>, Seq<usize>)>, Seq<char>>(buckets_view(bs@)),
            forall|a: int, b: int|
                0 <= a < buckets_view(bs@).len() && 0 <= b < buckets_view(bs@)[a].1.len() ==> #[trigger] buckets_view(
                    bs@,
                )[a].1[b] < sels@.len(),
        decreases sels.len() - i,
    {
        assert(sels@.take(i + 1).drop_last() =~= sels@.take(i as int));
        assert(sels@.take(i + 1).last() == sels@[i as int]);
        match &sels[i] {
            Sel::Field(f) => match registry.subgraph_for(op.operation_type, f.name.as_str()) {
                Some(s) => {
                    proof {
                        lemma_buckets_in_range(buckets_view(bs@), s@, i, sels.len());
                    }
                    bucket_push_exec(&mut bs, s, i);
                },
                None => {
                    let mut m = "No subgraph owns top-level field \"".to_owned();
                    m.append(f.name.as_str());
                    m.append("\".");
                    proof {
                        lemma_route_err_extends(
                            sels@,
                            op.operation_type,
                            registry.queries@,
                            registry.mutations@,
                            i + 1,
                        );
                    }
                    return Err(m);
                },
            },
            _ => {
                proof {
                    lemma_route_err_extends(sels@, op.operation_type, registry.queries@, registry.mutations@, i + 1);
                }
                return Err(
                    "Fragment spreads at the top level are not supported by the Phase 2 router. They will be handled by the Phase 3 query planner.".to_owned(),
                );
            },
        }
        i = i + 1;
    }
    assert(sels@.take(sels.len() as int) =~= sels@);
    Ok(bs)
}

fn contains_name(used: &Vec<String>, name: &String) -> (r: bool)
    ensures
        r == views_of(used@).contains(name@),
{
    let mut k: usize = 0;
    while k < used.len()
        invariant
            k <= used.len(),
            forall|j: int| 0 <= j < k ==> used@[j]@ != name@,
        decreases used.len() - k,
    {
        if str_eq(used[k].as_str(), name.as_str()) {
            assert(views_of(used@)[k as int] == name@);
            return true;
        }
        k = k + 1;
    }
    assert forall|j: int| 0 <= j < views_of(used@).len() implies views_of(used@)[j] != name@ by {
        assert(views_of(used@)[j] == used@[j]@);
    }
    false
}

/// The projection of `op` for one bucket of top-level selections.
fn project_bucket(doc: &Doc, op: &Operation, subgraph: String, idxs: Vec<usize>) -> (r: PerSubgraphPlan)
    requires
        doc.fits(TopDef::Operation(*op)),
        forall|b: int| 0 <= b < idxs@.len() ==> #[trigger] idxs@[b] < op.selection_set@.len(),
    ensures
        plan_view(r) == bucket_plan(doc.source_text(), doc.source_path(), *op, (subgraph@, idxs@)),
{
    let sels = &op.selection_set;
    let mut used: Vec<String> = Vec::new();
    let mut response_keys: Vec<String> = Vec::new();
    let mut k: usize = 0;
    assert(views_of(used@) =~= bucket_uses(sels@, idxs@.take(0)));
    while k < idxs.len()
        invariant
            k <= idxs.len(),
            sels@ == op.selection_set@,
            forall|b: int| 0 <= b < idxs@.len() ==> #[trigger] idxs@[b] < sels@.len(),
            views_of(used@) == bucket_uses(sels@, idxs@.take(k as int)),
            views_of(response_keys@) == idxs@.take(k as int).map_values(
                |i: usize| response_key_of(sels@[i as int]),
            ),
        decreases idxs.len() - k,
    {
        assert(idxs@.take(k + 1).drop_last() =~= idxs@.take(k as int));
        assert(idxs@.take(k + 1).last() == idxs@[k as int]);
        let s = &sels[idxs[k]];
        sel_uses_into(s, &mut used);
        let key = match s {
            Sel::Field(f) => match &f.alias {
                Some(a) => a.clone(),
                None => f.name.clone(),
            },
            _ => String::new(),
        };
        proof {
            reveal_strlit("");
        }
        assert(key@ == response_key_of(sels@[idxs@[k as int] as int])) by {
            if !(sels@[idxs@[k as int] as int] is Field) {
                assert(key@ =~= Seq::<char>::empty());
            }
        }
        let ghost before = views_of(response_keys@);
        response_keys.push(key);
        assert(views_of(response_keys@) =~= before.push(key@));
        assert(idxs@.take(k + 1).map_values(|i: usize| response_key_of(sels@[i as int])) =~= idxs@.take(
            k as int,
        ).map_values(|i: usize| response_key_of(sels@[i as int])).push(response_key_of(sels@[idxs@[k as int] as int])));
        k = k + 1;
    }
    assert(idxs@.take(idxs.len() as int) =~= idxs@);
    let vars = &op.variables;
    let mut kept: Vec<usize> = Vec::new();
    let mut j: usize = 0;
    while j < vars.len()
        invariant
            j <= vars.len(),
            vars@ == op.variables@,
            kept@ == kept_variables(*op, views_of(used@), j as nat),
            forall|b: int| 0 <= b < kept@.len() ==> #[trigger] kept@[b] < j,
        decreases vars.len() - j,
    {
        if contains_name(&used, &vars[j].name) {
            kept.push(j);
        }
        assert(kept@ =~= kept_variables(*op, views_of(used@), (j + 1) as nat));
        j = j + 1;
    }
    let query_text = serialize_projection(doc, op.position, &kept, &idxs);
    PerSubgraphPlan { subgraph, query_text, response_keys }
}

pub open spec fn plans_view(v: Seq<PerSubgraphPlan>) -> Seq<PlanView> {
    v.map_values(|p: PerSubgraphPlan| plan_view(p))
}

/// Routes the chosen operation field by field: one projection per owning
/// subgraph, in order of first appearance, or a single error.
pub fn plan(document: &Doc, operation_name: Option<&str>, registry: &SubgraphRegistry) -> (r: Result<
    Vec<PerSubgraphPlan>,
    Vec<GraphQLError>,
>)
    requires
        document.wf(),
    ensures
        match projection(
            document.source_text(),
            document.source_path(),
            document.definitions@,
            match operation_name {
                Some(n) => Some(n@),
                None => None,
            },
            registry.queries@,
            registry.mutations@,
        ) {
            Ok(ps) => r matches Ok(v) && plans_view(v@) == ps,
            Err(m) => r matches Err(es) && errors_view(es@) == seq![message_error(m)],
        },
{
    let op = match pick_operation(document, operation_name) {
        Ok(op) => op,
        Err(m) => {
            return Err(single_error(m));
        },
    };
    proof {
        let k = choose|k: int|
            0 <= k < document.definitions@.len() && #[trigger] document.definitions@[k] == TopDef::Operation(*op);
        assert(document.fits(document.definitions@[k]));
    }
    let bs = match route(op, registry) {
        Ok(bs) => bs,
        Err(m) => {
            return Err(single_error(m));
        },
    };
    let ghost bv = buckets_view(bs@);
    let mut plans: Vec<PerSubgraphPlan> = Vec::new();
    let mut rest = bs;
    let mut i: usize = 0;
    assert(bv.len() == rest.len());
    while rest.len() > 0
        invariant
            i + rest.len() == bv.len(),
            bv.len() <= usize::MAX,
            buckets_view(rest@) == bv.skip(i as int),
            forall|a: int, b: int|
                0 <= a < bv.len() && 0 <= b < bv[a].1.len() ==> #[trigger] bv[a].1[b] < op.selection_set@.len(),
            document.fits(TopDef::Operation(*op)),
            plans_view(plans@) == bv.take(i as int).map_values(|b: (Seq<char>, Seq<usize>)| bucket_plan(document.source_text(), document.source_path(), *op, b)),
        decreases rest.len(),
    {
        let ghost old_rest = rest@;
        let (subgraph, idxs) = rest.remove(0);
        assert(buckets_view(old_rest)[0] == bv[i as int]);
        assert(buckets_view(rest@) =~= buckets_view(old_rest).skip(1));
        assert(bv.skip(i as int).skip(1) =~= bv.skip(i + 1));
        assert forall|b: int| 0 <= b < idxs@.len() implies #[trigger] idxs@[b] < op.selection_set@.len() by {
            assert(bv[i as int].1[b] == idxs@[b]);
        }
        let p = project_bucket(document, op, subgraph, idxs);
        let ghost before = plans_view(plans@);
        plans.push(p);
        assert(plans_view(plans@) =~= before.push(plan_view(p)));
        assert(bv.take(i + 1).map_values(|b: (Seq<char>, Seq<usize>)| bucket_plan(document.source_text(), document.source_path(), *op, b)) =~= bv.take(
            i as int,
        ).map_values(|b: (Seq<char>, Seq<usize>)| bucket_plan(document.source_text(), document.source_path(), *op, b)).push(bucket_plan(document.source_text(), document.source_path(), *op, bv[i as int])));
        i = i + 1;
    }
    assert(bv.take(i as int) =~= bv);
    Ok(plans)
}

fn single_error(m: String) -> (r: Vec<GraphQLError>)
    ensures
        errors_view(r@) == seq![message_error(m@)],
{
    let mut v: Vec<GraphQLError> = Vec::new();
    let e = GraphQLError::message(m);
    let ghost ev = e@;
    v.push(e);
    assert(errors_view(v@) =~= seq![ev]);
    v
}

} // verus!
