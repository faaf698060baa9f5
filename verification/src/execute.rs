//! The calls a plan makes: the initial call for each root field, then, once
//! it has answered, one batched `_entities` call per extending subgraph for
//! the entities it returned. Sending them is the caller's part.

use vstd::prelude::*;
use crate::error::SubgraphError;
use crate::graphql::project::PerSubgraphPlan;
use crate::graphql::types::{opt_json_view, GraphQLResponse};
use crate::json::{
    jget,
    json_str, lemma_view_array, lemma_view_object, member, members_view, obj_insert, values_view, Json, JsonV,
};
use crate::merge::SubgraphResult;
use crate::plan::types::{EntityFetch, FieldFetch, InitialFetch, OperationKind};
use crate::reliability::dispatch::SubgraphHttpCall;
use crate::strmap::{key_insert, key_lookup};

verus! {

broadcast use {vstd::std_specs::vec::axiom_vec_index_decreases, vstd::seq::axiom_seq_subrange_decreases};

/// An entity the initial call returned: its type and its key.
#[derive(Debug)]
pub struct EntityRef {
    pub typename: String,
    pub key_field: String,
    pub key_value: Json,
}

pub struct EntityRefView {
    pub typename: Seq<char>,
    pub key_field: Seq<char>,
    pub key_value: JsonV,
}

impl View for EntityRef {
    type V = EntityRefView;

    open spec fn view(&self) -> EntityRefView {
        EntityRefView { typename: self.typename@, key_field: self.key_field@, key_value: self.key_value@ }
    }
}

pub open spec fn refs_view(v: Seq<EntityRef>) -> Seq<EntityRefView> {
    v.map_values(|r: EntityRef| r@)
}

/// What the initial call of a root field produced.
#[derive(Debug)]
pub struct InitialFetchResult {
    pub plan: InitialFetch,
    pub duration_ms: u64,
    pub outcome: Result<GraphQLResponse, SubgraphError>,
}

/// What one `_entities` call produced.
#[derive(Debug)]
pub struct EntityFetchResult {
    pub plan: EntityFetch,
    pub duration_ms: u64,
    pub representations: Vec<EntityRef>,
    pub outcome: Result<GraphQLResponse, SubgraphError>,
}

/// Everything one root field's calls produced.
#[derive(Debug)]
pub struct FieldFetchResult {
    pub field: FieldFetch,
    pub initial: InitialFetchResult,
    pub entities: Vec<EntityFetchResult>,
}

/// The request body `{"query", "variables", "operationName"?}`.
pub open spec fn body_spec(query: Seq<char>, variables: JsonV, operation_name: Option<Seq<char>>) -> JsonV {
    let base = seq![("query"@, JsonV::Str(query)), ("variables"@, variables)];
    JsonV::Object(
        match operation_name {
            Some(op) => key_insert(base, "operationName"@, JsonV::Str(op)),
            None => base,
        },
    )
}

pub open spec fn opt_str_view(o: Option<&str>) -> Option<Seq<char>> {
    match o {
        Some(s) => Some(s@),
        None => None,
    }
}

/// The JSON body of a subgraph request.
pub fn build_body(query: &str, variables: Json, operation_name: Option<&str>) -> (r: Json)
    ensures
        r@ == body_spec(query@, variables@, opt_str_view(operation_name)),
{
    let mut m: Vec<(String, Json)> = Vec::new();
    let ghost vv = variables@;
    m.push(("query".to_owned(), json_str(query)));
    m.push(("variables".to_owned(), variables));
    assert(members_view(m@) =~= seq![("query"@, JsonV::Str(query@)), ("variables"@, vv)]);
    if let Some(op) = operation_name {
        obj_insert(&mut m, "operationName".to_owned(), json_str(op));
    }
    proof {
        lemma_view_object(m);
    }
    Json::Object(m)
}

/// The variables a fetch sends: those of `names` that the request has, in
/// the order of `names`.
pub open spec fn subset_spec(variables: JsonV, names: Seq<String>) -> Seq<(Seq<char>, JsonV)>
    decreases names.len(),
{
    if names.len() == 0 {
        Seq::empty()
    } else {
        let prev = subset_spec(variables, names.drop_last());
        match variables {
            JsonV::Object(src) => match key_lookup(src, names.last()@) {
                Some(v) => key_insert(prev, names.last()@, v),
                None => prev,
            },
            _ => prev,
        }
    }
}

/// The request's variables restricted to `names` (an empty object when it
/// has none of them or they are not an object).
pub fn subset_variables(variables: &Json, names: &Vec<String>) -> (r: Json)
    ensures
        r@ == JsonV::Object(subset_spec(variables@, names@)),
{
    let mut out: Vec<(String, Json)> = Vec::new();
    let mut i: usize = 0;
    assert(members_view(out@) =~= subset_spec(variables@, names@.take(0)));
    while i < names.len()
        invariant
            i <= names.len(),
            members_view(out@) == subset_spec(variables@, names@.take(i as int)),
        decreases names.len() - i,
    {
        assert(names@.take(i + 1).drop_last() =~= names@.take(i as int));
        assert(names@.take(i + 1).last() == names@[i as int]);
        if let Json::Object(src) = variables {
            proof {
                lemma_view_object(*src);
            }
            if let Some(v) = member(src, names[i].as_str()) {
                obj_insert(&mut out, names[i].clone(), v.deep_clone());
            }
        }
        i = i + 1;
    }
    assert(names@.take(names.len() as int) =~= names@);
    proof {
        lemma_view_object(out);
    }
    Json::Object(out)
}

/// The entities in a value: each object with a `key_field` member, looking
/// through arrays (nested ones too).
pub open spec fn extract(v: JsonV, typename: Seq<char>, key_field: Seq<char>) -> Seq<EntityRefView>
    decreases v,
{
    match v {
        JsonV::Array(items) => extract_all(items, typename, key_field),
        JsonV::Object(m) => match key_lookup(m, key_field) {
            Some(kv) => seq![EntityRefView { typename, key_field, key_value: kv }],
            None => Seq::empty(),
        },
        _ => Seq::empty(),
    }
}

pub open spec fn extract_all(items: Seq<JsonV>, typename: Seq<char>, key_field: Seq<char>) -> Seq<EntityRefView>
    decreases items,
{
    if items.len() == 0 {
        Seq::empty()
    } else {
        extract_all(items.drop_last(), typename, key_field) + extract(items.last(), typename, key_field)
    }
}

/// The entities under `response_key` in a response's data.
pub open spec fn entity_refs_spec(
    data: Option<JsonV>,
    response_key: Seq<char>,
    typename: Seq<char>,
    key_field: Seq<char>,
) -> Seq<EntityRefView> {
    match data {
        Some(JsonV::Object(top)) => match key_lookup(top, response_key) {
            Some(v) => extract(v, typename, key_field),
            None => Seq::empty(),
        },
        _ => Seq::empty(),
    }
}

fn extract_into(value: &Json, typename: &str, key_field: &str, out: &mut Vec<EntityRef>)
    ensures
        refs_view(final(out)@) == refs_view(old(out)@) + extract(value@, typename@, key_field@),
    decreases value,
{
    let ghost start = refs_view(out@);
    match value {
        Json::Array(items) => {
            proof {
                lemma_view_array(*items);
            }
            extract_items(items, typename, key_field, out);
        },
        Json::Object(m) => {
            proof {
                lemma_view_object(*m);
            }
            match member(m, key_field) {
                Some(kv) => {
                    let r = EntityRef {
                        typename: typename.to_owned(),
                        key_field: key_field.to_owned(),
                        key_value: kv.deep_clone(),
                    };
                    let ghost rv = r@;
                    out.push(r);
                    assert(refs_view(out@) =~= start + seq![rv]);
                },
                None => {
                    assert(refs_view(out@) =~= start + Seq::<EntityRefView>::empty());
                },
            }
        },
        _ => {
            assert(refs_view(out@) =~= start + Seq::<EntityRefView>::empty());
        },
    }
}

fn extract_items(items: &Vec<Json>, typename: &str, key_field: &str, out: &mut Vec<EntityRef>)
    ensures
        refs_view(final(out)@) == refs_view(old(out)@) + extract_all(values_view(items@), typename@, key_field@),
    decreases items,
{
    let ghost start = refs_view(out@);
    let ghost vs = values_view(items@);
    let mut i: usize = 0;
    assert(refs_view(out@) =~= start + extract_all(vs.take(0), typename@, key_field@));
    while i < items.len()
        invariant
            i <= items.len(),
            vs == values_view(items@),
            refs_view(out@) == start + extract_all(vs.take(i as int), typename@, key_field@),
        decreases items.len() - i,
    {
        assert(vs.take(i + 1).drop_last() =~= vs.take(i as int));
        assert(vs.take(i + 1).last() == items@[i as int]@);
        proof {
            assert(decreases_to!(items => items@[i as int]));
        }
        extract_into(&items[i], typename, key_field, out);
        assert(refs_view(out@) =~= start + extract_all(vs.take(i + 1), typename@, key_field@));
        i = i + 1;
    }
    assert(vs.take(items.len() as int) =~= vs);
}

pub open spec fn opt_json_ref_view(o: Option<&Json>) -> Option<JsonV> {
    match o {
        Some(j) => Some(j@),
        None => None,
    }
}

/// The entities the initial call returned under `response_key`.
pub fn extract_entity_refs(data: Option<&Json>, response_key: &str, typename: &str, key_field: &str) -> (r:
    Vec<EntityRef>)
    ensures
        refs_view(r@) == entity_refs_spec(opt_json_ref_view(data), response_key@, typename@, key_field@),
{
    let mut out: Vec<EntityRef> = Vec::new();
    assert(refs_view(out@) =~= Seq::<EntityRefView>::empty());
    if let Some(Json::Object(top)) = data {
        proof {
            lemma_view_object(*top);
        }
        if let Some(value) = member(top, response_key) {
            extract_into(value, typename, key_field, &mut out);
            assert(refs_view(out@) =~= extract(value@, typename@, key_field@));
        }
    }
    out
}

/// The `_entities` operation for one extending subgraph.
pub open spec fn entities_query_spec(typename: Seq<char>, fragment_body: Seq<char>) -> Seq<char> {
    "query($representations: [_Any!]!) { _entities(representations: $representations) { ... on "@
        + typename + " { "@ + fragment_body + " } } }"@
}

pub fn entities_query(typename: &str, fragment_body: &str) -> (r: String)
    ensures
        r@ == entities_query_spec(typename@, fragment_body@),
{
    let mut q = "query($representations: [_Any!]!) { _entities(representations: $representations) { ... on ".to_owned();
    q.append(typename);
    q.append(" { ");
    q.append(fragment_body);
    q.append(" } } }");
    q
}

/// `{"__typename": typename, key_field: key_value}`.
pub open spec fn representation_spec(r: EntityRefView) -> JsonV {
    JsonV::Object(key_insert(seq![("__typename"@, JsonV::Str(r.typename))], r.key_field, r.key_value))
}

fn representation(r: &EntityRef) -> (j: Json)
    ensures
        j@ == representation_spec(r@),
{
    let mut m: Vec<(String, Json)> = Vec::new();
    m.push(("__typename".to_owned(), json_str(r.typename.as_str())));
    assert(members_view(m@) =~= seq![("__typename"@, JsonV::Str(r.typename@))]);
    obj_insert(&mut m, r.key_field.clone(), r.key_value.deep_clone());
    proof {
        lemma_view_object(m);
    }
    Json::Object(m)
}

/// `a` carries the same headers as `b`, in the same order.
pub open spec fn same_headers(a: Seq<(&'static str, String)>, b: Seq<(&'static str, String)>) -> bool {
    &&& a.len() == b.len()
    &&& forall|i: int| #![trigger a[i]] 0 <= i < b.len() ==> a[i].0 == b[i].0 && a[i].1@ == b[i].1@
}

fn clone_headers(h: &Vec<(&'static str, String)>) -> (r: Vec<(&'static str, String)>)
    ensures
        same_headers(r@, h@),
{
    let mut r: Vec<(&'static str, String)> = Vec::new();
    let mut i: usize = 0;
    while i < h.len()
        invariant
            i <= h.len(),
            r@.len() == i,
            forall|k: int| #![trigger r@[k]] 0 <= k < i ==> r@[k].0 == h@[k].0 && r@[k].1@ == h@[k].1@,
        decreases h.len() - i,
    {
        r.push((h[i].0, h[i].1.clone()));
        i = i + 1;
    }
    r
}

/// The first call of a root field: its operation text, with only the
/// variables it references.
pub fn initial_call(
    field: &FieldFetch,
    variables: &Json,
    operation_name: Option<&str>,
    headers: &Vec<(&'static str, String)>,
    op_kind: OperationKind,
) -> (r: SubgraphHttpCall)
    ensures
        r.subgraph@ == field.initial.subgraph@,
        r.url@ == field.initial.url@,
        r.body@ == body_spec(
            field.initial.query_text@,
            JsonV::Object(subset_spec(variables@, field.initial.variable_names@)),
            opt_str_view(operation_name),
        ),
        same_headers(r.headers@, headers@),
        r.timeout_ms == field.initial.timeout_ms,
        r.operation == op_kind,
{
    let vars = subset_variables(variables, &field.initial.variable_names);
    let body = build_body(field.initial.query_text.as_str(), vars, operation_name);
    SubgraphHttpCall {
        subgraph: field.initial.subgraph.clone(),
        url: field.initial.url.clone(),
        body,
        headers: clone_headers(headers),
        timeout_ms: field.initial.timeout_ms,
        operation: op_kind,
    }
}

/// The entities the follow-up calls ask for: those the initial call
/// returned, when the field has follow-ups and the call succeeded. They are
/// of the field's entity type (`Unknown` when none) and keyed by the first
/// follow-up's key field (`id` when none).
pub open spec fn follow_up_refs(field: FieldFetch, initial: Result<GraphQLResponse, SubgraphError>) -> Seq<EntityRefView> {
    if field.entity_fetches.len() == 0 {
        Seq::empty()
    } else {
        match initial {
            Ok(resp) => entity_refs_spec(
                opt_json_view(resp.data),
                field.response_key@,
                match field.entity_type {
                    Some(t) => t@,
                    None => "Unknown"@,
                },
                field.entity_fetches@[0].key_field@,
            ),
            Err(_) => Seq::empty(),
        }
    }
}

/// The follow-up `_entities` calls of a root field once its initial call
/// has answered: none when there are no entities to fetch, else one per
/// extending subgraph, each sent the same representations.
pub fn entity_calls(
    field: &FieldFetch,
    initial: &Result<GraphQLResponse, SubgraphError>,
    headers: &Vec<(&'static str, String)>,
) -> (r: (Vec<EntityRef>, Vec<SubgraphHttpCall>))
    ensures
        refs_view(r.0@) == follow_up_refs(*field, *initial),
        follow_up_refs(*field, *initial).len() == 0 ==> r.1@.len() == 0,
        follow_up_refs(*field, *initial).len() > 0 ==> r.1@.len() == field.entity_fetches@.len(),
        forall|i: int|
            #![trigger r.1@[i]]
            0 <= i < r.1@.len() ==> {
                let ef = field.entity_fetches@[i];
                let call = r.1@[i];
                &&& call.subgraph@ == ef.subgraph@
                &&& call.url@ == ef.url@
                &&& call.timeout_ms == ef.timeout_ms
                &&& call.operation == OperationKind::Query
                &&& same_headers(call.headers@, headers@)
                &&& call.body@ == body_spec(
                    entities_query_spec(ef.typename@, ef.fragment_body@),
                    JsonV::Object(
                        seq![
                            ("representations"@, JsonV::Array(
                                refs_view(r.0@).map_values(|x: EntityRefView| representation_spec(x)),
                            )),
                        ],
                    ),
                    None,
                )
            },
{
    let mut refs: Vec<EntityRef> = Vec::new();
    let mut calls: Vec<SubgraphHttpCall> = Vec::new();
    if field.entity_fetches.len() == 0 {
        assert(refs_view(refs@) =~= Seq::<EntityRefView>::empty());
        return (refs, calls);
    }
    match initial {
        Ok(resp) => {
            let typename = match &field.entity_type {
                Some(t) => t.as_str(),
                None => "Unknown",
            };
            refs = extract_entity_refs(
                match &resp.data {
                    Some(d) => Some(d),
                    None => None,
                },
                field.response_key.as_str(),
                typename,
                field.entity_fetches[0].key_field.as_str(),
            );
        },
        Err(_) => {
            assert(refs_view(refs@) =~= Seq::<EntityRefView>::empty());
        },
    }
    if refs.len() == 0 {
        return (refs, calls);
    }
    let ghost rv = refs_view(refs@);
    let ghost reps_v = rv.map_values(|x: EntityRefView| representation_spec(x));
    let mut reps: Vec<Json> = Vec::new();
    let mut k: usize = 0;
    while k < refs.len()
        invariant
            k <= refs.len(),
            rv == refs_view(refs@),
            reps_v == rv.map_values(|x: EntityRefView| representation_spec(x)),
            values_view(reps@) == reps_v.take(k as int),
        decreases refs.len() - k,
    {
        let j = representation(&refs[k]);
        let ghost before = values_view(reps@);
        reps.push(j);
        assert(values_view(reps@) =~= before.push(j@));
        assert(reps_v.take(k + 1) =~= reps_v.take(k as int).push(reps_v[k as int]));
        k = k + 1;
    }
    assert(reps_v.take(refs.len() as int) =~= reps_v);
    let efs = &field.entity_fetches;
    let mut i: usize = 0;
    while i < efs.len()
        invariant
            i <= efs.len(),
            efs@ == field.entity_fetches@,
            rv == refs_view(refs@),
            reps_v == rv.map_values(|x: EntityRefView| representation_spec(x)),
            values_view(reps@) == reps_v,
            calls@.len() == i,
            forall|q: int|
                #![trigger calls@[q]]
                0 <= q < i ==> {
                    let ef = field.entity_fetches@[q];
                    let call = calls@[q];
                    &&& call.subgraph@ == ef.subgraph@
                    &&& call.url@ == ef.url@
                    &&& call.timeout_ms == ef.timeout_ms
                    &&& call.operation == OperationKind::Query
                    &&& same_headers(call.headers@, headers@)
                    &&& call.body@ == body_spec(
                        entities_query_spec(ef.typename@, ef.fragment_body@),
                        JsonV::Object(seq![("representations"@, JsonV::Array(reps_v))]),
                        None,
                    )
                },
        decreases efs.len() - i,
    {
        let ef = &efs[i];
        let query = entities_query(ef.typename.as_str(), ef.fragment_body.as_str());
        let mut copies: Vec<Json> = Vec::new();
        let mut c: usize = 0;
        while c < reps.len()
            invariant
                c <= reps.len(),
                values_view(copies@) == values_view(reps@).take(c as int),
            decreases reps.len() - c,
        {
            let j = reps[c].deep_clone();
            let ghost before = values_view(copies@);
            copies.push(j);
            assert(values_view(copies@) =~= before.push(j@));
            assert(values_view(reps@).take(c + 1) =~= values_view(reps@).take(c as int).push(reps@[c as int]@));
            c = c + 1;
        }
        assert(values_view(reps@).take(reps.len() as int) =~= values_view(reps@));
        proof {
            lemma_view_array(copies);
        }
        let vars = crate::json::json_object1("representations", Json::Array(copies));
        let body = build_body(query.as_str(), vars, None);
        let call = SubgraphHttpCall {
            subgraph: ef.subgraph.clone(),
            url: ef.url.clone(),
            body,
            headers: clone_headers(headers),
            timeout_ms: ef.timeout_ms,
            operation: OperationKind::Query,
        };
        calls.push(call);
        i = i + 1;
    }
    (refs, calls)
}

/// The merge input for each root field: its initial call's outcome, filling
/// the field's response key. The answers of the `_entities` follow-ups are
/// not part of it: they are not merged into the response.
pub fn subgraph_results(results: Vec<FieldFetchResult>) -> (r: Vec<SubgraphResult>)
    ensures
        r@.len() == results@.len(),
        forall|i: int|
            #![trigger r@[i]]
            0 <= i < r@.len() ==> {
                &&& r@[i].plan.subgraph@ == results@[i].initial.plan.subgraph@
                &&& r@[i].plan.query_text@ == results@[i].initial.plan.query_text@
                &&& r@[i].plan.response_keys@.len() == 1
                &&& r@[i].plan.response_keys@[0]@ == results@[i].field.response_key@
                &&& r@[i].duration_ms == results@[i].initial.duration_ms
                &&& r@[i].outcome == results@[i].initial.outcome
            },
{
    let ghost all = results@;
    let mut out: Vec<SubgraphResult> = Vec::new();
    let mut rest = results;
    let mut i: usize = 0;
    assert(all.len() == rest.len());
    while rest.len() > 0
        invariant
            i + rest.len() == all.len(),
            all.len() <= usize::MAX,
            rest@ == all.skip(i as int),
            out@.len() == i,
            forall|q: int|
                #![trigger out@[q]]
                0 <= q < i ==> {
                    &&& out@[q].plan.subgraph@ == all[q].initial.plan.subgraph@
                    &&& out@[q].plan.query_text@ == all[q].initial.plan.query_text@
                    &&& out@[q].plan.response_keys@.len() == 1
                    &&& out@[q].plan.response_keys@[0]@ == all[q].field.response_key@
                    &&& out@[q].duration_ms == all[q].initial.duration_ms
                    &&& out@[q].outcome == all[q].initial.outcome
                },
        decreases rest.len(),
    {
        let r = rest.remove(0);
        assert(r == all[i as int]);
        assert(rest@ =~= all.skip(i + 1));
        let FieldFetchResult { field, initial, entities: _ } = r;
        let InitialFetchResult { plan, duration_ms, outcome } = initial;
        let mut keys: Vec<String> = Vec::new();
        keys.push(field.response_key);
        out.push(
            SubgraphResult {
                plan: PerSubgraphPlan { subgraph: plan.subgraph, query_text: plan.query_text, response_keys: keys },
                duration_ms,
                outcome,
            },
        );
        i = i + 1;
    }
    out
}

/// Every variable that the fetch names and the request supplies is
/// forwarded with the request's value, whatever the other names are.
pub proof fn lemma_subset_forwards_named(variables: JsonV, names: Seq<String>, j: int)
    requires
        0 <= j < names.len(),
        jget(variables, names[j]@) is Some,
    ensures
        jget(JsonV::Object(subset_spec(variables, names)), names[j]@) == jget(variables, names[j]@),
    decreases names.len(),
{
    let src = variables->Object_0;
    let prev = subset_spec(variables, names.drop_last());
    let n = names.last()@;
    let v = key_lookup(src, n);
    if j < names.len() - 1 {
        assert(names.drop_last()[j] == names[j]);
        lemma_subset_forwards_named(variables, names.drop_last(), j);
    }
    if v is Some {
        crate::strmap::lemma_lookup_after_insert(prev, n, v->0, names[j]@);
    }
}


/// The variables sent to a subgraph are among those it references, with the
/// values the request gave them.
pub proof fn lemma_subset_only_named(variables: JsonV, names: Seq<String>, k: int)
    requires
        0 <= k < subset_spec(variables, names).len(),
    ensures
        exists|j: int| 0 <= j < names.len() && #[trigger] names[j]@ == subset_spec(variables, names)[k].0,
        variables matches JsonV::Object(src) && key_lookup(src, subset_spec(variables, names)[k].0) == Some(
            subset_spec(variables, names)[k].1,
        ),
    decreases names.len(),
{
    let prev = subset_spec(variables, names.drop_last());
    let cur = subset_spec(variables, names);
    let n = names.last()@;
    crate::strmap::lemma_key_index(prev, n);
    match variables {
        JsonV::Object(src) => match key_lookup(src, n) {
            Some(v) => {
                match crate::strmap::key_index(prev, n) {
                    Some(idx) => {
                        if k == idx {
                            assert(names[names.len() - 1]@ == cur[k].0);
                        } else {
                            lemma_subset_only_named(variables, names.drop_last(), k);
                            let j = choose|j: int| 0 <= j < names.drop_last().len() && #[trigger] names.drop_last()[j]@ == prev[k].0;
                            assert(names[j] == names.drop_last()[j]);
                        }
                    },
                    None => {
                        if k == prev.len() {
                            assert(names[names.len() - 1]@ == cur[k].0);
                        } else {
                            lemma_subset_only_named(variables, names.drop_last(), k);
                            let j = choose|j: int| 0 <= j < names.drop_last().len() && #[trigger] names.drop_last()[j]@ == prev[k].0;
                            assert(names[j] == names.drop_last()[j]);
                        }
                    },
                }
            },
            None => {
                lemma_subset_only_named(variables, names.drop_last(), k);
                let j = choose|j: int| 0 <= j < names.drop_last().len() && #[trigger] names.drop_last()[j]@ == prev[k].0;
                assert(names[j] == names.drop_last()[j]);
            },
        },
        _ => {
            lemma_subset_only_named(variables, names.drop_last(), k);
            let j = choose|j: int| 0 <= j < names.drop_last().len() && #[trigger] names.drop_last()[j]@ == prev[k].0;
            assert(names[j] == names.drop_last()[j]);
        },
    }
}
} // verus!
