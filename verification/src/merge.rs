//! Folds subgraph results into one `{ data, errors }` envelope.
//!
//! A subgraph that answered contributes the values of its response keys
//! (`null` where its data lacks one) and its errors verbatim. A subgraph that
//! failed sets each of its keys to `null` and adds one error per key, pinned
//! to that key's path. A failed field never fails the whole request.

use vstd::prelude::*;
use crate::error::{duration_debug, duration_debug_text, SubgraphError};
use crate::graphql::project::PerSubgraphPlan;
use crate::graphql::types::{errors_view, opt_json_view, GraphQLError, GraphQLErrorView, GraphQLResponse};
use crate::json::{json_str, lemma_view_object, member, members_view, obj_insert, values_view, Json, JsonV};
use crate::strmap::{key_insert, key_lookup};
use crate::text::{decimal, decimal_string};

verus! {

/// What one subgraph call produced.
#[derive(Debug)]
pub struct SubgraphResult {
    pub plan: PerSubgraphPlan,
    pub duration_ms: u64,
    pub outcome: Result<GraphQLResponse, SubgraphError>,
}

/// The merged envelope and each subgraph's call duration, in call order.
#[derive(Debug)]
pub struct MergedResponse {
    pub response: GraphQLResponse,
    pub subgraph_durations_ms: Vec<(String, u64)>,
}

/// The message and `extensions.code` reported for a failed call.
pub open spec fn describe_spec(e: SubgraphError) -> (Seq<char>, Seq<char>) {
    match e {
        SubgraphError::Timeout(ms) => (
            "Subgraph timed out after "@ + duration_debug(ms) + "."@,
            "SUBGRAPH_TIMEOUT"@,
        ),
        SubgraphError::BadStatus { status, .. } => (
            "Subgraph responded with HTTP "@ + decimal(status as nat) + "."@,
            "SUBGRAPH_HTTP_ERROR"@,
        ),
        SubgraphError::Transport(m) => ("Subgraph transport error: "@ + m@ + "."@, "SUBGRAPH_TRANSPORT_ERROR"@),
        SubgraphError::Decode(m) => (
            "Subgraph returned an undecodable response: "@ + m@ + "."@,
            "SUBGRAPH_DECODE_ERROR"@,
        ),
        SubgraphError::CircuitOpen { retry_after_ms } => (
            "Subgraph circuit breaker is open; retry after "@ + duration_debug(retry_after_ms) + "."@,
            "SUBGRAPH_CIRCUIT_OPEN"@,
        ),
    }
}

/// The message and error code for a failed subgraph call.
pub fn describe(err: &SubgraphError) -> (r: (String, &'static str))
    ensures
        r.0@ == describe_spec(*err).0,
        r.1@ == describe_spec(*err).1,
{
    match err {
        SubgraphError::Timeout(ms) => {
            let mut m = "Subgraph timed out after ".to_owned();
            m.append(duration_debug_text(*ms).as_str());
            m.append(".");
            (m, "SUBGRAPH_TIMEOUT")
        },
        SubgraphError::BadStatus { status, .. } => {
            let mut m = "Subgraph responded with HTTP ".to_owned();
            m.append(decimal_string(*status as u64).as_str());
            m.append(".");
            (m, "SUBGRAPH_HTTP_ERROR")
        },
        SubgraphError::Transport(msg) => {
            let mut m = "Subgraph transport error: ".to_owned();
            m.append(msg.as_str());
            m.append(".");
            (m, "SUBGRAPH_TRANSPORT_ERROR")
        },
        SubgraphError::Decode(msg) => {
            let mut m = "Subgraph returned an undecodable response: ".to_owned();
            m.append(msg.as_str());
            m.append(".");
            (m, "SUBGRAPH_DECODE_ERROR")
        },
        SubgraphError::CircuitOpen { retry_after_ms } => {
            let mut m = "Subgraph circuit breaker is open; retry after ".to_owned();
            m.append(duration_debug_text(*retry_after_ms).as_str());
            m.append(".");
            (m, "SUBGRAPH_CIRCUIT_OPEN")
        },
    }
}

/// The members of a response's data when it is an object.
pub open spec fn data_members(resp: GraphQLResponse) -> Option<Seq<(Seq<char>, JsonV)>> {
    match opt_json_view(resp.data) {
        Some(JsonV::Object(o)) => Some(o),
        _ => None,
    }
}

/// `data` after storing, for each key, its value in `src` (`null` when `src`
/// lacks it or is absent).
pub open spec fn put_keys(
    data: Seq<(Seq<char>, JsonV)>,
    keys: Seq<String>,
    src: Option<Seq<(Seq<char>, JsonV)>>,
) -> Seq<(Seq<char>, JsonV)>
    decreases keys.len(),
{
    if keys.len() == 0 {
        data
    } else {
        let k = keys.last()@;
        let v = match src {
            Some(o) => match key_lookup(o, k) {
                Some(v) => v,
                None => JsonV::Null,
            },
            None => JsonV::Null,
        };
        key_insert(put_keys(data, keys.drop_last(), src), k, v)
    }
}

/// The error for response key `key` of a failed call.
pub open spec fn key_failure(key: Seq<char>, message: Seq<char>, code: Seq<char>, subgraph: Seq<char>) -> GraphQLErrorView {
    GraphQLErrorView {
        message,
        locations: Seq::empty(),
        path: seq![JsonV::Str(key)],
        extensions: Some(
            JsonV::Object(seq![("code"@, JsonV::Str(code)), ("subgraph"@, JsonV::Str(subgraph))]),
        ),
    }
}

pub open spec fn failure_errors(keys: Seq<String>, e: SubgraphError, subgraph: Seq<char>) -> Seq<GraphQLErrorView> {
    keys.map_values(|k: String| key_failure(k@, describe_spec(e).0, describe_spec(e).1, subgraph))
}

/// The data members and errors after folding in one result.
pub open spec fn merge_step(
    st: (Seq<(Seq<char>, JsonV)>, Seq<GraphQLErrorView>),
    r: SubgraphResult,
) -> (Seq<(Seq<char>, JsonV)>, Seq<GraphQLErrorView>) {
    let keys = r.plan.response_keys@;
    match r.outcome {
        Ok(resp) => (put_keys(st.0, keys, data_members(resp)), st.1 + errors_view(resp.errors@)),
        Err(e) => (put_keys(st.0, keys, None), st.1 + failure_errors(keys, e, r.plan.subgraph@)),
    }
}

pub open spec fn merge_all(rs: Seq<SubgraphResult>) -> (Seq<(Seq<char>, JsonV)>, Seq<GraphQLErrorView>)
    decreases rs.len(),
{
    if rs.len() == 0 {
        (Seq::empty(), Seq::empty())
    } else {
        merge_step(merge_all(rs.drop_last()), rs.last())
    }
}

pub open spec fn durations_of(rs: Seq<SubgraphResult>) -> Seq<(Seq<char>, u64)> {
    rs.map_values(|r: SubgraphResult| (r.plan.subgraph@, r.duration_ms))
}

pub open spec fn durations_view(d: Seq<(String, u64)>) -> Seq<(Seq<char>, u64)> {
    d.map_values(|p: (String, u64)| (p.0@, p.1))
}

/// Stores each of `keys` in `data`, taking its value from `src`.
fn put_keys_exec(data: &mut Vec<(String, Json)>, keys: &Vec<String>, src: &Option<Vec<(String, Json)>>)
    ensures
        members_view(final(data)@) == put_keys(
            members_view(old(data)@),
            keys@,
            match src {
                Some(o) => Some(members_view(o@)),
                None => None,
            },
        ),
{
    let ghost start = members_view(data@);
    let ghost sv = match src {
        Some(o) => Some(members_view(o@)),
        None => None,
    };
    let mut i: usize = 0;
    while i < keys.len()
        invariant
            i <= keys.len(),
            members_view(data@) == put_keys(start, keys@.take(i as int), sv),
            sv == match src {
                Some(o) => Some(members_view(o@)),
                None => None,
            },
        decreases keys.len() - i,
    {
        assert(keys@.take(i + 1).drop_last() =~= keys@.take(i as int));
        let v = match src {
            Some(o) => {
                match member(o, keys[i].as_str()) {
                    Some(x) => x.deep_clone(),
                    None => Json::Null,
                }
            },
            None => Json::Null,
        };
        obj_insert(data, keys[i].clone(), v);
        i = i + 1;
    }
    assert(keys@.take(keys.len() as int) =~= keys@);
}

/// Merges subgraph results in order into one response envelope.
pub fn merge(results: Vec<SubgraphResult>) -> (r: MergedResponse)
    ensures
        opt_json_view(r.response.data) == Some(JsonV::Object(merge_all(results@).0)),
        errors_view(r.response.errors@) == merge_all(results@).1,
        r.response.extensions is None,
        durations_view(r.subgraph_durations_ms@) == durations_of(results@),
{
    let ghost all = results@;
    assert(all.len() == results.len());
    let mut data: Vec<(String, Json)> = Vec::new();
    let mut errors: Vec<GraphQLError> = Vec::new();
    let mut durations: Vec<(String, u64)> = Vec::new();
    let mut rest = results;
    let mut i: usize = 0;
    assert(members_view(data@) =~= Seq::<(Seq<char>, JsonV)>::empty());
    assert(errors_view(errors@) =~= Seq::<GraphQLErrorView>::empty());
    while rest.len() > 0
        invariant
            i + rest.len() == all.len(),
            all.len() <= usize::MAX,
            rest@ == all.skip(i as int),
            (members_view(data@), errors_view(errors@)) == merge_all(all.take(i as int)),
            durations_view(durations@) == durations_of(all.take(i as int)),
        decreases rest.len(),
    {
        let ghost old_rest = rest@;
        let r = rest.remove(0);
        assert(r == all[i as int]);
        assert(all.take(i + 1).drop_last() =~= all.take(i as int));
        assert(rest@ =~= all.skip(i + 1));
        let ghost st = merge_all(all.take(i as int));
        let SubgraphResult { plan, duration_ms, outcome } = r;
        let ghost dv = durations_view(durations@);
        durations.push((plan.subgraph.clone(), duration_ms));
        assert(durations_view(durations@) =~= dv.push((plan.subgraph@, duration_ms)));
        assert(durations_of(all.take(i + 1)) =~= durations_of(all.take(i as int)).push(
            (plan.subgraph@, duration_ms),
        ));
        match outcome {
            Ok(resp) => {
                let GraphQLResponse { data: rdata, errors: mut rerrors, extensions: _ } = resp;
                let src = match rdata {
                    Some(Json::Object(o)) => Some(o),
                    _ => None,
                };
                proof {
                    if src is Some {
                        lemma_view_object(src->0);
                    }
                }
                put_keys_exec(&mut data, &plan.response_keys, &src);
                let ghost ev = errors_view(errors@);
                let ghost rv = errors_view(rerrors@);
                errors.append(&mut rerrors);
                assert(errors_view(errors@) =~= ev + rv);
            },
            Err(e) => {
                let (message, code) = describe(&e);
                put_keys_exec(&mut data, &plan.response_keys, &None);
                let ghost ev = errors_view(errors@);
                let mut k: usize = 0;
                while k < plan.response_keys.len()
                    invariant
                        k <= plan.response_keys.len(),
                        message@ == describe_spec(e).0,
                        code@ == describe_spec(e).1,
                        errors_view(errors@) == ev + failure_errors(
                            plan.response_keys@.take(k as int),
                            e,
                            plan.subgraph@,
                        ),
                    decreases plan.response_keys.len() - k,
                {
                    let key = &plan.response_keys[k];
                    let mut path: Vec<Json> = Vec::new();
                    path.push(json_str(key.as_str()));
                    let mut ext: Vec<(String, Json)> = Vec::new();
                    ext.push(("code".to_owned(), json_str(code)));
                    ext.push(("subgraph".to_owned(), json_str(plan.subgraph.as_str())));
                    proof {
                        lemma_view_object(ext);
                    }
                    assert(members_view(ext@) =~= seq![
                        ("code"@, JsonV::Str(code@)),
                        ("subgraph"@, JsonV::Str(plan.subgraph@)),
                    ]);
                    assert(values_view(path@) =~= seq![JsonV::Str(key@)]);
                    let err = GraphQLError::message(message.clone()).with_path(path).with_extensions(
                        Json::Object(ext),
                    );
                    let ghost before = errors_view(errors@);
                    errors.push(err);
                    assert(errors_view(errors@) =~= before.push(err@));
                    assert(plan.response_keys@.take(k + 1) =~= plan.response_keys@.take(k as int).push(
                        *key,
                    ));
                    assert(failure_errors(plan.response_keys@.take(k + 1), e, plan.subgraph@)
                        =~= failure_errors(plan.response_keys@.take(k as int), e, plan.subgraph@).push(
                        err@,
                    ));
                    k = k + 1;
                }
                assert(plan.response_keys@.take(plan.response_keys.len() as int)
                    =~= plan.response_keys@);
            },
        }
        i = i + 1;
    }
    assert(all.take(i as int) =~= all);
    proof {
        lemma_view_object(data);
    }
    MergedResponse {
        response: GraphQLResponse { data: Some(Json::Object(data)), errors, extensions: None },
        subgraph_durations_ms: durations,
    }
}

/// The value `put_keys` stores for `k`.
pub open spec fn source_value(src: Option<Seq<(Seq<char>, JsonV)>>, k: Seq<char>) -> JsonV {
    match src {
        Some(o) => match key_lookup(o, k) {
            Some(v) => v,
            None => JsonV::Null,
        },
        None => JsonV::Null,
    }
}

/// After `put_keys`, each of the keys holds its value from the source.
pub proof fn lemma_put_keys_lookup(
    data: Seq<(Seq<char>, JsonV)>,
    keys: Seq<String>,
    src: Option<Seq<(Seq<char>, JsonV)>>,
    j: int,
)
    requires
        0 <= j < keys.len(),
    ensures
        key_lookup(put_keys(data, keys, src), keys[j]@) == Some(source_value(src, keys[j]@)),
    decreases keys.len(),
{
    let last = keys.last()@;
    let prev = put_keys(data, keys.drop_last(), src);
    crate::strmap::lemma_lookup_after_insert(prev, last, source_value(src, last), keys[j]@);
    if j < keys.len() - 1 && keys[j]@ != last {
        assert(keys.drop_last()[j] == keys[j]);
        lemma_put_keys_lookup(data, keys.drop_last(), src, j);
    }
}

/// A subgraph that failed leaves each of its response keys `null` and adds,
/// after the errors before it, one error per key pinned to that key's path
/// and naming the subgraph; the request itself does not fail.
pub proof fn lemma_failed_subgraph(rs: Seq<SubgraphResult>, j: int)
    requires
        rs.len() > 0,
        rs.last().outcome is Err,
        0 <= j < rs.last().plan.response_keys@.len(),
    ensures
        ({
            let r = rs.last();
            let keys = r.plan.response_keys@;
            let e = r.outcome->Err_0;
            &&& key_lookup(merge_all(rs).0, keys[j]@) == Some(JsonV::Null)
            &&& merge_all(rs).1 == merge_all(rs.drop_last()).1 + failure_errors(keys, e, r.plan.subgraph@)
            &&& merge_all(rs).1.len() == merge_all(rs.drop_last()).1.len() + keys.len()
            &&& failure_errors(keys, e, r.plan.subgraph@)[j] == key_failure(
                keys[j]@,
                describe_spec(e).0,
                describe_spec(e).1,
                r.plan.subgraph@,
            )
        }),
{
    let r = rs.last();
    lemma_put_keys_lookup(merge_all(rs.drop_last()).0, r.plan.response_keys@, None, j);
}

/// A subgraph that answered contributes, for each of its response keys, the
/// value under that key in its data (`null` when absent), and its own errors
/// verbatim after the errors before it.
pub proof fn lemma_answered_subgraph(rs: Seq<SubgraphResult>, j: int)
    requires
        rs.len() > 0,
        rs.last().outcome is Ok,
        0 <= j < rs.last().plan.response_keys@.len(),
    ensures
        ({
            let r = rs.last();
            let keys = r.plan.response_keys@;
            let resp = r.outcome->Ok_0;
            &&& key_lookup(merge_all(rs).0, keys[j]@) == Some(source_value(data_members(resp), keys[j]@))
            &&& merge_all(rs).1 == merge_all(rs.drop_last()).1 + errors_view(resp.errors@)
        }),
{
    let r = rs.last();
    lemma_put_keys_lookup(merge_all(rs.drop_last()).0, r.plan.response_keys@, data_members(r.outcome->Ok_0), j);
}

} // verus!
