//! Persisted (safelisted) queries: a request names a stored document by its
//! SHA-256 hash, and only development setups may send arbitrary text.

use vstd::prelude::*;
use crate::graphql::types::{GraphQLError, GraphQLErrorView};
use crate::json::{json_object1, json_str, jget, json_parse, lemma_view_object, members_view, parse_json_text, Json, JsonV};
use crate::strmap::{key_insert, key_lookup, StrMap};
use crate::text::{is_blank, trim, trim_str};

verus! {

/// The safelist: query text by hash.
#[derive(Debug)]
pub struct PersistedQueryStore {
    pub queries: StrMap<String>,
}

/// Which document a request runs.
#[derive(Debug, Clone, Copy, PartialEq, Eq)]
pub enum PersistedQueryDecision<'a> {
    UseStored(&'a str),
    UseRequestQuery,
}

/// The safelist that manifest members give when every value is a string,
/// a later member replacing an earlier one with the same hash; `None` when
/// some value is not a string.
pub open spec fn manifest_entries(es: Seq<(Seq<char>, JsonV)>) -> Option<Seq<(Seq<char>, Seq<char>)>>
    decreases es.len(),
{
    if es.len() == 0 {
        Some(Seq::empty())
    } else {
        match manifest_entries(es.drop_last()) {
            None => None,
            Some(acc) => match es.last().1 {
                JsonV::Str(q) => Some(key_insert(acc, es.last().0, q)),
                _ => None,
            },
        }
    }
}

/// The safelist a manifest value gives: an object of hash to query text.
pub open spec fn manifest_store(v: JsonV) -> Option<Seq<(Seq<char>, Seq<char>)>> {
    match v {
        JsonV::Object(es) => manifest_entries(es),
        _ => None,
    }
}

/// The safelist read from manifest text: `Ok` of the entries, or `Err` when
/// the text is not JSON (with `serde_json`'s message) or not an object of
/// strings.
pub open spec fn manifest_outcome(text: Seq<char>) -> Result<Seq<(Seq<char>, Seq<char>)>, Option<Seq<char>>> {
    match json_parse(text) {
        Err(e) => Err(Some(e)),
        Ok(v) => match manifest_store(v) {
            Some(qs) => Ok(qs),
            None => Err(None),
        },
    }
}

proof fn lemma_manifest_none_extends(es: Seq<(Seq<char>, JsonV)>, k: int)
    requires
        0 <= k <= es.len(),
        manifest_entries(es.take(k)) is None,
    ensures
        manifest_entries(es) is None,
    decreases es.len() - k,
{
    if k < es.len() {
        assert(es.take(k + 1).drop_last() =~= es.take(k));
        lemma_manifest_none_extends(es, k + 1);
    } else {
        assert(es.take(k) =~= es);
    }
}

pub open spec fn manifest_error_text() -> Seq<char> {
    "the manifest must be a JSON object of query strings"@
}

/// The store a parsed manifest describes.
pub fn store_from_manifest(j: &Json) -> (r: Result<PersistedQueryStore, String>)
    ensures
        match manifest_store(j@) {
            Some(qs) => r matches Ok(s) && s.queries@ == qs,
            None => r matches Err(e) && e@ == manifest_error_text(),
        },
        r matches Ok(s) ==> s.queries.wf(),
{
    let o = match j {
        Json::Object(o) => o,
        _ => {
            return Err("the manifest must be a JSON object of query strings".to_owned());
        },
    };
    proof {
        lemma_view_object(*o);
    }
    let ghost es = members_view(o@);
    let mut m: StrMap<String> = StrMap::new();
    let mut i: usize = 0;
    assert(es.take(0) =~= Seq::<(Seq<char>, JsonV)>::empty());
    while i < o.len()
        invariant
            i <= o.len(),
            es == members_view(o@),
            es.len() == o.len(),
            j@ == JsonV::Object(es),
            m.wf(),
            manifest_entries(es.take(i as int)) == Some(m@),
        decreases o.len() - i,
    {
        assert(es.take(i + 1).drop_last() =~= es.take(i as int));
        assert(es.take(i + 1).last() == es[i as int]);
        assert(es[i as int] == (o@[i as int].0@, o@[i as int].1@));
        match &o[i].1 {
            Json::Str(q) => {
                m.insert(o[i].0.clone(), q.clone());
            },
            _ => {
                proof {
                    assert(!(o@[i as int].1@ is Str));
                    assert(manifest_entries(es.take(i + 1)) is None);
                    lemma_manifest_none_extends(es, i + 1);
                }
                return Err("the manifest must be a JSON object of query strings".to_owned());
            },
        }
        i = i + 1;
    }
    assert(es.take(o.len() as int) =~= es);
    Ok(PersistedQueryStore { queries: m })
}

/// The store that manifest text describes: `serde_json` reads the text, then
/// [`store_from_manifest`] takes its members.
pub fn load_manifest_text(text: &str) -> (r: Result<PersistedQueryStore, String>)
    ensures
        match manifest_outcome(text@) {
            Ok(qs) => r matches Ok(s) && s.queries@ == qs,
            Err(Some(e)) => r matches Err(m) && m@ == e,
            Err(None) => r matches Err(m) && m@ == manifest_error_text(),
        },
        r matches Ok(s) ==> s.queries.wf(),
{
    match parse_json_text(text) {
        Ok(j) => store_from_manifest(&j),
        Err(e) => Err(e),
    }
}

/// `extensions.persistedQuery.sha256Hash`, trimmed, when it is a non-blank
/// string.
pub open spec fn persisted_hash_spec(extensions: Option<JsonV>) -> Option<Seq<char>> {
    match extensions {
        Some(e) => match jget(e, "persistedQuery"@) {
            Some(pq) => match jget(pq, "sha256Hash"@) {
                Some(JsonV::Str(h)) => if trim(h).len() > 0 {
                    Some(trim(h))
                } else {
                    None
                },
                _ => None,
            },
            None => None,
        },
        None => None,
    }
}

/// A message-only error with `extensions.code` set.
pub open spec fn coded_error(message: Seq<char>, code: Seq<char>) -> GraphQLErrorView {
    GraphQLErrorView {
        message,
        locations: Seq::empty(),
        path: Seq::empty(),
        extensions: Some(JsonV::Object(seq![("code"@, JsonV::Str(code))])),
    }
}

pub open spec fn opt_json_ref_view(o: Option<&Json>) -> Option<JsonV> {
    match o {
        Some(j) => Some(j@),
        None => None,
    }
}

/// What [`PersistedQueryStore::resolve`] decides: `Ok(Some(q))` to run the
/// stored text `q`, `Ok(None)` to run the request's own text, or the error.
pub open spec fn resolution(
    queries: Seq<(Seq<char>, Seq<char>)>,
    request_query: Option<Seq<char>>,
    extensions: Option<JsonV>,
    allow_arbitrary_queries: bool,
) -> Result<Option<Seq<char>>, GraphQLErrorView> {
    match persisted_hash_spec(extensions) {
        Some(h) => match key_lookup(queries, h) {
            Some(q) => Ok(Some(q)),
            None => Err(coded_error("PersistedQueryNotFound"@, "PERSISTED_QUERY_NOT_FOUND"@)),
        },
        None => if allow_arbitrary_queries && request_query is Some && trim(request_query->0).len() > 0 {
            Ok(None)
        } else {
            Err(coded_error("PersistedQueryRequired"@, "PERSISTED_QUERY_REQUIRED"@))
        },
    }
}

/// The trimmed `sha256Hash` a request names, if any.
pub fn persisted_hash(extensions: Option<&Json>) -> (r: Option<String>)
    ensures
        match r {
            Some(h) => persisted_hash_spec(opt_json_ref_view(extensions)) == Some(h@),
            None => persisted_hash_spec(opt_json_ref_view(extensions)) is None,
        },
{
    let e = match extensions {
        Some(e) => e,
        None => {
            return None;
        },
    };
    let pq = match e.get("persistedQuery") {
        Some(pq) => pq,
        None => {
            return None;
        },
    };
    let h = match pq.get("sha256Hash") {
        Some(h) => h,
        None => {
            return None;
        },
    };
    match h.as_str() {
        Some(s) => if is_blank(s.as_str()) {
            None
        } else {
            Some(trim_str(s.as_str()))
        },
        None => None,
    }
}

fn coded_error_exec(message: &str, code: &str) -> (r: GraphQLError)
    ensures
        r@ == coded_error(message@, code@),
{
    GraphQLError::message(message.to_owned()).with_extensions(json_object1("code", json_str(code)))
}

/// The error for a hash that is not in the safelist.
pub fn persisted_query_not_found() -> (r: GraphQLError)
    ensures
        r@ == coded_error("PersistedQueryNotFound"@, "PERSISTED_QUERY_NOT_FOUND"@),
{
    coded_error_exec("PersistedQueryNotFound", "PERSISTED_QUERY_NOT_FOUND")
}

impl PersistedQueryStore {
    /// An empty safelist.
    pub fn new() -> (r: Self)
        ensures
            r.queries@ == Seq::<(Seq<char>, Seq<char>)>::empty(),
    {
        PersistedQueryStore { queries: StrMap::new() }
    }

    /// Decides which document a request runs: the stored text for a known
    /// hash; the request's own non-blank text when arbitrary queries are
    /// allowed; otherwise `PersistedQueryNotFound` (unknown hash) or
    /// `PersistedQueryRequired`.
    pub fn resolve<'a>(
        &'a self,
        request_query: Option<&str>,
        extensions: Option<&Json>,
        allow_arbitrary_queries: bool,
    ) -> (r: Result<PersistedQueryDecision<'a>, GraphQLError>)
        ensures
            match resolution(
                self.queries@,
                match request_query {
                    Some(q) => Some(q@),
                    None => None,
                },
                opt_json_ref_view(extensions),
                allow_arbitrary_queries,
            ) {
                Ok(Some(q)) => r matches Ok(PersistedQueryDecision::UseStored(s)) && s@ == q,
                Ok(None) => r matches Ok(PersistedQueryDecision::UseRequestQuery),
                Err(e) => r matches Err(g) && g@ == e,
            },
    {
        if let Some(hash) = persisted_hash(extensions) {
            return match self.queries.get(hash.as_str()) {
                Some(q) => Ok(PersistedQueryDecision::UseStored(q.as_str())),
                None => Err(persisted_query_not_found()),
            };
        }
        let non_blank = match request_query {
            Some(q) => !is_blank(q),
            None => false,
        };
        if allow_arbitrary_queries && non_blank {
            return Ok(PersistedQueryDecision::UseRequestQuery);
        }
        Err(coded_error_exec("PersistedQueryRequired", "PERSISTED_QUERY_REQUIRED"))
    }
}

/// A request that names a hash is decided by the safelist alone: its own
/// text and the arbitrary-query switch play no part.
pub proof fn lemma_hash_takes_precedence(
    queries: Seq<(Seq<char>, Seq<char>)>,
    extensions: Option<JsonV>,
    q1: Option<Seq<char>>,
    q2: Option<Seq<char>>,
    allow1: bool,
    allow2: bool,
)
    requires
        persisted_hash_spec(extensions) is Some,
    ensures
        resolution(queries, q1, extensions, allow1) == resolution(queries, q2, extensions, allow2),
{
}

/// Without a hash, and with arbitrary queries switched off, every request is
/// refused with `PERSISTED_QUERY_REQUIRED`.
pub proof fn lemma_safelist_required(
    queries: Seq<(Seq<char>, Seq<char>)>,
    request_query: Option<Seq<char>>,
    extensions: Option<JsonV>,
)
    requires
        persisted_hash_spec(extensions) is None,
    ensures
        resolution(queries, request_query, extensions, false) == Err::<Option<Seq<char>>, GraphQLErrorView>(
            coded_error("PersistedQueryRequired"@, "PERSISTED_QUERY_REQUIRED"@),
        ),
{
}
} // verus!
