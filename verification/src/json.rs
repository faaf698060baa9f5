//! JSON values as plain data, with their serialization done by `serde_json`.

use vstd::prelude::*;
use crate::text::str_eq;
use crate::strmap::{key_index, key_insert, key_lookup, lemma_key_index, lemma_key_index_unique};

verus! {

#[verifier::external_type_specification]
#[verifier::external_body]
pub struct ExSerdeJsonValue(serde_json::Value);

/// A JSON value. Numbers keep their textual form, object members keep their
/// order and a key occurs at most once when objects are built with
/// [`obj_insert`].
#[derive(Debug)]
pub enum Json {
    Null,
    Bool(bool),
    Number(String),
    Str(String),
    Array(Vec<Json>),
    Object(Vec<(String, Json)>),
}

/// The mathematical value of a [`Json`].
pub enum JsonV {
    Null,
    Bool(bool),
    Number(Seq<char>),
    Str(Seq<char>),
    Array(Seq<JsonV>),
    Object(Seq<(Seq<char>, JsonV)>),
}

impl Json {
    pub open spec fn view_of(self) -> JsonV
        decreases self,
    {
        match self {
            Json::Null => JsonV::Null,
            Json::Bool(b) => JsonV::Bool(b),
            Json::Number(n) => JsonV::Number(n@),
            Json::Str(s) => JsonV::Str(s@),
            Json::Array(a) => JsonV::Array(
                Seq::new(
                    a.len() as nat,
                    |i: int|
                        if 0 <= i < a.len() {
                            a[i].view_of()
                        } else {
                            JsonV::Null
                        },
                ),
            ),
            Json::Object(o) => JsonV::Object(
                Seq::new(
                    o.len() as nat,
                    |i: int|
                        if 0 <= i < o.len() {
                            (o[i].0@, o[i].1.view_of())
                        } else {
                            (Seq::empty(), JsonV::Null)
                        },
                ),
            ),
        }
    }
}

impl View for Json {
    type V = JsonV;

    open spec fn view(&self) -> JsonV {
        self.view_of()
    }
}

/// The view of a sequence of object members.
pub open spec fn members_view(o: Seq<(String, Json)>) -> Seq<(Seq<char>, JsonV)> {
    Seq::new(o.len(), |i: int| (o[i].0@, o[i].1@))
}

/// The view of a sequence of values.
pub open spec fn values_view(a: Seq<Json>) -> Seq<JsonV> {
    Seq::new(a.len(), |i: int| a[i]@)
}

pub proof fn lemma_view_array(a: Vec<Json>)
    ensures
        Json::Array(a)@ == JsonV::Array(values_view(a@)),
{
    assert(JsonV::Array(values_view(a@)) == Json::Array(a).view_of()) by {
        match Json::Array(a).view_of() {
            JsonV::Array(s) => {
                assert(s =~= values_view(a@));
            },
            _ => {},
        }
    }
}

pub proof fn lemma_view_object(o: Vec<(String, Json)>)
    ensures
        Json::Object(o)@ == JsonV::Object(members_view(o@)),
{
    match Json::Object(o).view_of() {
        JsonV::Object(s) => {
            assert(s =~= members_view(o@));
        },
        _ => {},
    }
}

/// `Value::get(key)`: the member named `k` of an object.
pub open spec fn jget(v: JsonV, k: Seq<char>) -> Option<JsonV> {
    match v {
        JsonV::Object(es) => key_lookup(es, k),
        _ => None,
    }
}

impl Json {
    /// A copy of the value.
    #[verifier::loop_isolation(false)]
    pub fn deep_clone(&self) -> (r: Json)
        ensures
            r@ == self@,
        decreases self,
    {
        match self {
            Json::Null => Json::Null,
            Json::Bool(b) => Json::Bool(*b),
            Json::Number(n) => Json::Number(n.clone()),
            Json::Str(s) => Json::Str(s.clone()),
            Json::Array(a) => {
                let mut out: Vec<Json> = Vec::new();
                let mut i: usize = 0;
                while i < a.len()
                    invariant
                        i <= a.len(),
                        values_view(out@) =~= values_view(a@.take(i as int)),
                    decreases a.len() - i,
                {
                    let c = a[i].deep_clone();
                    let ghost before = out@;
                    out.push(c);
                    assert(a@.take(i + 1) =~= a@.take(i as int).push(a@[i as int]));
                    assert(values_view(out@) =~= values_view(before).push(c@));
                    assert(values_view(a@.take(i + 1)) =~= values_view(a@.take(i as int)).push(
                        a@[i as int]@,
                    ));
                    i = i + 1;
                }
                proof {
                    assert(a@.take(a.len() as int) =~= a@);
                    lemma_view_array(out);
                    lemma_view_array(*a);
                }
                Json::Array(out)
            },
            Json::Object(o) => {
                let mut out: Vec<(String, Json)> = Vec::new();
                let mut i: usize = 0;
                while i < o.len()
                    invariant
                        i <= o.len(),
                        members_view(out@) =~= members_view(o@.take(i as int)),
                    decreases o.len() - i,
                {
                    let c = o[i].1.deep_clone();
                    let ghost before = out@;
                    let kc = o[i].0.clone();
                    out.push((kc, c));
                    assert(o@.take(i + 1) =~= o@.take(i as int).push(o@[i as int]));
                    assert(members_view(out@) =~= members_view(before).push((kc@, c@)));
                    assert(members_view(o@.take(i + 1)) =~= members_view(o@.take(i as int)).push(
                        (o@[i as int].0@, o@[i as int].1@),
                    ));
                    i = i + 1;
                }
                proof {
                    assert(o@.take(o.len() as int) =~= o@);
                    lemma_view_object(out);
                    lemma_view_object(*o);
                }
                Json::Object(out)
            },
        }
    }

    /// `Value::get(key)`.
    pub fn get(&self, k: &str) -> (r: Option<&Json>)
        ensures
            r matches Some(v) ==> jget(self@, k@) == Some(v@),
            r is None ==> jget(self@, k@) is None,
    {
        match self {
            Json::Object(o) => {
                proof {
                    lemma_view_object(*o);
                }
                member(o, k)
            },
            _ => None,
        }
    }

    /// `Value::as_str()`.
    pub fn as_str(&self) -> (r: Option<&String>)
        ensures
            r matches Some(s) ==> self@ == JsonV::Str(s@),
            r is None ==> !(self@ is Str),
    {
        match self {
            Json::Str(s) => Some(s),
            _ => None,
        }
    }
}

/// The member of an object stored under `k`.
#[verifier::loop_isolation(false)]
pub fn member<'a>(o: &'a Vec<(String, Json)>, k: &str) -> (r: Option<&'a Json>)
    ensures
        r matches Some(v) ==> key_lookup(members_view(o@), k@) == Some(v@),
        r is None ==> key_lookup(members_view(o@), k@) is None,
{
    proof {
        lemma_key_index(members_view(o@), k@);
    }
    let mut i: usize = 0;
    while i < o.len()
        invariant
            i <= o.len(),
            forall|j: int| 0 <= j < i ==> o@[j].0@ != k@,
        decreases o.len() - i,
    {
        if str_eq(o[i].0.as_str(), k) {
            proof {
                lemma_key_index_unique(members_view(o@), k@, i as int);
            }
            return Some(&o[i].1);
        }
        i = i + 1;
    }
    None
}

/// `{"<key>": "<value>"}`.
pub fn json_object1(key: &str, value: Json) -> (r: Json)
    ensures
        r@ == JsonV::Object(seq![(key@, value@)]),
{
    let mut o: Vec<(String, Json)> = Vec::new();
    o.push((key.to_owned(), value));
    proof {
        lemma_view_object(o);
        assert(members_view(o@) =~= seq![(key@, o@[0].1@)]);
    }
    Json::Object(o)
}

/// A JSON string.
pub fn json_str(s: &str) -> (r: Json)
    ensures
        r@ == JsonV::Str(s@),
{
    Json::Str(s.to_owned())
}

/// `Map::insert(k, v)` on the members of an object.
#[verifier::loop_isolation(false)]
pub fn obj_insert(o: &mut Vec<(String, Json)>, k: String, v: Json)
    ensures
        members_view(final(o)@) == key_insert(members_view(old(o)@), k@, v@),
{
    proof {
        lemma_key_index(members_view(o@), k@);
    }
    let mut i: usize = 0;
    while i < o.len()
        invariant
            i <= o.len(),
            o@ == old(o)@,
            forall|j: int| 0 <= j < i ==> o@[j].0@ != k@,
        decreases o.len() - i,
    {
        if str_eq(o[i].0.as_str(), k.as_str()) {
            proof {
                let es = members_view(o@);
                assert forall|j: int| 0 <= j < i implies es[j].0 != k@ by {
                    assert(es[j].0 == o@[j].0@);
                }
                lemma_key_index_unique(es, k@, i as int);
            }
            let ghost before = o@;
            o.set(i, (k, v));
            assert(members_view(o@) =~= members_view(before).update(i as int, (k@, v@)));
            return;
        }
        i = i + 1;
    }
    proof {
        let es = members_view(o@);
        lemma_key_index(es, k@);
        if let Some(j) = key_index(es, k@) {
            assert(es[j].0 == o@[j].0@);
            assert(false);
        }
    }
    let ghost before = o@;
    o.push((k, v));
    assert(members_view(o@) =~= members_view(before).push((k@, v@)));
}

/// `serde_json::to_string` of the value: its compact JSON text, or `None`
/// when a number's text is not one that `serde_json` reads as a number.
pub uninterp spec fn json_text(v: JsonV) -> Option<Seq<char>>;

/// The compact JSON text of `v`, written by `serde_json::to_string`.
#[verifier::external_body]
pub fn to_json_text(v: &Json) -> (r: Option<String>)
    ensures
        match r {
            Some(t) => json_text(v@) == Some(t@),
            None => json_text(v@) is None,
        },
{
    match to_serde(v) {
        Some(x) => serde_json::to_string(&x).ok(),
        None => None,
    }
}

/// The same value as a `serde_json::Value`; `None` when a number's text does
/// not read as a number.
#[verifier::external_body]
fn to_serde(v: &Json) -> Option<serde_json::Value> {
    Some(match v {
        Json::Null => serde_json::Value::Null,
        Json::Bool(b) => serde_json::Value::Bool(*b),
        Json::Number(n) => serde_json::Value::Number(<serde_json::Number as std::str::FromStr>::from_str(n).ok()?),
        Json::Str(s) => serde_json::Value::String(s.clone()),
        Json::Array(a) => serde_json::Value::Array(a.iter().map(to_serde).collect::<Option<Vec<_>>>()?),
        Json::Object(o) => to_serde_object(o)?,
    })
}

/// The outcome of `serde_json::from_str::<serde_json::Value>(text)`: the
/// value read, or the `Display` text of the error when `text` is not one
/// JSON value.
pub uninterp spec fn json_parse(text: Seq<char>) -> Result<JsonV, Seq<char>>;

/// Reads `text` with `serde_json::from_str` into a `serde_json::Value` and
/// moves it into a [`Json`].
#[verifier::external_body]
pub fn parse_json_text(text: &str) -> (r: Result<Json, String>)
    ensures
        match r {
            Ok(j) => json_parse(text@) == Ok::<JsonV, Seq<char>>(j@),
            Err(e) => json_parse(text@) == Err::<JsonV, Seq<char>>(e@),
        },
{
    match serde_json::from_str::<serde_json::Value>(text) {
        Ok(v) => Ok(from_serde(v)),
        Err(e) => Err(e.to_string()),
    }
}

/// Moves a `serde_json::Value` into a [`Json`]; numbers keep the text that
/// `serde_json` writes for them, object members the order it walks them in.
#[verifier::external_body]
pub(crate) fn from_serde(v: serde_json::Value) -> Json {
    match v {
        serde_json::Value::Null => Json::Null,
        serde_json::Value::Bool(b) => Json::Bool(b),
        serde_json::Value::Number(n) => Json::Number(n.to_string()),
        serde_json::Value::String(s) => Json::Str(s),
        serde_json::Value::Array(a) => Json::Array(a.into_iter().map(from_serde).collect()),
        serde_json::Value::Object(o) => Json::Object(o.into_iter().map(|(k, x)| (k, from_serde(x))).collect()),
    }
}

#[verifier::external_body]
fn to_serde_object(o: &Vec<(String, Json)>) -> Option<serde_json::Value> {
    Some(serde_json::Value::Object(o.iter().map(|(k, x)| Some((k.clone(), to_serde(x)?))).collect::<Option<_>>()?))
}

} // verus!
