//! Request headers as plain values.

use vstd::prelude::*;
use crate::strmap::key_lookup;
use crate::text::{is_blank, str_eq, trim, trim_str};

verus! {

/// The headers of a request in arrival order: each name in lower case, with
/// its value when the value is visible ASCII text.
#[derive(Debug)]
pub struct Headers {
    pub entries: Vec<(String, Option<String>)>,
}

pub open spec fn opt_string_view(o: Option<String>) -> Option<Seq<char>> {
    match o {
        Some(s) => Some(s@),
        None => None,
    }
}

impl View for Headers {
    type V = Seq<(Seq<char>, Option<Seq<char>>)>;

    open spec fn view(&self) -> Seq<(Seq<char>, Option<Seq<char>>)> {
        self.entries@.map_values(|e: (String, Option<String>)| (e.0@, opt_string_view(e.1)))
    }
}

/// `HeaderMap::get(name)` followed by `to_str().ok()`: the text of the first
/// value under `name`, when it is text.
pub open spec fn header_text(h: Seq<(Seq<char>, Option<Seq<char>>)>, name: Seq<char>) -> Option<Seq<char>> {
    match key_lookup(h, name) {
        Some(Some(v)) => Some(v),
        _ => None,
    }
}

impl Headers {
    /// No headers.
    pub fn new() -> (r: Headers)
        ensures
            r@ == Seq::<(Seq<char>, Option<Seq<char>>)>::empty(),
    {
        let r = Headers { entries: Vec::new() };
        assert(r@ =~= Seq::<(Seq<char>, Option<Seq<char>>)>::empty());
        r
    }

    /// Adds a header (`name` in lower case).
    pub fn push(&mut self, name: String, value: Option<String>)
        ensures
            final(self)@ == old(self)@.push((name@, opt_string_view(value))),
    {
        let ghost before = self@;
        let ghost item = (name@, opt_string_view(value));
        self.entries.push((name, value));
        assert(self@ =~= before.push(item));
    }

    /// The text of the first value of header `name`.
    #[verifier::loop_isolation(false)]
    pub fn text(&self, name: &str) -> (r: Option<&String>)
        ensures
            match r {
                Some(v) => header_text(self@, name@) == Some(v@),
                None => header_text(self@, name@) is None,
            },
    {
        proof {
            crate::strmap::lemma_key_index(self@, name@);
        }
        let mut i: usize = 0;
        while i < self.entries.len()
            invariant
                i <= self.entries.len(),
                forall|j: int| 0 <= j < i ==> self@[j].0 != name@,
            decreases self.entries.len() - i,
        {
            assert(self@[i as int].0 == self.entries@[i as int].0@);
            if str_eq(self.entries[i].0.as_str(), name) {
                proof {
                    crate::strmap::lemma_key_index_unique(self@, name@, i as int);
                }
                return match &self.entries[i].1 {
                    Some(v) => Some(v),
                    None => None,
                };
            }
            i = i + 1;
        }
        None
    }
}

/// A header's trimmed text, or `fallback` when it is absent or blank.
pub open spec fn header_value_spec(h: Seq<(Seq<char>, Option<Seq<char>>)>, name: Seq<char>, fallback: Seq<char>) -> Seq<char> {
    match header_text(h, name) {
        Some(v) => if trim(v).len() > 0 {
            trim(v)
        } else {
            fallback
        },
        None => fallback,
    }
}

/// The trimmed text of header `name`, or `fallback` when it is missing,
/// not text, or blank.
pub fn header_value(headers: &Headers, name: &str, fallback: &str) -> (r: String)
    ensures
        r@ == header_value_spec(headers@, name@, fallback@),
{
    match headers.text(name) {
        Some(v) => if is_blank(v.as_str()) {
            fallback.to_owned()
        } else {
            trim_str(v.as_str())
        },
        None => fallback.to_owned(),
    }
}

} // verus!
