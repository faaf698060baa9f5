//! Parsing of operation text. `apollo-compiler` builds the syntax tree; a
//! failed parse is reported as one GraphQL error per diagnostic block, with
//! the first `line:column` found in the block as its location.

use vstd::prelude::*;
use crate::graphql::ast::{graphql_parse, parse_document, Doc, TopDef};
use crate::graphql::types::{errors_view, GraphQLError, GraphQLErrorView, Location};
use crate::json::JsonV;
use crate::text::{
    chars_of, find, find_chars, occurs_at, lemma_find_from_bounds, parse_usize, parse_usize_chars, split,
    split_chars, string_of, suffix_chars, trim, trim_chars,
};

verus! {

/// A parsed operation document.
#[derive(Debug)]
pub struct ParsedRequest {
    pub document: Doc,
}

/// The `(line, column)` after the first `marker` in `text`: the first two
/// `:`-separated pieces that follow it, each trimmed and read as a `usize`.
pub open spec fn scan_anchor(text: Seq<char>, marker: Seq<char>) -> Option<(usize, usize)> {
    match find(text, marker) {
        None => None,
        Some(start) => {
            let parts = split(text.subrange(start + marker.len(), text.len() as int), ":"@);
            if parts.len() < 2 {
                None
            } else {
                match (parse_usize(trim(parts[0])), parse_usize(trim(parts[1]))) {
                    (Some(line), Some(col)) => Some((line, col)),
                    _ => None,
                }
            }
        },
    }
}

/// The location named by a diagnostic block: after `.graphql:` when it has
/// one, else after its first `:`.
pub open spec fn first_location(text: Seq<char>) -> Option<Location> {
    match scan_anchor(text, ".graphql:"@) {
        Some((line, column)) => Some(Location { line, column }),
        None => match scan_anchor(text, ":"@) {
            Some((line, column)) => Some(Location { line, column }),
            None => None,
        },
    }
}

/// The error for one trimmed diagnostic block.
pub open spec fn block_error(message: Seq<char>) -> GraphQLErrorView {
    GraphQLErrorView {
        message,
        locations: match first_location(message) {
            Some(l) => seq![l],
            None => Seq::empty(),
        },
        path: Seq::<JsonV>::empty(),
        extensions: None,
    }
}

/// One error per blank-line-separated block of the trimmed diagnostics;
/// none when they are blank.
pub open spec fn diagnostic_errors(rendered: Seq<char>) -> Seq<GraphQLErrorView> {
    let t = trim(rendered);
    if t.len() == 0 {
        Seq::empty()
    } else {
        split(t, "\n\n"@).map_values(|c: Seq<char>| block_error(trim(c)))
    }
}

fn scan_anchor_chars(text: &Vec<char>, marker: &Vec<char>) -> (r: Option<(usize, usize)>)
    ensures
        r == scan_anchor(text@, marker@),
{
    let found = find_chars(text, marker);
    let start = match found {
        Some(s) => s,
        None => {
            return None;
        },
    };
    proof {
        lemma_find_from_bounds(text@, marker@, 0);
        assert(find(text@, marker@) == Some(start as int));
        assert(occurs_at(text@, marker@, start as int));
    }
    let mlen = marker.len();
    assert(start as int + mlen as int <= text.len() as int);
    let tail = suffix_chars(text, start + mlen);
    let colon = chars_of(":");
    proof {
        reveal_strlit(":");
    }
    let parts = split_chars(&tail, &colon);
    assert(parts@.map_values(|v: Vec<char>| v@) == split(tail@, ":"@));
    if parts.len() < 2 {
        return None;
    }
    assert(parts@.map_values(|v: Vec<char>| v@)[0] == parts@[0]@);
    assert(parts@.map_values(|v: Vec<char>| v@)[1] == parts@[1]@);
    let line = parse_usize_chars(&trim_chars(&parts[0]));
    let col = parse_usize_chars(&trim_chars(&parts[1]));
    match (line, col) {
        (Some(l), Some(c)) => Some((l, c)),
        _ => None,
    }
}

fn first_location_chars(text: &Vec<char>) -> (r: Option<Location>)
    ensures
        r == first_location(text@),
{
    let anchor = chars_of(".graphql:");
    if let Some((line, column)) = scan_anchor_chars(text, &anchor) {
        return Some(Location { line, column });
    }
    let colon = chars_of(":");
    match scan_anchor_chars(text, &colon) {
        Some((line, column)) => Some(Location { line, column }),
        None => None,
    }
}

/// Turns the rendered diagnostics of a failed parse or validation into
/// GraphQL errors, one per blank-line-separated block.
pub fn diagnostics_to_errors(rendered: &str) -> (r: Vec<GraphQLError>)
    ensures
        errors_view(r@) == diagnostic_errors(rendered@),
{
    let mut out: Vec<GraphQLError> = Vec::new();
    let rv = chars_of(rendered);
    let t = trim_chars(&rv);
    if t.len() == 0 {
        assert(errors_view(out@) =~= Seq::<GraphQLErrorView>::empty());
        return out;
    }
    let sep = chars_of("\n\n");
    proof {
        reveal_strlit("\n\n");
    }
    let chunks = split_chars(&t, &sep);
    let ghost parts = split(t@, "\n\n"@);
    assert(chunks@.map_values(|v: Vec<char>| v@) == parts);
    let mut i: usize = 0;
    while i < chunks.len()
        invariant
            i <= chunks.len(),
            parts == chunks@.map_values(|v: Vec<char>| v@),
            t@ == trim(rendered@),
            t@.len() > 0,
            errors_view(out@) == parts.take(i as int).map_values(
                |c: Seq<char>| block_error(trim(c)),
            ),
        decreases chunks.len() - i,
    {
        assert(parts[i as int] == chunks@[i as int]@);
        let m = trim_chars(&chunks[i]);
        let loc = first_location_chars(&m);
        let mut locations: Vec<Location> = Vec::new();
        if let Some(l) = loc {
            locations.push(l);
        }
        assert(locations@ == block_error(m@).locations) by {
            if loc is Some {
                assert(locations@ =~= seq![loc->0]);
            } else {
                assert(locations@ =~= Seq::<Location>::empty());
            }
        }
        let e = GraphQLError {
            message: string_of(m.as_slice()),
            locations,
            path: Vec::new(),
            extensions: None,
        };
        assert(e@.path =~= Seq::<JsonV>::empty());
        assert(e@ == block_error(trim(parts[i as int])));
        let ghost before = out@;
        out.push(e);
        assert(errors_view(out@) =~= errors_view(before).push(e@));
        assert(parts.take(i + 1).map_values(|c: Seq<char>| block_error(trim(c))) =~= parts.take(
            i as int,
        ).map_values(|c: Seq<char>| block_error(trim(c))).push(block_error(trim(parts[i as int]))));
        i = i + 1;
    }
    assert(parts.take(chunks.len() as int) =~= parts);
    out
}

/// The outcome of parsing `query`: its definitions, or the errors.
pub open spec fn parse_result(query: Seq<char>) -> Result<Seq<TopDef>, Seq<GraphQLErrorView>> {
    match graphql_parse(query, "operation.graphql"@) {
        Ok(d) => Ok(d),
        Err(text) => Err(diagnostic_errors(text)),
    }
}

/// Parses one operation document (diagnostics are attributed to
/// `operation.graphql`).
pub fn parse(query: &str) -> (r: Result<ParsedRequest, Vec<GraphQLError>>)
    ensures
        match parse_result(query@) {
            Ok(d) => r matches Ok(p) && p.document.definitions@ == d && p.document.source_text() == query@
                && p.document.source_path() == "operation.graphql"@ && p.document.wf(),
            Err(es) => r matches Err(v) && errors_view(v@) == es,
        },
{
    match parse_document(query, "operation.graphql") {
        Ok(document) => Ok(ParsedRequest { document }),
        Err(text) => Err(diagnostics_to_errors(text.as_str())),
    }
}

} // verus!
