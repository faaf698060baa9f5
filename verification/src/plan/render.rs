//! GraphQL text for the pieces of a document the planner forwards to
//! subgraphs.

use vstd::prelude::*;
use crate::graphql::ast::{Arg, FieldSel, GValue, Sel, VarDef};
use crate::text::{join, join_strings, chars_of, starts_with, string_of, trim_end, is_ws_char};

verus! {

broadcast use {vstd::std_specs::vec::axiom_vec_index_decreases, vstd::seq::axiom_seq_subrange_decreases};

/// `s.replace('"', "\\\"")`.
pub open spec fn escape_quotes(s: Seq<char>) -> Seq<char>
    decreases s.len(),
{
    if s.len() == 0 {
        Seq::empty()
    } else {
        escape_quotes(s.drop_last()) + if s.last() == '"' {
            seq!['\\', '"']
        } else {
            seq![s.last()]
        }
    }
}

pub fn escape_quotes_str(s: &str) -> (r: String)
    ensures
        r@ == escape_quotes(s@),
{
    let v = chars_of(s);
    let mut out: Vec<char> = Vec::new();
    let mut i: usize = 0;
    while i < v.len()
        invariant
            i <= v.len(),
            out@ == escape_quotes(v@.take(i as int)),
        decreases v.len() - i,
    {
        assert(v@.take(i + 1).drop_last() =~= v@.take(i as int));
        if v[i] == '"' {
            out.push('\\');
            out.push('"');
            assert(out@ =~= escape_quotes(v@.take(i + 1)));
        } else {
            out.push(v[i]);
            assert(out@ =~= escape_quotes(v@.take(i + 1)));
        }
        i = i + 1;
    }
    assert(v@.take(v.len() as int) =~= v@);
    string_of(out.as_slice())
}

/// A literal value as GraphQL text.
pub open spec fn render_value(v: GValue) -> Seq<char>
    decreases v,
{
    match v {
        GValue::Variable(n) => "$"@ + n@,
        GValue::Int(i) => i@,
        GValue::Float(f) => f@,
        GValue::Str(s) => "\""@ + escape_quotes(s@) + "\""@,
        GValue::Boolean(b) => if b {
            "true"@
        } else {
            "false"@
        },
        GValue::Null => "null"@,
        GValue::Enum(n) => n@,
        GValue::List(items) => "["@ + join(render_values(items@), ", "@) + "]"@,
        GValue::Object(es) => "{"@ + join(render_members(es@), ", "@) + "}"@,
    }
}

pub open spec fn render_values(s: Seq<GValue>) -> Seq<Seq<char>>
    decreases s,
{
    if s.len() == 0 {
        Seq::empty()
    } else {
        render_values(s.drop_last()).push(render_value(s.last()))
    }
}

pub open spec fn render_members(s: Seq<(String, GValue)>) -> Seq<Seq<char>>
    decreases s,
{
    if s.len() == 0 {
        Seq::empty()
    } else {
        render_members(s.drop_last()).push(s.last().0@ + ": "@ + render_value(s.last().1))
    }
}

pub open spec fn views_of(v: Seq<String>) -> Seq<Seq<char>> {
    v.map_values(|s: String| s@)
}

pub fn render_value_exec(v: &GValue) -> (r: String)
    ensures
        r@ == render_value(*v),
    decreases v,
{
    match v {
        GValue::Variable(n) => {
            let mut r = "$".to_owned();
            r.append(n.as_str());
            r
        },
        GValue::Int(i) => i.clone(),
        GValue::Float(f) => f.clone(),
        GValue::Str(s) => {
            let mut r = "\"".to_owned();
            let e = escape_quotes_str(s.as_str());
            r.append(e.as_str());
            r.append("\"");
            r
        },
        GValue::Boolean(b) => if *b {
            "true".to_owned()
        } else {
            "false".to_owned()
        },
        GValue::Null => "null".to_owned(),
        GValue::Enum(n) => n.clone(),
        GValue::List(items) => {
            let parts = render_values_exec(items);
            let mut r = "[".to_owned();
            let j = join_strings(&parts, ", ");
            r.append(j.as_str());
            r.append("]");
            r
        },
        GValue::Object(es) => {
            let parts = render_members_exec(es);
            let mut r = "{".to_owned();
            let j = join_strings(&parts, ", ");
            r.append(j.as_str());
            r.append("}");
            r
        },
    }
}

pub fn render_values_exec(items: &Vec<GValue>) -> (r: Vec<String>)
    ensures
        views_of(r@) == render_values(items@),
    decreases items,
{
    let mut out: Vec<String> = Vec::new();
    let mut i: usize = 0;
    while i < items.len()
        invariant
            i <= items.len(),
            views_of(out@) == render_values(items@.take(i as int)),
        decreases items.len() - i,
    {
        assert(items@.take(i + 1).drop_last() =~= items@.take(i as int));
        proof {
            assert(decreases_to!(items => items@[i as int]));
        }
        let s = render_value_exec(&items[i]);
        let ghost before = out@;
        out.push(s);
        assert(views_of(out@) =~= views_of(before).push(s@));
        i = i + 1;
    }
    assert(items@.take(items.len() as int) =~= items@);
    out
}

pub fn render_members_exec(es: &Vec<(String, GValue)>) -> (r: Vec<String>)
    ensures
        views_of(r@) == render_members(es@),
    decreases es,
{
    let mut out: Vec<String> = Vec::new();
    let mut i: usize = 0;
    while i < es.len()
        invariant
            i <= es.len(),
            views_of(out@) == render_members(es@.take(i as int)),
        decreases es.len() - i,
    {
        assert(es@.take(i + 1).drop_last() =~= es@.take(i as int));
        proof {
            assert(decreases_to!(es => es@[i as int]));
        }
        let v = render_value_exec(&es[i].1);
        let mut s = es[i].0.clone();
        s.append(": ");
        s.append(v.as_str());
        let ghost before = out@;
        out.push(s);
        assert(views_of(out@) =~= views_of(before).push(s@));
        i = i + 1;
    }
    assert(es@.take(es.len() as int) =~= es@);
    out
}


pub open spec fn render_args(args: Seq<Arg>) -> Seq<Seq<char>>
    decreases args.len(),
{
    if args.len() == 0 {
        Seq::empty()
    } else {
        render_args(args.drop_last()).push(
            args.last().name@ + ": "@ + render_value(args.last().value),
        )
    }
}

/// `alias: name(arg: value, ...) { selections }`, each part only when present.
pub open spec fn render_field(f: FieldSel) -> Seq<char>
    decreases f,
{
    let alias = match f.alias {
        Some(a) => a@ + ": "@,
        None => Seq::empty(),
    };
    let args = if f.arguments.len() == 0 {
        Seq::empty()
    } else {
        "("@ + join(render_args(f.arguments@), ", "@) + ")"@
    };
    let body = if f.selection_set.len() == 0 {
        Seq::empty()
    } else {
        " { "@ + join(render_sels(f.selection_set@), " "@) + " }"@
    };
    alias + f.name@ + args + body
}

pub open spec fn render_sel(s: Sel) -> Seq<char>
    decreases s,
{
    match s {
        Sel::Field(f) => render_field(f),
        Sel::FragmentSpread(n) => "..."@ + n@,
        Sel::InlineFragment(i) => {
            let cond = match i.type_condition {
                Some(t) => "... on "@ + t@ + " "@,
                None => Seq::empty(),
            };
            cond + "{ "@ + join(render_sels(i.selection_set@), " "@) + " }"@
        },
    }
}

pub open spec fn render_sels(s: Seq<Sel>) -> Seq<Seq<char>>
    decreases s,
{
    if s.len() == 0 {
        Seq::empty()
    } else {
        render_sels(s.drop_last()).push(render_sel(s.last()))
    }
}

pub fn render_args_exec(args: &Vec<Arg>) -> (r: Vec<String>)
    ensures
        views_of(r@) == render_args(args@),
{
    let mut out: Vec<String> = Vec::new();
    let mut i: usize = 0;
    while i < args.len()
        invariant
            i <= args.len(),
            views_of(out@) == render_args(args@.take(i as int)),
        decreases args.len() - i,
    {
        assert(args@.take(i + 1).drop_last() =~= args@.take(i as int));
        let v = render_value_exec(&args[i].value);
        let mut s = args[i].name.clone();
        s.append(": ");
        s.append(v.as_str());
        let ghost before = out@;
        out.push(s);
        assert(views_of(out@) =~= views_of(before).push(s@));
        i = i + 1;
    }
    assert(args@.take(args.len() as int) =~= args@);
    out
}

pub fn render_field_exec(f: &FieldSel) -> (r: String)
    ensures
        r@ == render_field(*f),
    decreases f,
{
    let mut r = match &f.alias {
        Some(a) => {
            let mut p = a.clone();
            p.append(": ");
            p
        },
        None => String::new(),
    };
    r.append(f.name.as_str());
    if f.arguments.len() > 0 {
        let parts = render_args_exec(&f.arguments);
        let j = join_strings(&parts, ", ");
        r.append("(");
        r.append(j.as_str());
        r.append(")");
    }
    if f.selection_set.len() > 0 {
        let parts = render_sels_exec(&f.selection_set);
        let j = join_strings(&parts, " ");
        r.append(" { ");
        r.append(j.as_str());
        r.append(" }");
    }
    r
}

pub fn render_sel_exec(s: &Sel) -> (r: String)
    ensures
        r@ == render_sel(*s),
    decreases s,
{
    match s {
        Sel::Field(f) => render_field_exec(f),
        Sel::FragmentSpread(n) => {
            let mut r = "...".to_owned();
            r.append(n.as_str());
            r
        },
        Sel::InlineFragment(i) => {
            let mut r = match &i.type_condition {
                Some(t) => {
                    let mut p = "... on ".to_owned();
                    p.append(t.as_str());
                    p.append(" ");
                    p
                },
                None => String::new(),
            };
            let parts = render_sels_exec(&i.selection_set);
            let j = join_strings(&parts, " ");
            r.append("{ ");
            r.append(j.as_str());
            r.append(" }");
            r
        },
    }
}

pub fn render_sels_exec(sels: &Vec<Sel>) -> (r: Vec<String>)
    ensures
        views_of(r@) == render_sels(sels@),
    decreases sels,
{
    let mut out: Vec<String> = Vec::new();
    let mut i: usize = 0;
    while i < sels.len()
        invariant
            i <= sels.len(),
            views_of(out@) == render_sels(sels@.take(i as int)),
        decreases sels.len() - i,
    {
        assert(sels@.take(i + 1).drop_last() =~= sels@.take(i as int));
        proof {
            assert(decreases_to!(sels => sels@[i as int]));
        }
        let s = render_sel_exec(&sels[i]);
        let ghost before = out@;
        out.push(s);
        assert(views_of(out@) =~= views_of(before).push(s@));
        i = i + 1;
    }
    assert(sels@.take(sels.len() as int) =~= sels@);
    out
}

/// `$name: Type = default`.
pub open spec fn render_variable(v: VarDef) -> Seq<char> {
    "$"@ + v.name@ + ": "@ + v.ty@ + match v.default_value {
        Some(d) => " = "@ + render_value(d),
        None => Seq::empty(),
    }
}

pub fn render_variable_exec(v: &VarDef) -> (r: String)
    ensures
        r@ == render_variable(*v),
{
    let mut r = "$".to_owned();
    r.append(v.name.as_str());
    r.append(": ");
    r.append(v.ty.as_str());
    if let Some(d) = &v.default_value {
        let t = render_value_exec(d);
        r.append(" = ");
        r.append(t.as_str());
    }
    r
}


/// Scans braces left to right: the final depth and the position of the
/// last `{` opened at depth zero.
pub open spec fn brace_scan(s: Seq<char>) -> (int, Option<int>)
    decreases s.len(),
{
    if s.len() == 0 {
        (0, None)
    } else {
        let (d, st) = brace_scan(s.drop_last());
        let c = s.last();
        if c == '{' {
            (d + 1, if d == 0 {
                Some(s.len() - 1)
            } else {
                st
            })
        } else if c == '}' {
            (d - 1, st)
        } else {
            (d, st)
        }
    }
}

proof fn lemma_brace_scan_bounds(s: Seq<char>)
    ensures
        -s.len() <= brace_scan(s).0 <= s.len(),
        brace_scan(s).1 matches Some(i) ==> 0 <= i < s.len(),
    decreases s.len(),
{
    if s.len() > 0 {
        lemma_brace_scan_bounds(s.drop_last());
    }
}

/// Drops the selection set at the end of a rendered field: the text before
/// the last `{` at depth zero, without trailing white space.
pub open spec fn strip_selection_set(s: Seq<char>) -> Seq<char> {
    match brace_scan(s).1 {
        Some(i) => trim_end(s.subrange(0, i)),
        None => s,
    }
}

pub fn strip_selection_set_exec(rendered: &str) -> (r: String)
    ensures
        r@ == strip_selection_set(rendered@),
{
    let v = chars_of(rendered);
    let mut depth: i128 = 0;
    let mut start: Option<usize> = None;
    let mut i: usize = 0;
    while i < v.len()
        invariant
            i <= v.len(),
            (depth as int, match start {
                Some(k) => Some(k as int),
                None => None,
            }) == brace_scan(v@.take(i as int)),
        decreases v.len() - i,
    {
        assert(v@.take(i + 1).drop_last() =~= v@.take(i as int));
        proof {
            lemma_brace_scan_bounds(v@.take(i as int));
        }
        assert(-(i as int) <= depth <= i);
        if v[i] == '{' {
            if depth == 0 {
                start = Some(i);
            }
            depth = depth + 1;
        } else if v[i] == '}' {
            depth = depth - 1;
        }
        i = i + 1;
    }
    assert(v@.take(v.len() as int) =~= v@);
    proof {
        lemma_brace_scan_bounds(v@);
    }
    match start {
        Some(k) => {
            let mut j: usize = k;
            while j > 0 && is_ws_char(v[j - 1])
                invariant
                    k < v.len(),
                    j <= k,
                    trim_end(v@.subrange(0, k as int)) == trim_end(v@.subrange(0, j as int)),
                decreases j,
            {
                assert(v@.subrange(0, j as int).drop_last() =~= v@.subrange(0, j - 1));
                j = j - 1;
            }
            let mut out: Vec<char> = Vec::new();
            let mut m: usize = 0;
            while m < j
                invariant
                    j <= k < v.len(),
                    m <= j,
                    out@ == v@.subrange(0, m as int),
                decreases j - m,
            {
                out.push(v[m]);
                assert(out@ =~= v@.subrange(0, m + 1));
                m = m + 1;
            }
            string_of(out.as_slice())
        },
        None => string_of(v.as_slice()),
    }
}

/// `char::is_ascii_alphanumeric() || c == '_'`.
pub open spec fn is_name_char(c: char) -> bool {
    ('a' <= c && c <= 'z') || ('A' <= c && c <= 'Z') || ('0' <= c && c <= '9') || c == '_'
}

/// End of the run of name characters starting at `j`.
pub open spec fn name_end(t: Seq<char>, j: int) -> int
    decreases t.len() - j,
{
    if 0 <= j < t.len() && is_name_char(t[j]) {
        name_end(t, j + 1)
    } else {
        j
    }
}

pub proof fn lemma_name_end(t: Seq<char>, j: int)
    ensures
        name_end(t, j) >= j,
        0 <= j <= t.len() ==> name_end(t, j) <= t.len(),
        forall|m: int| j <= m < name_end(t, j) ==> is_name_char(#[trigger] t[m]),
        0 <= j <= t.len() && name_end(t, j) < t.len() ==> !is_name_char(t[name_end(t, j)]),
    decreases t.len() - j,
{
    if 0 <= j < t.len() && is_name_char(t[j]) {
        lemma_name_end(t, j + 1);
    }
}

/// The `$name` variable references in `t` from position `i` on, in order
/// and with repeats.
pub open spec fn var_uses_from(t: Seq<char>, i: int) -> Seq<Seq<char>>
    decreases t.len() - i,
{
    if i < 0 || i >= t.len() {
        Seq::empty()
    } else if t[i] == '$' {
        let j = name_end(t, i + 1);
        proof {
            lemma_name_end(t, i + 1);
        }
        (if j > i + 1 {
            seq![t.subrange(i + 1, j)]
        } else {
            Seq::empty()
        }) + var_uses_from(t, j)
    } else {
        var_uses_from(t, i + 1)
    }
}

/// The set of variables referenced in `t`.
pub open spec fn var_uses(t: Seq<char>) -> Set<Seq<char>> {
    var_uses_from(t, 0).to_set()
}

pub fn is_name_char_exec(c: char) -> (r: bool)
    ensures
        r == is_name_char(c),
{
    ('a' <= c && c <= 'z') || ('A' <= c && c <= 'Z') || ('0' <= c && c <= '9') || c == '_'
}

/// Lexicographic order on characters (the order of `String`).
pub open spec fn seq_lt(a: Seq<char>, b: Seq<char>) -> bool
    decreases a.len(),
{
    if a.len() == 0 {
        b.len() > 0
    } else if b.len() == 0 {
        false
    } else if a[0] < b[0] {
        true
    } else if a[0] == b[0] {
        seq_lt(a.drop_first(), b.drop_first())
    } else {
        false
    }
}

pub proof fn lemma_seq_lt_total(a: Seq<char>, b: Seq<char>)
    ensures
        a != b ==> seq_lt(a, b) || seq_lt(b, a),
        !(seq_lt(a, b) && seq_lt(b, a)),
        !seq_lt(a, a),
    decreases a.len(),
{
    if a.len() > 0 && b.len() > 0 {
        lemma_seq_lt_total(a.drop_first(), b.drop_first());
        if a[0] == b[0] && a != b {
            assert(a =~= seq![a[0]] + a.drop_first());
            assert(b =~= seq![b[0]] + b.drop_first());
        }
        lemma_seq_lt_total(a.drop_first(), a.drop_first());
    } else if a.len() == 0 && b.len() == 0 {
        assert(a =~= b);
    } else if a.len() > 0 {
        lemma_seq_lt_total(a.drop_first(), a.drop_first());
    }
}

pub fn str_lt(a: &String, b: &String) -> (r: bool)
    ensures
        r == seq_lt(a@, b@),
{
    let av = chars_of(a.as_str());
    let bv = chars_of(b.as_str());
    let mut i: usize = 0;
    assert(av@.skip(0) =~= av@);
    assert(bv@.skip(0) =~= bv@);
    while i < av.len() && i < bv.len()
        invariant
            av@ == a@,
            bv@ == b@,
            i <= av.len(),
            i <= bv.len(),
            seq_lt(av@, bv@) == seq_lt(av@.skip(i as int), bv@.skip(i as int)),
        decreases av.len() - i,
    {
        assert(av@.skip(i as int).drop_first() =~= av@.skip(i + 1));
        assert(bv@.skip(i as int).drop_first() =~= bv@.skip(i + 1));
        assert(av@.skip(i as int)[0] == av@[i as int]);
        assert(bv@.skip(i as int)[0] == bv@[i as int]);
        if av[i] < bv[i] {
            return true;
        }
        if av[i] != bv[i] {
            return false;
        }
        i = i + 1;
    }
    i == av.len() && i < bv.len()
}

/// Adjacent elements strictly increase.
pub open spec fn strictly_sorted(s: Seq<Seq<char>>) -> bool {
    forall|i: int| 0 <= i < s.len() - 1 ==> seq_lt(#[trigger] s[i], s[i + 1])
}

/// Adds `x` to a strictly sorted list, unless it is already there.
fn sorted_insert(r: &mut Vec<String>, x: String)
    requires
        strictly_sorted(views_of(old(r)@)),
    ensures
        strictly_sorted(views_of(final(r)@)),
        views_of(final(r)@).to_set() == views_of(old(r)@).to_set().insert(x@),
{
    let ghost before = views_of(r@);
    let mut k: usize = 0;
    while k < r.len() && str_lt(&r[k], &x)
        invariant
            k <= r.len(),
            r@ == old(r)@,
            before == views_of(r@),
            forall|m: int| 0 <= m < k ==> seq_lt(#[trigger] before[m], x@),
        decreases r.len() - k,
    {
        k = k + 1;
    }
    if k < r.len() && str_eq_string(&r[k], &x) {
        assert(before.to_set().insert(x@) =~= before.to_set()) by {
            assert(before[k as int] == x@);
        }
        return;
    }
    proof {
        if k < r.len() {
            lemma_seq_lt_total(before[k as int], x@);
        }
    }
    let ghost xv = x@;
    r.insert(k, x);
    let ghost after = views_of(r@);
    assert(after =~= before.insert(k as int, xv));
    assert forall|i: int| 0 <= i < after.len() - 1 implies seq_lt(#[trigger] after[i], after[i + 1]) by {
        if i < k - 1 {
            assert(after[i] == before[i] && after[i + 1] == before[i + 1]);
        } else if i == k - 1 {
            assert(after[i] == before[i] && after[i + 1] == xv);
        } else if i == k {
            assert(after[i] == xv && after[i + 1] == before[i]);
        } else {
            assert(after[i] == before[i - 1] && after[i + 1] == before[i]);
        }
    }
    assert(after.to_set() =~= before.to_set().insert(xv)) by {
        assert forall|y: Seq<char>| after.to_set().contains(y) <==> before.to_set().insert(xv).contains(
            y,
        ) by {
            if after.to_set().contains(y) {
                let i = choose|i: int| 0 <= i < after.len() && after[i] == y;
                if i < k {
                    assert(before[i] == y);
                } else if i > k {
                    assert(before[i - 1] == y);
                }
            }
            if before.to_set().contains(y) {
                let i = choose|i: int| 0 <= i < before.len() && before[i] == y;
                if i < k {
                    assert(after[i] == y);
                } else {
                    assert(after[i + 1] == y);
                }
            }
            if y == xv {
                assert(after[k as int] == y);
            }
        }
    }
}

fn str_eq_string(a: &String, b: &String) -> (r: bool)
    ensures
        r == (a@ == b@),
{
    crate::text::str_eq(a.as_str(), b.as_str())
}

/// The variables referenced in `text`, sorted and without repeats.
pub fn collect_variable_names(text: &str) -> (r: Vec<String>)
    ensures
        strictly_sorted(views_of(r@)),
        views_of(r@).to_set() == var_uses(text@),
{
    let t = chars_of(text);
    let mut out: Vec<String> = Vec::new();
    let mut i: usize = 0;
    assert(views_of(out@).to_set() =~= Set::<Seq<char>>::empty());
    while i < t.len()
        invariant
            i <= t.len(),
            t@ == text@,
            strictly_sorted(views_of(out@)),
            views_of(out@).to_set() + var_uses_from(t@, i as int).to_set() == var_uses(text@),
        decreases t.len() - i,
    {
        if t[i] == '$' {
            let mut j: usize = i + 1;
            proof {
                lemma_name_end(t@, i + 1);
            }
            while j < t.len() && is_name_char_exec(t[j])
                invariant
                    i < j <= t.len(),
                    name_end(t@, j as int) == name_end(t@, i + 1),
                decreases t.len() - j,
            {
                j = j + 1;
            }
            let ghost rest = var_uses_from(t@, j as int);
            if j > i + 1 {
                let mut name: Vec<char> = Vec::new();
                let mut m: usize = i + 1;
                while m < j
                    invariant
                        i + 1 <= m <= j <= t.len(),
                        name@ == t@.subrange(i + 1, m as int),
                    decreases j - m,
                {
                    name.push(t[m]);
                    assert(name@ =~= t@.subrange(i + 1, m + 1));
                    m = m + 1;
                }
                let ghost nv = name@;
                let ghost before = views_of(out@).to_set();
                sorted_insert(&mut out, string_of(name.as_slice()));
                assert(var_uses_from(t@, i as int) == seq![nv] + rest);
                assert((seq![nv] + rest).to_set() =~= rest.to_set().insert(nv)) by {
                    assert forall|y: Seq<char>| (seq![nv] + rest).to_set().contains(y) <==> rest.to_set().insert(nv).contains(y) by {
                        if (seq![nv] + rest).to_set().contains(y) {
                            let q = choose|q: int| 0 <= q < (seq![nv] + rest).len() && (seq![nv] + rest)[q] == y;
                            if q > 0 {
                                assert(rest[q - 1] == y);
                            }
                        }
                        if rest.to_set().contains(y) {
                            let q = choose|q: int| 0 <= q < rest.len() && rest[q] == y;
                            assert((seq![nv] + rest)[q + 1] == y);
                        }
                        if y == nv {
                            assert((seq![nv] + rest)[0] == y);
                        }
                    }
                }
                assert(views_of(out@).to_set() + rest.to_set() =~= before + var_uses_from(t@, i as int).to_set());
            } else {
                assert(var_uses_from(t@, i as int) =~= rest);
            }
            i = j;
        } else {
            i = i + 1;
        }
    }
    assert(var_uses_from(t@, i as int) =~= Seq::<Seq<char>>::empty());
    assert(views_of(out@).to_set() + Seq::<Seq<char>>::empty().to_set() =~= views_of(out@).to_set());
    out
}


/// The text a field selection is rendered to starts with the key it answers
/// under: the alias, `: ` and the field name when it has an alias, else the
/// field name.
pub proof fn lemma_render_field_starts_with_key(f: FieldSel)
    ensures
        starts_with(
            render_field(f),
            match f.alias {
                Some(a) => a@ + ": "@ + f.name@,
                None => f.name@,
            },
        ),
{
    let key = match f.alias {
        Some(a) => a@ + ": "@ + f.name@,
        None => f.name@,
    };
    let alias = match f.alias {
        Some(a) => a@ + ": "@,
        None => Seq::<char>::empty(),
    };
    let args = if f.arguments.len() == 0 {
        Seq::<char>::empty()
    } else {
        "("@ + join(render_args(f.arguments@), ", "@) + ")"@
    };
    let body = if f.selection_set.len() == 0 {
        Seq::<char>::empty()
    } else {
        " { "@ + join(render_sels(f.selection_set@), " "@) + " }"@
    };
    assert(render_field(f) == alias + f.name@ + args + body);
    assert(key =~= alias + f.name@);
    assert((alias + f.name@ + args + body).subrange(0, key.len() as int) =~= key);
}

} // verus!
