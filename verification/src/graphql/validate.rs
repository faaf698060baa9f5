//! Schema-less validation of executable documents: the document holds an
//! operation, `apollo-compiler`'s standalone checks pass, and every variable
//! an operation's arguments reference is declared on it. Errors with the same
//! message are reported once.

use vstd::prelude::*;
use crate::graphql::ast::{standalone_diagnostics, standalone_validation, Arg, Doc, GValue, Operation, Sel, TopDef};
use crate::graphql::parse::{diagnostic_errors, diagnostics_to_errors};
use crate::graphql::types::{errors_view, GraphQLError, GraphQLErrorView};
use crate::json::JsonV;
use crate::plan::render::views_of;
use crate::text::str_eq;

verus! {

broadcast use {vstd::std_specs::vec::axiom_vec_index_decreases, vstd::seq::axiom_seq_subrange_decreases};

/// The variables a value references, in document order.
pub open spec fn value_uses(v: GValue) -> Seq<Seq<char>>
    decreases v,
{
    match v {
        GValue::Variable(n) => seq![n@],
        GValue::List(items) => values_uses(items@),
        GValue::Object(es) => members_uses(es@),
        _ => Seq::empty(),
    }
}

pub open spec fn values_uses(s: Seq<GValue>) -> Seq<Seq<char>>
    decreases s,
{
    if s.len() == 0 {
        Seq::empty()
    } else {
        values_uses(s.drop_last()) + value_uses(s.last())
    }
}

pub open spec fn members_uses(s: Seq<(String, GValue)>) -> Seq<Seq<char>>
    decreases s,
{
    if s.len() == 0 {
        Seq::empty()
    } else {
        members_uses(s.drop_last()) + value_uses(s.last().1)
    }
}

/// The variables referenced by the arguments of the fields in a selection,
/// in document order. Fragment spreads are not followed.
pub open spec fn sel_uses(s: Sel) -> Seq<Seq<char>>
    decreases s,
{
    match s {
        Sel::Field(f) => args_uses(f.arguments@) + sels_uses(f.selection_set@),
        Sel::InlineFragment(i) => sels_uses(i.selection_set@),
        Sel::FragmentSpread(_) => Seq::empty(),
    }
}

pub open spec fn args_uses(s: Seq<Arg>) -> Seq<Seq<char>>
    decreases s.len(),
{
    if s.len() == 0 {
        Seq::empty()
    } else {
        args_uses(s.drop_last()) + value_uses(s.last().value)
    }
}

pub open spec fn sels_uses(s: Seq<Sel>) -> Seq<Seq<char>>
    decreases s,
{
    if s.len() == 0 {
        Seq::empty()
    } else {
        sels_uses(s.drop_last()) + sel_uses(s.last())
    }
}

/// `op` declares `$name`.
pub open spec fn declares(op: Operation, name: Seq<char>) -> bool {
    exists|i: int| 0 <= i < op.variables.len() && #[trigger] op.variables@[i].name@ == name
}

/// The operation's name, or `<anonymous>`.
pub open spec fn op_label(op: Operation) -> Seq<char> {
    match op.name {
        Some(n) => n@,
        None => "<anonymous>"@,
    }
}

/// An error with only a message.
pub open spec fn message_error(m: Seq<char>) -> GraphQLErrorView {
    GraphQLErrorView {
        message: m,
        locations: Seq::empty(),
        path: Seq::<JsonV>::empty(),
        extensions: None,
    }
}

pub open spec fn undeclared_error(op: Operation, name: Seq<char>) -> GraphQLErrorView {
    message_error(
        "Variable \"$"@ + name + "\" is not declared on operation \""@ + op_label(op) + "\"."@,
    )
}

/// One error per use of an undeclared variable.
pub open spec fn op_undeclared(op: Operation, uses: Seq<Seq<char>>) -> Seq<GraphQLErrorView>
    decreases uses.len(),
{
    if uses.len() == 0 {
        Seq::empty()
    } else {
        op_undeclared(op, uses.drop_last()) + if declares(op, uses.last()) {
            Seq::empty()
        } else {
            seq![undeclared_error(op, uses.last())]
        }
    }
}

pub open spec fn def_undeclared(d: TopDef) -> Seq<GraphQLErrorView> {
    match d {
        TopDef::Operation(op) => op_undeclared(op, sels_uses(op.selection_set@)),
        _ => Seq::empty(),
    }
}

pub open spec fn undeclared_part(defs: Seq<TopDef>) -> Seq<GraphQLErrorView>
    decreases defs.len(),
{
    if defs.len() == 0 {
        Seq::empty()
    } else {
        undeclared_part(defs.drop_last()) + def_undeclared(defs.last())
    }
}

pub open spec fn has_operation(defs: Seq<TopDef>) -> bool {
    exists|i: int| 0 <= i < defs.len() && #[trigger] defs[i] is Operation
}

pub open spec fn has_message(d: Seq<GraphQLErrorView>, m: Seq<char>) -> bool {
    exists|k: int| 0 <= k < d.len() && #[trigger] d[k].message == m
}

/// `e` appended to `d` unless `d` already has an error with its message.
pub open spec fn add_unique(d: Seq<GraphQLErrorView>, e: GraphQLErrorView) -> Seq<GraphQLErrorView> {
    if has_message(d, e.message) {
        d
    } else {
        d.push(e)
    }
}

/// Each of `es` in turn added to `d` with [`add_unique`].
pub open spec fn add_all_unique(d: Seq<GraphQLErrorView>, es: Seq<GraphQLErrorView>) -> Seq<
    GraphQLErrorView,
>
    decreases es.len(),
{
    if es.len() == 0 {
        d
    } else {
        add_unique(add_all_unique(d, es.drop_last()), es.last())
    }
}

/// The errors reported for a document whose standalone validation produced
/// `diagnostics` (`None` when it passed).
pub open spec fn validation_errors(defs: Seq<TopDef>, diagnostics: Option<Seq<char>>) -> Seq<
    GraphQLErrorView,
> {
    let from_diagnostics = match diagnostics {
        Some(t) => diagnostic_errors(t),
        None => Seq::empty(),
    };
    let no_operation = if has_operation(defs) {
        Seq::empty()
    } else {
        seq![message_error("Document must contain at least one operation."@)]
    };
    add_all_unique(
        add_all_unique(add_all_unique(Seq::empty(), from_diagnostics), no_operation),
        undeclared_part(defs),
    )
}

fn value_uses_into(v: &GValue, out: &mut Vec<String>)
    ensures
        views_of(final(out)@) == views_of(old(out)@) + value_uses(*v),
    decreases v,
{
    let ghost start = views_of(out@);
    match v {
        GValue::Variable(n) => {
            out.push(n.clone());
            assert(views_of(out@) =~= start + seq![n@]);
        },
        GValue::List(items) => {
            values_uses_into(items, out);
        },
        GValue::Object(es) => {
            members_uses_into(es, out);
        },
        _ => {
            assert(views_of(out@) =~= start + Seq::<Seq<char>>::empty());
        },
    }
}

fn values_uses_into(items: &Vec<GValue>, out: &mut Vec<String>)
    ensures
        views_of(final(out)@) == views_of(old(out)@) + values_uses(items@),
    decreases items,
{
    let ghost start = views_of(out@);
    let mut i: usize = 0;
    assert(views_of(out@) =~= start + values_uses(items@.take(0)));
    while i < items.len()
        invariant
            i <= items.len(),
            views_of(out@) == start + values_uses(items@.take(i as int)),
        decreases items.len() - i,
    {
        assert(items@.take(i + 1).drop_last() =~= items@.take(i as int));
        proof {
            assert(decreases_to!(items => items@[i as int]));
        }
        value_uses_into(&items[i], out);
        assert(views_of(out@) =~= start + values_uses(items@.take(i + 1)));
        i = i + 1;
    }
    assert(items@.take(items.len() as int) =~= items@);
}

fn members_uses_into(es: &Vec<(String, GValue)>, out: &mut Vec<String>)
    ensures
        views_of(final(out)@) == views_of(old(out)@) + members_uses(es@),
    decreases es,
{
    let ghost start = views_of(out@);
    let mut i: usize = 0;
    assert(views_of(out@) =~= start + members_uses(es@.take(0)));
    while i < es.len()
        invariant
            i <= es.len(),
            views_of(out@) == start + members_uses(es@.take(i as int)),
        decreases es.len() - i,
    {
        assert(es@.take(i + 1).drop_last() =~= es@.take(i as int));
        proof {
            assert(decreases_to!(es => es@[i as int]));
        }
        value_uses_into(&es[i].1, out);
        assert(views_of(out@) =~= start + members_uses(es@.take(i + 1)));
        i = i + 1;
    }
    assert(es@.take(es.len() as int) =~= es@);
}

pub(crate) fn sel_uses_into(s: &Sel, out: &mut Vec<String>)
    ensures
        views_of(final(out)@) == views_of(old(out)@) + sel_uses(*s),
    decreases s,
{
    let ghost start = views_of(out@);
    match s {
        Sel::Field(f) => {
            let ghost args = f.arguments@;
            let mut i: usize = 0;
            assert(views_of(out@) =~= start + args_uses(args.take(0)));
            while i < f.arguments.len()
                invariant
                    i <= f.arguments.len(),
                    args == f.arguments@,
                    views_of(out@) == start + args_uses(args.take(i as int)),
                decreases f.arguments.len() - i,
            {
                assert(args.take(i + 1).drop_last() =~= args.take(i as int));
                value_uses_into(&f.arguments[i].value, out);
                assert(views_of(out@) =~= start + args_uses(args.take(i + 1)));
                i = i + 1;
            }
            assert(args.take(f.arguments.len() as int) =~= args);
            sels_uses_into(&f.selection_set, out);
            assert(views_of(out@) =~= start + (args_uses(args) + sels_uses(f.selection_set@)));
        },
        Sel::InlineFragment(i) => {
            sels_uses_into(&i.selection_set, out);
        },
        Sel::FragmentSpread(_) => {
            assert(views_of(out@) =~= start + Seq::<Seq<char>>::empty());
        },
    }
}

fn sels_uses_into(ss: &Vec<Sel>, out: &mut Vec<String>)
    ensures
        views_of(final(out)@) == views_of(old(out)@) + sels_uses(ss@),
    decreases ss,
{
    let ghost start = views_of(out@);
    let mut i: usize = 0;
    assert(views_of(out@) =~= start + sels_uses(ss@.take(0)));
    while i < ss.len()
        invariant
            i <= ss.len(),
            views_of(out@) == start + sels_uses(ss@.take(i as int)),
        decreases ss.len() - i,
    {
        assert(ss@.take(i + 1).drop_last() =~= ss@.take(i as int));
        proof {
            assert(decreases_to!(ss => ss@[i as int]));
        }
        sel_uses_into(&ss[i], out);
        assert(views_of(out@) =~= start + sels_uses(ss@.take(i + 1)));
        i = i + 1;
    }
    assert(ss@.take(ss.len() as int) =~= ss@);
}

fn declares_exec(op: &Operation, name: &String) -> (r: bool)
    ensures
        r == declares(*op, name@),
{
    let mut i: usize = 0;
    while i < op.variables.len()
        invariant
            i <= op.variables.len(),
            forall|k: int| 0 <= k < i ==> op.variables@[k].name@ != name@,
        decreases op.variables.len() - i,
    {
        if str_eq(op.variables[i].name.as_str(), name.as_str()) {
            return true;
        }
        i = i + 1;
    }
    false
}

fn message_error_exec(m: String) -> (r: GraphQLError)
    ensures
        r@ == message_error(m@),
{
    GraphQLError::message(m)
}

/// Adds `e` to `out` unless an error with the same message is there.
fn push_unique(out: &mut Vec<GraphQLError>, e: GraphQLError)
    ensures
        errors_view(final(out)@) == add_unique(errors_view(old(out)@), e@),
{
    let ghost d = errors_view(out@);
    let mut k: usize = 0;
    while k < out.len()
        invariant
            k <= out.len(),
            d == errors_view(out@),
            forall|j: int| 0 <= j < k ==> #[trigger] d[j].message != e@.message,
        decreases out.len() - k,
    {
        assert(d[k as int].message == out@[k as int].message@);
        if str_eq(out[k].message.as_str(), e.message.as_str()) {
            return;
        }
        k = k + 1;
    }
    let ghost ev = e@;
    out.push(e);
    assert(errors_view(out@) =~= d.push(ev));
}

/// Adds each of `es`, in order, with [`push_unique`].
fn push_all_unique(out: &mut Vec<GraphQLError>, es: Vec<GraphQLError>)
    ensures
        errors_view(final(out)@) == add_all_unique(errors_view(old(out)@), errors_view(es@)),
{
    let ghost d = errors_view(out@);
    let ghost all = errors_view(es@);
    assert(all.len() == es.len());
    let mut rest = es;
    let mut i: usize = 0;
    while rest.len() > 0
        invariant
            i + rest.len() == all.len(),
            all.len() <= usize::MAX,
            errors_view(rest@) == all.skip(i as int),
            errors_view(out@) == add_all_unique(d, all.take(i as int)),
        decreases rest.len(),
    {
        let ghost old_rest = rest@;
        let e = rest.remove(0);
        assert(errors_view(old_rest)[0] == e@);
        assert(all.skip(i as int)[0] == all[i as int]);
        assert(all.take(i + 1).drop_last() =~= all.take(i as int));
        push_unique(out, e);
        assert(rest@ =~= old_rest.skip(1));
        assert(errors_view(rest@) =~= errors_view(old_rest).skip(1));
        assert(all.skip(i as int).skip(1) =~= all.skip(i + 1));
        i = i + 1;
    }
    assert(all.take(i as int) =~= all);
}

/// The validation errors of `doc`, given the outcome of its standalone
/// validation (`None` when it passed).
pub fn validate_with_diagnostics(doc: &Doc, diagnostics: Option<&str>) -> (r: Vec<GraphQLError>)
    ensures
        errors_view(r@) == validation_errors(doc.definitions@, opt_text(diagnostics)),
{
    let mut errors: Vec<GraphQLError> = Vec::new();
    assert(errors_view(errors@) =~= Seq::<GraphQLErrorView>::empty());
    let ghost from_diagnostics = match opt_text(diagnostics) {
        Some(t) => diagnostic_errors(t),
        None => Seq::empty(),
    };
    if let Some(t) = diagnostics {
        push_all_unique(&mut errors, diagnostics_to_errors(t));
    }
    let ghost after_diag = errors_view(errors@);
    assert(after_diag == add_all_unique(Seq::empty(), from_diagnostics));
    let defs = &doc.definitions;
    let mut found = false;
    let mut i: usize = 0;
    while i < defs.len()
        invariant
            i <= defs.len(),
            found == exists|k: int| 0 <= k < i && #[trigger] defs@[k] is Operation,
        decreases defs.len() - i,
    {
        if let TopDef::Operation(_) = &defs[i] {
            found = true;
        }
        i = i + 1;
    }
    assert(found == has_operation(doc.definitions@));
    if !found {
        let mut v: Vec<GraphQLError> = Vec::new();
        let e = message_error_exec("Document must contain at least one operation.".to_owned());
        v.push(e);
        assert(errors_view(v@) =~= seq![message_error("Document must contain at least one operation."@)]);
        push_all_unique(&mut errors, v);
    } else {
        assert(has_operation(doc.definitions@));
    }
    let ghost base = errors_view(errors@);
    assert(base == add_all_unique(after_diag, if has_operation(doc.definitions@) {
        Seq::empty()
    } else {
        seq![message_error("Document must contain at least one operation."@)]
    }));
    let mut i: usize = 0;
    while i < defs.len()
        invariant
            i <= defs.len(),
            defs@ == doc.definitions@,
            errors_view(errors@) == add_all_unique(base, undeclared_part(defs@.take(i as int))),
        decreases defs.len() - i,
    {
        assert(defs@.take(i + 1).drop_last() =~= defs@.take(i as int));
        let ghost before = undeclared_part(defs@.take(i as int));
        if let TopDef::Operation(op) = &defs[i] {
            let mut uses: Vec<String> = Vec::new();
            sels_uses_into(&op.selection_set, &mut uses);
            let ghost u = views_of(uses@);
            assert(u =~= sels_uses(op.selection_set@));
            let mut j: usize = 0;
            while j < uses.len()
                invariant
                    j <= uses.len(),
                    u == views_of(uses@),
                    errors_view(errors@) == add_all_unique(base, before + op_undeclared(*op, u.take(j as int))),
                decreases uses.len() - j,
            {
                assert(u.take(j + 1).drop_last() =~= u.take(j as int));
                assert(u[j as int] == uses@[j as int]@);
                if !declares_exec(op, &uses[j]) {
                    let mut m = "Variable \"$".to_owned();
                    m.append(uses[j].as_str());
                    m.append("\" is not declared on operation \"");
                    match &op.name {
                        Some(n) => m.append(n.as_str()),
                        None => m.append("<anonymous>"),
                    }
                    m.append("\".");
                    let e = message_error_exec(m);
                    assert(e@ == undeclared_error(*op, u[j as int]));
                    let ghost gen = before + op_undeclared(*op, u.take(j as int));
                    push_unique(&mut errors, e);
                    assert(before + op_undeclared(*op, u.take(j + 1)) =~= gen.push(e@));
                    assert(gen.push(e@).drop_last() =~= gen);
                } else {
                    assert(before + op_undeclared(*op, u.take(j + 1)) =~= before + op_undeclared(
                        *op,
                        u.take(j as int),
                    ));
                }
                j = j + 1;
            }
            assert(u.take(uses.len() as int) =~= u);
        } else {
            assert(before + def_undeclared(defs@[i as int]) =~= before);
        }
        i = i + 1;
    }
    assert(defs@.take(defs.len() as int) =~= defs@);
    assert(errors_view(errors@) == add_all_unique(base, undeclared_part(doc.definitions@)));
    errors
}

pub open spec fn opt_text(o: Option<&str>) -> Option<Seq<char>> {
    match o {
        Some(t) => Some(t@),
        None => None,
    }
}

/// Validates `doc`: the diagnostics of its standalone validation, a missing
/// operation and undeclared variables, each message once.
pub fn validate(doc: &Doc) -> (r: Vec<GraphQLError>)
    ensures
        errors_view(r@) == validation_errors(
            doc.definitions@,
            standalone_validation(doc.source_text(), doc.source_path()),
        ),
{
    let diagnostics = standalone_diagnostics(doc);
    match &diagnostics {
        Some(t) => validate_with_diagnostics(doc, Some(t.as_str())),
        None => validate_with_diagnostics(doc, None),
    }
}

proof fn lemma_add_unique(d: Seq<GraphQLErrorView>, e: GraphQLErrorView, m: Seq<char>)
    ensures
        has_message(add_unique(d, e), e.message),
        has_message(d, m) ==> has_message(add_unique(d, e), m),
        has_message(add_unique(d, e), m) ==> has_message(d, m) || m == e.message,
{
    if !has_message(d, e.message) {
        let r = d.push(e);
        assert(r[d.len() as int].message == e.message);
        if has_message(d, m) {
            let k = choose|k: int| 0 <= k < d.len() && #[trigger] d[k].message == m;
            assert(r[k].message == m);
        }
        if has_message(r, m) {
            let k = choose|k: int| 0 <= k < r.len() && #[trigger] r[k].message == m;
            if k < d.len() {
                assert(d[k].message == m);
            }
        }
    }
}

/// Adding errors one by one keeps every message already there and adds the
/// message of each of them.
pub proof fn lemma_add_all_unique_has(d: Seq<GraphQLErrorView>, es: Seq<GraphQLErrorView>, m: Seq<char>)
    ensures
        has_message(d, m) ==> has_message(add_all_unique(d, es), m),
        (exists|k: int| 0 <= k < es.len() && #[trigger] es[k].message == m) ==> has_message(
            add_all_unique(d, es),
            m,
        ),
    decreases es.len(),
{
    if es.len() > 0 {
        let prev = add_all_unique(d, es.drop_last());
        lemma_add_all_unique_has(d, es.drop_last(), m);
        lemma_add_unique(prev, es.last(), m);
        if exists|k: int| 0 <= k < es.len() && #[trigger] es[k].message == m {
            let k = choose|k: int| 0 <= k < es.len() && #[trigger] es[k].message == m;
            if k < es.len() - 1 {
                assert(es.drop_last()[k].message == m);
            }
        }
    }
}

/// No two errors share a message.
pub open spec fn messages_unique(d: Seq<GraphQLErrorView>) -> bool {
    forall|i: int, j: int| 0 <= i < j < d.len() ==> #[trigger] d[i].message != #[trigger] d[j].message
}

proof fn lemma_add_all_unique_unique(d: Seq<GraphQLErrorView>, es: Seq<GraphQLErrorView>)
    requires
        messages_unique(d),
    ensures
        messages_unique(add_all_unique(d, es)),
    decreases es.len(),
{
    if es.len() > 0 {
        lemma_add_all_unique_unique(d, es.drop_last());
        let prev = add_all_unique(d, es.drop_last());
        let e = es.last();
        if !has_message(prev, e.message) {
            let r = prev.push(e);
            assert forall|i: int, j: int| 0 <= i < j < r.len() implies #[trigger] r[i].message != #[trigger] r[j].message by {
                if j == prev.len() {
                    if r[i].message == e.message {
                        assert(prev[i].message == e.message);
                    }
                } else {
                    assert(r[i] == prev[i] && r[j] == prev[j]);
                }
            }
        }
    }
}

/// Whatever the standalone validation reported, no message is reported twice.
pub proof fn lemma_messages_reported_once(defs: Seq<TopDef>, diagnostics: Option<Seq<char>>)
    ensures
        messages_unique(validation_errors(defs, diagnostics)),
{
    let from_diagnostics = match diagnostics {
        Some(t) => diagnostic_errors(t),
        None => Seq::empty(),
    };
    let no_operation = if has_operation(defs) {
        Seq::empty()
    } else {
        seq![message_error("Document must contain at least one operation."@)]
    };
    lemma_add_all_unique_unique(Seq::empty(), from_diagnostics);
    lemma_add_all_unique_unique(add_all_unique(Seq::empty(), from_diagnostics), no_operation);
    lemma_add_all_unique_unique(
        add_all_unique(add_all_unique(Seq::empty(), from_diagnostics), no_operation),
        undeclared_part(defs),
    );
}

/// Whatever the standalone validation reported, a document without an
/// operation is reported as such.
pub proof fn lemma_missing_operation_reported(defs: Seq<TopDef>, diagnostics: Option<Seq<char>>)
    requires
        !has_operation(defs),
    ensures
        has_message(validation_errors(defs, diagnostics), "Document must contain at least one operation."@),
{
    let m = "Document must contain at least one operation."@;
    let from_diagnostics = match diagnostics {
        Some(t) => diagnostic_errors(t),
        None => Seq::empty(),
    };
    let no_operation = seq![message_error(m)];
    let a = add_all_unique(Seq::empty(), from_diagnostics);
    assert(no_operation[0].message == m);
    lemma_add_all_unique_has(a, no_operation, m);
    lemma_add_all_unique_has(add_all_unique(a, no_operation), undeclared_part(defs), m);
}

proof fn lemma_op_undeclared_has(op: Operation, uses: Seq<Seq<char>>, u: int)
    requires
        0 <= u < uses.len(),
        !declares(op, uses[u]),
    ensures
        exists|k: int|
            0 <= k < op_undeclared(op, uses).len() && #[trigger] op_undeclared(op, uses)[k] == undeclared_error(
                op,
                uses[u],
            ),
    decreases uses.len(),
{
    let prev = op_undeclared(op, uses.drop_last());
    if u == uses.len() - 1 {
        assert(op_undeclared(op, uses)[prev.len() as int] == undeclared_error(op, uses[u]));
    } else {
        assert(uses.drop_last()[u] == uses[u]);
        lemma_op_undeclared_has(op, uses.drop_last(), u);
        let k = choose|k: int| 0 <= k < prev.len() && #[trigger] prev[k] == undeclared_error(op, uses[u]);
        assert(op_undeclared(op, uses)[k] == prev[k]);
    }
}

proof fn lemma_undeclared_part_has(defs: Seq<TopDef>, i: int, e: GraphQLErrorView)
    requires
        0 <= i < defs.len(),
        exists|k: int| 0 <= k < def_undeclared(defs[i]).len() && #[trigger] def_undeclared(defs[i])[k] == e,
    ensures
        exists|k: int| 0 <= k < undeclared_part(defs).len() && #[trigger] undeclared_part(defs)[k] == e,
    decreases defs.len(),
{
    let prev = undeclared_part(defs.drop_last());
    if i == defs.len() - 1 {
        let k = choose|k: int| 0 <= k < def_undeclared(defs[i]).len() && #[trigger] def_undeclared(defs[i])[k] == e;
        assert(undeclared_part(defs)[prev.len() + k] == e);
    } else {
        assert(defs.drop_last()[i] == defs[i]);
        lemma_undeclared_part_has(defs.drop_last(), i, e);
        let k = choose|k: int| 0 <= k < prev.len() && #[trigger] prev[k] == e;
        assert(undeclared_part(defs)[k] == e);
    }
}

/// Whatever the standalone validation reported, every variable that an
/// operation's arguments reference without declaring it is reported, naming
/// the variable and the operation.
pub proof fn lemma_undeclared_variable_reported(defs: Seq<TopDef>, diagnostics: Option<Seq<char>>, i: int, u: int)
    requires
        0 <= i < defs.len(),
        defs[i] is Operation,
        0 <= u < sels_uses(defs[i]->Operation_0.selection_set@).len(),
        !declares(defs[i]->Operation_0, sels_uses(defs[i]->Operation_0.selection_set@)[u]),
    ensures
        has_message(
            validation_errors(defs, diagnostics),
            undeclared_error(defs[i]->Operation_0, sels_uses(defs[i]->Operation_0.selection_set@)[u]).message,
        ),
{
    let op = defs[i]->Operation_0;
    let uses = sels_uses(op.selection_set@);
    let e = undeclared_error(op, uses[u]);
    lemma_op_undeclared_has(op, uses, u);
    lemma_undeclared_part_has(defs, i, e);
    let part = undeclared_part(defs);
    let k = choose|k: int| 0 <= k < part.len() && #[trigger] part[k] == e;
    assert(part[k].message == e.message);
    let from_diagnostics = match diagnostics {
        Some(t) => diagnostic_errors(t),
        None => Seq::empty(),
    };
    let no_operation = if has_operation(defs) {
        Seq::empty()
    } else {
        seq![message_error("Document must contain at least one operation."@)]
    };
    lemma_add_all_unique_has(
        add_all_unique(add_all_unique(Seq::empty(), from_diagnostics), no_operation),
        part,
        e.message,
    );
}

} // verus!
