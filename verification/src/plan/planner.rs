//! Query planning.
//!
//! 1. Pick the operation (named or the only one) in the parsed document.
//! 2. For each top-level field, find the owning subgraph in the catalog's
//!    root field tables.
//! 3. When the field returns an entity type, split its sub-selections by
//!    owning subgraph: the owner's fields stay in the initial query, the
//!    others become one `_entities` fragment per extending subgraph.
//! 4. The initial query always selects `__typename` and the entity's key
//!    field so the executor can build representations.
//! 5. Only the variables the synthesized operation references are kept.

use vstd::prelude::*;
use crate::graphql::ast::{Doc, FieldSel, OpType, Operation, Sel, TopDef, VarDef};
use crate::strmap::{key_index, key_lookup, lemma_key_index, lemma_key_index_unique, lemma_key_absent, StrMap};
use crate::supergraph::catalog::{CatalogView, EntityTypeView, RouteView, SupergraphCatalog, SupergraphRoute, str_views};
use crate::text::{ends_with, ends_with_str, join, join_strings, starts_with, starts_with_str, str_eq};
use crate::graphql::types::{GraphQLError, GraphQLErrorView};
use crate::json::{json_object1, json_str, JsonV};
use crate::plan::types::{EntityFetch, ExecutionPlan, FieldFetch, InitialFetch, OperationKind, SelectionPath};
use crate::plan::render::{collect_variable_names, render_field, render_field_exec, render_sels, render_sels_exec, render_variable, render_variable_exec, strip_selection_set, strip_selection_set_exec, strictly_sorted, var_uses, views_of};

verus! {

// ---- operation selection -------------------------------------------------------

/// The operations of a document, in order.
pub open spec fn operations_of(defs: Seq<TopDef>) -> Seq<Operation>
    decreases defs.len(),
{
    if defs.len() == 0 {
        Seq::empty()
    } else {
        let prev = operations_of(defs.drop_last());
        match defs.last() {
            TopDef::Operation(op) => prev.push(op),
            _ => prev,
        }
    }
}

pub open spec fn op_has_name(op: Operation, n: Seq<char>) -> bool {
    op.name matches Some(m) && m@ == n
}

/// Position of the first operation named `n`.
pub open spec fn op_named_index(ops: Seq<Operation>, n: Seq<char>) -> Option<int>
    decreases ops.len(),
{
    if ops.len() == 0 {
        None
    } else {
        match op_named_index(ops.drop_last(), n) {
            Some(i) => Some(i),
            None => if op_has_name(ops.last(), n) {
                Some(ops.len() - 1)
            } else {
                None
            },
        }
    }
}

pub proof fn lemma_op_named_index(ops: Seq<Operation>, n: Seq<char>)
    ensures
        op_named_index(ops, n) matches Some(i) ==> 0 <= i < ops.len() && op_has_name(ops[i], n)
            && forall|j: int| 0 <= j < i ==> !op_has_name(#[trigger] ops[j], n),
        op_named_index(ops, n) is None ==> forall|j: int|
            0 <= j < ops.len() ==> !op_has_name(#[trigger] ops[j], n),
    decreases ops.len(),
{
    if ops.len() > 0 {
        let d = ops.drop_last();
        lemma_op_named_index(d, n);
        assert forall|j: int| 0 <= j < d.len() implies d[j] == ops[j] by {}
    }
}

/// Which operation a request runs.
pub enum Picked {
    NoOperations,
    UnknownOperation,
    AmbiguousOperation,
    Found(Operation),
}

/// The requested operation by name, or the only one when no name is given.
pub open spec fn pick_op(defs: Seq<TopDef>, requested: Option<Seq<char>>) -> Picked {
    let ops = operations_of(defs);
    if ops.len() == 0 {
        Picked::NoOperations
    } else {
        match requested {
            Some(n) => match op_named_index(ops, n) {
                Some(i) => Picked::Found(ops[i]),
                None => Picked::UnknownOperation,
            },
            None => if ops.len() == 1 {
                Picked::Found(ops[0])
            } else {
                Picked::AmbiguousOperation
            },
        }
    }
}

pub open spec fn opt_str_view(o: Option<&str>) -> Option<Seq<char>> {
    match o {
        Some(s) => Some(s@),
        None => None,
    }
}

/// Finds the operation to run; `Err` carries which of the three refusals
/// applies.
pub fn pick_operation<'a>(doc: &'a Doc, requested: Option<&str>) -> (r: Result<&'a Operation, Picked>)
    ensures
        r matches Ok(op) ==> pick_op(doc.definitions@, opt_str_view(requested)) == Picked::Found(
            *op,
        ),
        r matches Err(p) ==> p == pick_op(doc.definitions@, opt_str_view(requested)) && !(p is Found),
{
    let defs = &doc.definitions;
    let mut count: usize = 0;
    let mut first: Option<usize> = None;
    let mut named: Option<usize> = None;
    let ghost want = opt_str_view(requested);
    let mut i: usize = 0;
    while i < defs.len()
        invariant
            i <= defs.len(),
            defs@ == doc.definitions@,
            want == opt_str_view(requested),
            count == operations_of(defs@.take(i as int)).len(),
            count <= i,
            first matches Some(k) ==> k < i && count > 0 && defs@[k as int] == TopDef::Operation(
                operations_of(defs@.take(i as int))[0],
            ),
            first is None <==> count == 0,
            named matches Some(k) ==> k < i && want is Some && op_named_index(
                operations_of(defs@.take(i as int)),
                want->0,
            ) is Some && defs@[k as int] == TopDef::Operation(
                operations_of(defs@.take(i as int))[op_named_index(
                    operations_of(defs@.take(i as int)),
                    want->0,
                )->0],
            ),
            named is None ==> (want matches Some(n) ==> op_named_index(
                operations_of(defs@.take(i as int)),
                n,
            ) is None),
        decreases defs.len() - i,
    {
        assert(defs@.take(i + 1).drop_last() =~= defs@.take(i as int));
        let ghost prev_ops = operations_of(defs@.take(i as int));
        if let TopDef::Operation(op) = &defs[i] {
            let ghost ops = operations_of(defs@.take(i + 1));
            assert(ops == prev_ops.push(*op));
            assert forall|j: int| 0 <= j < prev_ops.len() implies ops[j] == prev_ops[j] by {}
            if first.is_none() {
                first = Some(i);
            }
            if named.is_none() {
                if let Some(req) = requested {
                    if let Some(n) = &op.name {
                        if str_eq(n.as_str(), req) {
                            named = Some(i);
                            proof {
                                lemma_op_named_index(prev_ops, req@);
                                lemma_op_named_index(ops, req@);
                            }
                        }
                    }
                }
            }
            proof {
                if let Some(n) = want {
                    lemma_op_named_index(prev_ops, n);
                    lemma_op_named_index(ops, n);
                    if named is None && op_has_name(*op, n) {
                        assert(false);
                    }
                }
            }
            count = count + 1;
        }
        i = i + 1;
    }
    assert(defs@.take(defs.len() as int) =~= defs@);
    if count == 0 {
        return Err(Picked::NoOperations);
    }
    match requested {
        Some(_) => match named {
            Some(k) => match &defs[k] {
                TopDef::Operation(op) => Ok(op),
                _ => Err(Picked::NoOperations),
            },
            None => Err(Picked::UnknownOperation),
        },
        None => {
            if count == 1 {
                match first {
                    Some(k) => match &defs[k] {
                        TopDef::Operation(op) => Ok(op),
                        _ => Err(Picked::NoOperations),
                    },
                    None => Err(Picked::NoOperations),
                }
            } else {
                Err(Picked::AmbiguousOperation)
            }
        },
    }
}

// ---- field heuristics -----------------------------------------------------------

/// Whether a field name looks list-shaped: `search...`, or a plural that
/// does not end in `ss`.
pub open spec fn looks_like_list(name: Seq<char>) -> bool {
    starts_with(name, "search"@) || (ends_with(name, "s"@) && !ends_with(name, "ss"@))
}

pub fn looks_like_list_exec(name: &str) -> (r: bool)
    ensures
        r == looks_like_list(name@),
{
    starts_with_str(name, "search") || (ends_with_str(name, "s") && !ends_with_str(name, "ss"))
}

/// The names of the field selections among `sels`, in order.
pub open spec fn leaf_names(sels: Seq<Sel>) -> Seq<Seq<char>>
    decreases sels.len(),
{
    if sels.len() == 0 {
        Seq::empty()
    } else {
        let prev = leaf_names(sels.drop_last());
        match sels.last() {
            Sel::Field(f) => prev.push(f.name@),
            _ => prev,
        }
    }
}

/// How many of `names` the entity's field owners know.
pub open spec fn owned_count(names: Seq<Seq<char>>, owners: Seq<(Seq<char>, Seq<char>)>) -> nat
    decreases names.len(),
{
    if names.len() == 0 {
        0
    } else {
        owned_count(names.drop_last(), owners) + if key_lookup(owners, names.last()) is Some {
            1nat
        } else {
            0nat
        }
    }
}

/// The entity with the strictly highest score, the first one among equals.
pub open spec fn best_entity(ents: Seq<(Seq<char>, EntityTypeView)>, names: Seq<Seq<char>>) -> (
    Option<Seq<char>>,
    nat,
)
    decreases ents.len(),
{
    if ents.len() == 0 {
        (None, 0)
    } else {
        let (best, score) = best_entity(ents.drop_last(), names);
        let s = owned_count(names, ents.last().1.field_owners);
        if s > score {
            (Some(ents.last().0), s)
        } else {
            (best, score)
        }
    }
}

/// The entity type a root field returns, guessed from its sub-selections:
/// the type whose fields cover most of the selected names.
pub open spec fn guess_entity_type(f: FieldSel, ents: Seq<(Seq<char>, EntityTypeView)>) -> Option<
    Seq<char>,
> {
    let names = leaf_names(f.selection_set@);
    let (best, score) = best_entity(ents, names);
    if names.len() == 0 || score == 0 {
        None
    } else {
        best
    }
}

proof fn lemma_owned_count_le(names: Seq<Seq<char>>, owners: Seq<(Seq<char>, Seq<char>)>)
    ensures
        owned_count(names, owners) <= names.len(),
    decreases names.len(),
{
    if names.len() > 0 {
        lemma_owned_count_le(names.drop_last(), owners);
    }
}

proof fn lemma_best_entity_found(ents: Seq<(Seq<char>, EntityTypeView)>, names: Seq<Seq<char>>)
    ensures
        best_entity(ents, names).0 matches Some(t) ==> exists|i: int|
            0 <= i < ents.len() && ents[i].0 == t,
        best_entity(ents, names).1 > 0 ==> best_entity(ents, names).0 is Some,
    decreases ents.len(),
{
    if ents.len() > 0 {
        lemma_best_entity_found(ents.drop_last(), names);
        let (best, score) = best_entity(ents.drop_last(), names);
        if let Some(t) = best {
            let i = choose|i: int| 0 <= i < ents.drop_last().len() && ents.drop_last()[i].0 == t;
            assert(ents[i].0 == t);
        }
        assert(ents[ents.len() - 1].0 == ents.last().0);
    }
}

fn leaf_names_exec(sels: &Vec<Sel>) -> (r: Vec<String>)
    ensures
        r@.map_values(|s: String| s@) == leaf_names(sels@),
{
    let mut out: Vec<String> = Vec::new();
    let mut i: usize = 0;
    while i < sels.len()
        invariant
            i <= sels.len(),
            out@.map_values(|s: String| s@) == leaf_names(sels@.take(i as int)),
        decreases sels.len() - i,
    {
        assert(sels@.take(i + 1).drop_last() =~= sels@.take(i as int));
        if let Sel::Field(f) = &sels[i] {
            let ghost before = out@;
            let n = f.name.clone();
            out.push(n);
            assert(out@.map_values(|s: String| s@) =~= before.map_values(|s: String| s@).push(
                f.name@,
            ));
        }
        i = i + 1;
    }
    assert(sels@.take(sels.len() as int) =~= sels@);
    out
}

fn owned_count_exec(names: &Vec<String>, owners: &StrMap<String>) -> (r: usize)
    ensures
        r == owned_count(names@.map_values(|s: String| s@), owners@),
{
    let ghost nv = names@.map_values(|s: String| s@);
    let mut c: usize = 0;
    let mut i: usize = 0;
    while i < names.len()
        invariant
            i <= names.len(),
            nv == names@.map_values(|s: String| s@),
            c == owned_count(nv.take(i as int), owners@),
            c <= i,
        decreases names.len() - i,
    {
        assert(nv.take(i + 1).drop_last() =~= nv.take(i as int));
        assert(nv.take(i + 1).last() == names@[i as int]@);
        if owners.contains_key(names[i].as_str()) {
            c = c + 1;
        }
        i = i + 1;
    }
    assert(nv.take(names.len() as int) =~= nv);
    c
}

/// Guesses the entity type a root field returns; the result is a key of the
/// catalog's entity types.
pub fn guess_entity_type_exec(f: &FieldSel, catalog: &SupergraphCatalog) -> (r: Option<String>)
    ensures
        opt_string_view(r) == guess_entity_type(*f, catalog.entity_types@),
        r matches Some(t) ==> key_lookup(catalog.entity_types@, t@) is Some,
{
    let names = leaf_names_exec(&f.selection_set);
    let ghost nv = names@.map_values(|s: String| s@);
    if names.len() == 0 {
        return None;
    }
    let ents = &catalog.entity_types.entries;
    let ghost ev = catalog.entity_types@;
    let mut best: Option<usize> = None;
    let mut best_score: usize = 0;
    let mut i: usize = 0;
    while i < ents.len()
        invariant
            i <= ents.len(),
            ev == catalog.entity_types@,
            ents@ == catalog.entity_types.entries@,
            nv == leaf_names(f.selection_set@),
            nv == names@.map_values(|s: String| s@),
            best_entity(ev.take(i as int), nv).1 == best_score,
            match best {
                Some(k) => k < i && best_entity(ev.take(i as int), nv).0 == Some(ev[k as int].0),
                None => best_entity(ev.take(i as int), nv).0 is None,
            },
        decreases ents.len() - i,
    {
        assert(ev.take(i + 1).drop_last() =~= ev.take(i as int));
        assert(ev.take(i + 1).last() == ev[i as int]);
        let s = owned_count_exec(&names, &ents[i].1.field_owners);
        if s > best_score {
            best = Some(i);
            best_score = s;
        }
        i = i + 1;
    }
    assert(ev.take(ents.len() as int) =~= ev);
    if best_score == 0 {
        return None;
    }
    match best {
        Some(k) => {
            let t = ents[k].0.clone();
            proof {
                crate::strmap::lemma_key_index(ev, t@);
                if let Some(q) = key_index(ev, t@) {
                } else {
                    assert(ev[k as int].0 == t@);
                }
            }
            Some(t)
        },
        None => None,
    }
}

pub open spec fn opt_string_view(o: Option<String>) -> Option<Seq<char>> {
    match o {
        Some(s) => Some(s@),
        None => None,
    }
}


// ---- partitioning an entity selection ---------------------------------------------

/// The text of a field's selection set, braces included; empty without one.
pub open spec fn selection_set_text(f: FieldSel) -> Seq<char> {
    if f.selection_set.len() == 0 {
        Seq::empty()
    } else {
        "{ "@ + join(render_sels(f.selection_set@), " "@) + " }"@
    }
}

pub fn selection_set_text_exec(f: &FieldSel) -> (r: String)
    ensures
        r@ == selection_set_text(*f),
{
    if f.selection_set.len() == 0 {
        return String::new();
    }
    let parts = render_sels_exec(&f.selection_set);
    let j = join_strings(&parts, " ");
    let mut r = "{ ".to_owned();
    r.append(j.as_str());
    r.append(" }");
    r
}

/// The first `@key` field of an entity, `id` when it has none.
pub open spec fn key_field_of(e: EntityTypeView) -> Seq<char> {
    if e.key_fields.len() > 0 {
        e.key_fields[0]
    } else {
        "id"@
    }
}

/// Appends `x` to the group of subgraph `k`, opening the group if needed.
pub open spec fn group_push(groups: Seq<(Seq<char>, Seq<Seq<char>>)>, k: Seq<char>, x: Seq<char>) -> Seq<
    (Seq<char>, Seq<Seq<char>>),
> {
    match key_index(groups, k) {
        Some(i) => groups.update(i, (k, groups[i].1.push(x))),
        None => groups.push((k, seq![x])),
    }
}

/// Splits the sub-fields of an entity selection: those of the initial
/// subgraph (besides `__typename` and the key, which are always added) and
/// the others grouped by owning subgraph in order of first appearance.
pub open spec fn partition_fold(
    sels: Seq<Sel>,
    key: Seq<char>,
    initial_sub: Seq<char>,
    owners: Seq<(Seq<char>, Seq<char>)>,
) -> (Seq<Seq<char>>, Seq<(Seq<char>, Seq<Seq<char>>)>)
    decreases sels.len(),
{
    if sels.len() == 0 {
        (Seq::empty(), Seq::empty())
    } else {
        let (ini, gs) = partition_fold(sels.drop_last(), key, initial_sub, owners);
        match sels.last() {
            Sel::Field(sub) => if sub.name@ == "__typename"@ || sub.name@ == key {
                (ini, gs)
            } else {
                let owner = match key_lookup(owners, sub.name@) {
                    Some(o) => o,
                    None => initial_sub,
                };
                if owner == initial_sub {
                    (ini.push(render_field(sub)), gs)
                } else {
                    (ini, group_push(gs, owner, render_field(sub)))
                }
            },
            _ => (ini, gs),
        }
    }
}

/// The initial selection set for an entity field and one fragment body per
/// extending subgraph.
pub open spec fn partition(
    f: FieldSel,
    ty: Seq<char>,
    initial_sub: Seq<char>,
    ents: Seq<(Seq<char>, EntityTypeView)>,
) -> (Seq<char>, Seq<(Seq<char>, Seq<char>)>) {
    match key_lookup(ents, ty) {
        None => (selection_set_text(f), Seq::empty()),
        Some(e) => {
            let key = key_field_of(e);
            let (ini, gs) = partition_fold(f.selection_set@, key, initial_sub, e.field_owners);
            (
                "{ "@ + join(seq!["__typename"@, key] + ini, " "@) + " }"@,
                gs.map_values(|g: (Seq<char>, Seq<Seq<char>>)| (g.0, join(g.1, " "@))),
            )
        },
    }
}

pub open spec fn groups_view(v: Seq<(String, Vec<String>)>) -> Seq<(Seq<char>, Seq<Seq<char>>)> {
    v.map_values(|g: (String, Vec<String>)| (g.0@, views_of(g.1@)))
}

fn clone_string_vec(v: &Vec<String>) -> (r: Vec<String>)
    ensures
        views_of(r@) == views_of(v@),
{
    let mut out: Vec<String> = Vec::new();
    let mut i: usize = 0;
    while i < v.len()
        invariant
            i <= v.len(),
            views_of(out@) == views_of(v@.take(i as int)),
        decreases v.len() - i,
    {
        let ghost before = out@;
        let c = v[i].clone();
        out.push(c);
        assert(v@.take(i + 1) =~= v@.take(i as int).push(v@[i as int]));
        assert(views_of(out@) =~= views_of(before).push(c@));
        assert(views_of(v@.take(i + 1)) =~= views_of(v@.take(i as int)).push(v@[i as int]@));
        i = i + 1;
    }
    assert(v@.take(v.len() as int) =~= v@);
    out
}

fn group_push_exec(groups: &mut Vec<(String, Vec<String>)>, k: &String, x: String)
    ensures
        groups_view(final(groups)@) == group_push(groups_view(old(groups)@), k@, x@),
{
    let ghost gv = groups_view(groups@);
    let mut i: usize = 0;
    while i < groups.len()
        invariant
            i <= groups.len(),
            groups@ == old(groups)@,
            gv == groups_view(groups@),
            forall|j: int| 0 <= j < i ==> gv[j].0 != k@,
        decreases groups.len() - i,
    {
        if str_eq(groups[i].0.as_str(), k.as_str()) {
            proof {
                lemma_key_index_unique(gv, k@, i as int);
            }
            let mut fields = clone_string_vec(&groups[i].1);
            let ghost f0 = fields@;
            let xv = x;
            let ghost xs = xv@;
            fields.push(xv);
            assert(views_of(fields@) =~= views_of(f0).push(xs));
            let kc = k.clone();
            groups.set(i, (kc, fields));
            assert(groups_view(groups@) =~= gv.update(i as int, (k@, gv[i as int].1.push(xs))));
            return;
        }
        i = i + 1;
    }
    proof {
        lemma_key_absent(gv, k@);
    }
    let ghost xs = x@;
    let mut one: Vec<String> = Vec::new();
    one.push(x);
    assert(views_of(one@) =~= seq![xs]);
    let ghost before = groups@;
    groups.push((k.clone(), one));
    assert(groups_view(groups@) =~= gv.push((k@, seq![xs])));
}

/// A subgraph that contributes fields to an entity selection, with the
/// fragment body it will be asked for.
pub struct ExtenderGroup {
    pub subgraph: String,
    pub body: String,
}

pub fn partition_for_entity(
    f: &FieldSel,
    ty: &String,
    initial_sub: &String,
    catalog: &SupergraphCatalog,
) -> (r: (String, Vec<ExtenderGroup>))
    ensures
        (r.0@, r.1@.map_values(|g: ExtenderGroup| (g.subgraph@, g.body@))) == partition(
            *f,
            ty@,
            initial_sub@,
            catalog.entity_types@,
        ),
{
    let entity = match catalog.entity_types.get(ty.as_str()) {
        Some(e) => e,
        None => {
            let t = selection_set_text_exec(f);
            let out: Vec<ExtenderGroup> = Vec::new();
            assert(out@.map_values(|g: ExtenderGroup| (g.subgraph@, g.body@)) =~= Seq::<
                (Seq<char>, Seq<char>),
            >::empty());
            return (t, out);
        },
    };
    let ghost ev = entity@;
    let key: String = if entity.key_fields.len() > 0 {
        entity.key_fields[0].clone()
    } else {
        "id".to_owned()
    };
    assert(key@ == key_field_of(ev));
    let sels = &f.selection_set;
    let mut initial: Vec<String> = Vec::new();
    let mut groups: Vec<(String, Vec<String>)> = Vec::new();
    let mut i: usize = 0;
    while i < sels.len()
        invariant
            i <= sels.len(),
            sels@ == f.selection_set@,
            ev == entity@,
            (views_of(initial@), groups_view(groups@)) == partition_fold(
                sels@.take(i as int),
                key@,
                initial_sub@,
                ev.field_owners,
            ),
        decreases sels.len() - i,
    {
        assert(sels@.take(i + 1).drop_last() =~= sels@.take(i as int));
        if let Sel::Field(sub) = &sels[i] {
            if !(str_eq(sub.name.as_str(), "__typename") || str_eq(
                sub.name.as_str(),
                key.as_str(),
            )) {
                let owner: String = match entity.field_owners.get(sub.name.as_str()) {
                    Some(o) => o.clone(),
                    None => initial_sub.clone(),
                };
                let rendered = render_field_exec(sub);
                if str_eq(owner.as_str(), initial_sub.as_str()) {
                    let ghost before = initial@;
                    let ghost rv = rendered@;
                    initial.push(rendered);
                    assert(views_of(initial@) =~= views_of(before).push(rv));
                } else {
                    group_push_exec(&mut groups, &owner, rendered);
                }
            }
        }
        i = i + 1;
    }
    assert(sels@.take(sels.len() as int) =~= sels@);
    let mut all: Vec<String> = Vec::new();
    all.push("__typename".to_owned());
    all.push(key);
    let ghost head = views_of(all@);
    assert(head =~= seq!["__typename"@, key_field_of(ev)]);
    let mut k: usize = 0;
    while k < initial.len()
        invariant
            k <= initial.len(),
            views_of(all@) == head + views_of(initial@).take(k as int),
        decreases initial.len() - k,
    {
        let ghost before = all@;
        let c = initial[k].clone();
        all.push(c);
        assert(views_of(all@) =~= views_of(before).push(c@));
        assert(views_of(initial@).take(k + 1) =~= views_of(initial@).take(k as int).push(
            initial@[k as int]@,
        ));
        k = k + 1;
    }
    assert(views_of(initial@).take(initial.len() as int) =~= views_of(initial@));
    let joined = join_strings(&all, " ");
    let mut text = "{ ".to_owned();
    text.append(joined.as_str());
    text.append(" }");
    let mut out: Vec<ExtenderGroup> = Vec::new();
    let ghost gv = groups_view(groups@);
    let mut g: usize = 0;
    while g < groups.len()
        invariant
            g <= groups.len(),
            gv == groups_view(groups@),
            out@.map_values(|e: ExtenderGroup| (e.subgraph@, e.body@)) == gv.take(g as int).map_values(
                |x: (Seq<char>, Seq<Seq<char>>)| (x.0, join(x.1, " "@)),
            ),
        decreases groups.len() - g,
    {
        let body = join_strings(&groups[g].1, " ");
        let sub = groups[g].0.clone();
        let ghost before = out@;
        out.push(ExtenderGroup { subgraph: sub, body });
        assert(gv.take(g + 1) =~= gv.take(g as int).push(gv[g as int]));
        assert(out@.map_values(|e: ExtenderGroup| (e.subgraph@, e.body@)) =~= before.map_values(
            |e: ExtenderGroup| (e.subgraph@, e.body@),
        ).push((gv[g as int].0, join(gv[g as int].1, " "@))));
        g = g + 1;
    }
    assert(gv.take(groups.len() as int) =~= gv);
    (text, out)
}


// ---- synthesizing the initial operation ---------------------------------------------

pub open spec fn op_keyword(kind: OperationKind) -> Seq<char> {
    match kind {
        OperationKind::Query => "query"@,
        OperationKind::Mutation => "mutation"@,
    }
}

/// The declarations of the variables in `used`, rendered, in declaration order.
pub open spec fn kept_vars(decl: Seq<VarDef>, used: Set<Seq<char>>) -> Seq<Seq<char>>
    decreases decl.len(),
{
    if decl.len() == 0 {
        Seq::empty()
    } else {
        let prev = kept_vars(decl.drop_last(), used);
        if used.contains(decl.last().name@) {
            prev.push(render_variable(decl.last()))
        } else {
            prev
        }
    }
}

/// `query($v: T, ...) { field(args) <selection> }` with only the variables
/// the text references.
pub open spec fn synthesize_root_operation(
    kind: OperationKind,
    decl: Seq<VarDef>,
    f: FieldSel,
    initial_text: Seq<char>,
) -> Seq<char> {
    let with_initial = strip_selection_set(render_field(f)) + " "@ + initial_text;
    let kept = kept_vars(decl, var_uses(with_initial));
    op_keyword(kind) + (if kept.len() == 0 {
        Seq::empty()
    } else {
        "("@ + join(kept, ", "@) + ")"@
    }) + " { "@ + with_initial + " }"@
}

pub fn contains_string(v: &Vec<String>, x: &str) -> (r: bool)
    ensures
        r == views_of(v@).contains(x@),
{
    let mut i: usize = 0;
    while i < v.len()
        invariant
            i <= v.len(),
            forall|j: int| 0 <= j < i ==> v@[j]@ != x@,
        decreases v.len() - i,
    {
        if str_eq(v[i].as_str(), x) {
            assert(views_of(v@)[i as int] == x@);
            return true;
        }
        i = i + 1;
    }
    assert(!views_of(v@).contains(x@)) by {
        if views_of(v@).contains(x@) {
            let j = choose|j: int| 0 <= j < views_of(v@).len() && views_of(v@)[j] == x@;
            assert(v@[j]@ == x@);
        }
    }
    false
}

pub fn synthesize_root_operation_exec(
    kind: OperationKind,
    decl: &Vec<VarDef>,
    f: &FieldSel,
    initial_text: &String,
) -> (r: String)
    ensures
        r@ == synthesize_root_operation(kind, decl@, *f, initial_text@),
{
    let rendered = render_field_exec(f);
    let mut with_initial = strip_selection_set_exec(rendered.as_str());
    with_initial.append(" ");
    with_initial.append(initial_text.as_str());
    let used = collect_variable_names(with_initial.as_str());
    let ghost uset = var_uses(with_initial@);
    let mut kept: Vec<String> = Vec::new();
    let mut i: usize = 0;
    while i < decl.len()
        invariant
            i <= decl.len(),
            views_of(used@).to_set() == uset,
            views_of(kept@) == kept_vars(decl@.take(i as int), uset),
        decreases decl.len() - i,
    {
        assert(decl@.take(i + 1).drop_last() =~= decl@.take(i as int));
        if contains_string(&used, decl[i].name.as_str()) {
            proof {
                assert(views_of(used@).contains(decl@[i as int].name@) ==> views_of(used@).to_set().contains(decl@[i as int].name@));
            }
            let t = render_variable_exec(&decl[i]);
            let ghost before = kept@;
            kept.push(t);
            assert(views_of(kept@) =~= views_of(before).push(t@));
        } else {
            proof {
                if uset.contains(decl@[i as int].name@) {
                    assert(views_of(used@).to_set().contains(decl@[i as int].name@));
                }
            }
        }
        i = i + 1;
    }
    assert(decl@.take(decl.len() as int) =~= decl@);
    let mut r = match kind {
        OperationKind::Query => "query".to_owned(),
        OperationKind::Mutation => "mutation".to_owned(),
    };
    if kept.len() > 0 {
        let j = join_strings(&kept, ", ");
        r.append("(");
        r.append(j.as_str());
        r.append(")");
    }
    r.append(" { ");
    r.append(with_initial.as_str());
    r.append(" }");
    r
}


// ---- plans ------------------------------------------------------------------------

/// Why an operation could not be planned.
#[derive(Debug)]
pub enum PlanError {
    NoOperations,
    UnknownOperation(String),
    AmbiguousOperation,
    UnsupportedSubscription,
    /// `Query.field` or `Mutation.field` that no subgraph owns.
    UnknownRootField(String),
    /// A subgraph the supergraph names but the route table lacks.
    UnknownSubgraph(String),
}

pub enum PlanErrorView {
    NoOperations,
    UnknownOperation(Seq<char>),
    AmbiguousOperation,
    UnsupportedSubscription,
    UnknownRootField(Seq<char>),
    UnknownSubgraph(Seq<char>),
}

impl View for PlanError {
    type V = PlanErrorView;

    open spec fn view(&self) -> PlanErrorView {
        match self {
            PlanError::NoOperations => PlanErrorView::NoOperations,
            PlanError::UnknownOperation(n) => PlanErrorView::UnknownOperation(n@),
            PlanError::AmbiguousOperation => PlanErrorView::AmbiguousOperation,
            PlanError::UnsupportedSubscription => PlanErrorView::UnsupportedSubscription,
            PlanError::UnknownRootField(n) => PlanErrorView::UnknownRootField(n@),
            PlanError::UnknownSubgraph(n) => PlanErrorView::UnknownSubgraph(n@),
        }
    }
}

pub struct EntityFetchView {
    pub subgraph: Seq<char>,
    pub url: Seq<char>,
    pub timeout_ms: u64,
    pub typename: Seq<char>,
    pub key_field: Seq<char>,
    pub fragment_body: Seq<char>,
    pub root_key: Seq<char>,
    pub is_list: bool,
}

pub open spec fn entity_fetch_view(e: EntityFetch) -> EntityFetchView {
    EntityFetchView {
        subgraph: e.subgraph@,
        url: e.url@,
        timeout_ms: e.timeout_ms,
        typename: e.typename@,
        key_field: e.key_field@,
        fragment_body: e.fragment_body@,
        root_key: e.selection_path.root_key@,
        is_list: e.selection_path.is_list,
    }
}

/// A field plan, except the initial fetch's variable names (which the
/// planner states as a set).
pub struct FieldFetchView {
    pub response_key: Seq<char>,
    pub is_list: bool,
    pub entity_type: Option<Seq<char>>,
    pub initial_subgraph: Seq<char>,
    pub initial_url: Seq<char>,
    pub initial_timeout_ms: u64,
    pub query_text: Seq<char>,
    pub entity_fetches: Seq<EntityFetchView>,
    pub client_requested_id_keys: Seq<Seq<char>>,
}

pub open spec fn field_fetch_view(f: FieldFetch) -> FieldFetchView {
    FieldFetchView {
        response_key: f.response_key@,
        is_list: f.is_list,
        entity_type: opt_string_view(f.entity_type),
        initial_subgraph: f.initial.subgraph@,
        initial_url: f.initial.url@,
        initial_timeout_ms: f.initial.timeout_ms,
        query_text: f.initial.query_text@,
        entity_fetches: f.entity_fetches@.map_values(|e: EntityFetch| entity_fetch_view(e)),
        client_requested_id_keys: views_of(f.client_requested_id_keys@),
    }
}

/// The initial fetch lists exactly the variables its text references,
/// sorted and without repeats.
pub open spec fn variables_listed(f: FieldFetch) -> bool {
    strictly_sorted(views_of(f.initial.variable_names@)) && views_of(
        f.initial.variable_names@,
    ).to_set() == var_uses(f.initial.query_text@)
}

/// The entity's key fields that the selection names, first occurrence
/// order, each once.
pub open spec fn id_keys(sels: Seq<Sel>, keys: Seq<Seq<char>>) -> Seq<Seq<char>>
    decreases sels.len(),
{
    if sels.len() == 0 {
        Seq::empty()
    } else {
        let prev = id_keys(sels.drop_last(), keys);
        match sels.last() {
            Sel::Field(sub) => if keys.contains(sub.name@) && !prev.contains(sub.name@) {
                prev.push(sub.name@)
            } else {
                prev
            },
            _ => prev,
        }
    }
}

/// One `_entities` fetch per group; `Err` names the first group subgraph
/// without a route.
pub open spec fn entity_fetches_of(
    groups: Seq<(Seq<char>, Seq<char>)>,
    subs: Seq<(Seq<char>, RouteView)>,
    ty: Seq<char>,
    key: Seq<char>,
    root_key: Seq<char>,
    is_list: bool,
) -> Result<Seq<EntityFetchView>, Seq<char>>
    decreases groups.len(),
{
    if groups.len() == 0 {
        Ok(Seq::empty())
    } else {
        match entity_fetches_of(groups.drop_last(), subs, ty, key, root_key, is_list) {
            Err(e) => Err(e),
            Ok(prev) => match key_lookup(subs, groups.last().0) {
                None => Err(groups.last().0),
                Some(route) => Ok(
                    prev.push(
                        EntityFetchView {
                            subgraph: route.name,
                            url: route.url,
                            timeout_ms: route.timeout_ms,
                            typename: ty,
                            key_field: key,
                            fragment_body: groups.last().1,
                            root_key,
                            is_list,
                        },
                    ),
                ),
            },
        }
    }
}

pub open spec fn response_key(f: FieldSel) -> Seq<char> {
    match f.alias {
        Some(a) => a@,
        None => f.name@,
    }
}

pub open spec fn root_kind_label(kind: OperationKind) -> Seq<char> {
    match kind {
        OperationKind::Query => "Query"@,
        OperationKind::Mutation => "Mutation"@,
    }
}

pub fn root_kind_label_exec(kind: OperationKind) -> (r: &'static str)
    ensures
        r@ == root_kind_label(kind),
{
    match kind {
        OperationKind::Query => "Query",
        OperationKind::Mutation => "Mutation",
    }
}

/// The plan of one root field.
pub open spec fn field_fetch(f: FieldSel, kind: OperationKind, decl: Seq<VarDef>, cat: CatalogView) -> Result<
    FieldFetchView,
    PlanErrorView,
> {
    let owners = match kind {
        OperationKind::Query => cat.root_query_fields,
        OperationKind::Mutation => cat.root_mutation_fields,
    };
    match key_lookup(owners, f.name@) {
        None => Err(PlanErrorView::UnknownRootField(root_kind_label(kind) + "."@ + f.name@)),
        Some(owner) => match key_lookup(cat.subgraphs, owner) {
            None => Err(PlanErrorView::UnknownSubgraph(owner)),
            Some(route) => {
                let ety = guess_entity_type(f, cat.entity_types);
                let keys = match ety {
                    Some(t) => match key_lookup(cat.entity_types, t) {
                        Some(e) => id_keys(f.selection_set@, e.key_fields),
                        None => Seq::empty(),
                    },
                    None => Seq::empty(),
                };
                let (init_text, groups) = match ety {
                    Some(t) => partition(f, t, owner, cat.entity_types),
                    None => (selection_set_text(f), Seq::empty()),
                };
                let qt = synthesize_root_operation(kind, decl, f, init_text);
                let lst = looks_like_list(f.name@);
                let efs = match ety {
                    Some(t) => match key_lookup(cat.entity_types, t) {
                        Some(e) => entity_fetches_of(
                            groups,
                            cat.subgraphs,
                            t,
                            key_field_of(e),
                            response_key(f),
                            lst,
                        ),
                        None => Ok(Seq::empty()),
                    },
                    None => Ok(Seq::empty()),
                };
                match efs {
                    Err(sub) => Err(PlanErrorView::UnknownSubgraph(sub)),
                    Ok(es) => Ok(
                        FieldFetchView {
                            response_key: response_key(f),
                            is_list: lst,
                            entity_type: ety,
                            initial_subgraph: route.name,
                            initial_url: route.url,
                            initial_timeout_ms: route.timeout_ms,
                            query_text: qt,
                            entity_fetches: es,
                            client_requested_id_keys: keys,
                        },
                    ),
                }
            },
        },
    }
}

/// The plans of the root fields, skipping fragments and the introspection
/// fields `__schema` / `__type`; the first error stops planning.
pub open spec fn plan_fields(
    sels: Seq<Sel>,
    kind: OperationKind,
    decl: Seq<VarDef>,
    cat: CatalogView,
) -> Result<Seq<FieldFetchView>, PlanErrorView>
    decreases sels.len(),
{
    if sels.len() == 0 {
        Ok(Seq::empty())
    } else {
        match plan_fields(sels.drop_last(), kind, decl, cat) {
            Err(e) => Err(e),
            Ok(prev) => match sels.last() {
                Sel::Field(f) => if f.name@ == "__schema"@ || f.name@ == "__type"@ {
                    Ok(prev)
                } else {
                    match field_fetch(f, kind, decl, cat) {
                        Ok(ff) => Ok(prev.push(ff)),
                        Err(e) => Err(e),
                    }
                },
                _ => Ok(prev),
            },
        }
    }
}

pub open spec fn op_kind_of(t: OpType) -> OperationKind {
    match t {
        OpType::Mutation => OperationKind::Mutation,
        _ => OperationKind::Query,
    }
}

pub struct PlanView {
    pub operation_kind: OperationKind,
    pub operation_name: Option<Seq<char>>,
    pub field_fetches: Seq<FieldFetchView>,
}

/// The plan of an operation, or why there is none.
pub open spec fn plan_of(doc: Doc, requested: Option<Seq<char>>, cat: CatalogView) -> Result<
    PlanView,
    PlanErrorView,
> {
    match pick_op(doc.definitions@, requested) {
        Picked::NoOperations => Err(PlanErrorView::NoOperations),
        Picked::UnknownOperation => Err(PlanErrorView::UnknownOperation(requested->0)),
        Picked::AmbiguousOperation => Err(PlanErrorView::AmbiguousOperation),
        Picked::Found(op) => if op.operation_type == OpType::Subscription {
            Err(PlanErrorView::UnsupportedSubscription)
        } else {
            let kind = op_kind_of(op.operation_type);
            match plan_fields(op.selection_set@, kind, op.variables@, cat) {
                Err(e) => Err(e),
                Ok(fs) => if fs.len() == 0 {
                    Err(PlanErrorView::NoOperations)
                } else {
                    Ok(
                        PlanView {
                            operation_kind: kind,
                            operation_name: opt_string_view(op.name),
                            field_fetches: fs,
                        },
                    )
                },
            }
        },
    }
}

fn id_keys_exec(sels: &Vec<Sel>, keys: &Vec<String>) -> (r: Vec<String>)
    ensures
        views_of(r@) == id_keys(sels@, str_views(keys@)),
{
    let mut out: Vec<String> = Vec::new();
    let mut i: usize = 0;
    while i < sels.len()
        invariant
            i <= sels.len(),
            views_of(out@) == id_keys(sels@.take(i as int), str_views(keys@)),
        decreases sels.len() - i,
    {
        assert(sels@.take(i + 1).drop_last() =~= sels@.take(i as int));
        if let Sel::Field(sub) = &sels[i] {
            let in_keys = contains_string(keys, sub.name.as_str());
            let seen = contains_string(&out, sub.name.as_str());
            assert(views_of(keys@) =~= str_views(keys@));
            if in_keys && !seen {
                let ghost before = out@;
                out.push(sub.name.clone());
                assert(views_of(out@) =~= views_of(before).push(sub.name@));
            }
        }
        i = i + 1;
    }
    assert(sels@.take(sels.len() as int) =~= sels@);
    out
}

fn entity_fetches_exec(
    groups: Vec<ExtenderGroup>,
    catalog: &SupergraphCatalog,
    ty: &String,
    key: &String,
    root_key: &String,
    is_list: bool,
) -> (r: Result<Vec<EntityFetch>, String>)
    ensures
        match entity_fetches_of(
            groups@.map_values(|g: ExtenderGroup| (g.subgraph@, g.body@)),
            catalog.subgraphs@,
            ty@,
            key@,
            root_key@,
            is_list,
        ) {
            Ok(es) => r matches Ok(v) && v@.map_values(|e: EntityFetch| entity_fetch_view(e)) == es,
            Err(s) => r matches Err(m) && m@ == s,
        },
{
    let ghost gv = groups@.map_values(|g: ExtenderGroup| (g.subgraph@, g.body@));
    let mut out: Vec<EntityFetch> = Vec::new();
    let mut i: usize = 0;
    assert(gv.take(0) =~= Seq::<(Seq<char>, Seq<char>)>::empty());
    assert(out@.map_values(|e: EntityFetch| entity_fetch_view(e)) =~= Seq::<EntityFetchView>::empty());
    while i < groups.len()
        invariant
            i <= groups.len(),
            gv == groups@.map_values(|g: ExtenderGroup| (g.subgraph@, g.body@)),
            entity_fetches_of(gv.take(i as int), catalog.subgraphs@, ty@, key@, root_key@, is_list)
                == Ok::<Seq<EntityFetchView>, Seq<char>>(
                out@.map_values(|e: EntityFetch| entity_fetch_view(e)),
            ),
        decreases groups.len() - i,
    {
        assert(gv.take(i + 1).drop_last() =~= gv.take(i as int));
        assert(gv.take(i + 1).last() == gv[i as int]);
        let g = &groups[i];
        match catalog.subgraphs.get(g.subgraph.as_str()) {
            None => {
                proof {
                    lemma_entity_fetches_err(gv, i as int, catalog.subgraphs@, ty@, key@, root_key@, is_list);
                }
                return Err(g.subgraph.clone());
            },
            Some(route) => {
                let ef = EntityFetch {
                    subgraph: route.name.clone(),
                    url: route.url.clone(),
                    timeout_ms: route.timeout_ms,
                    typename: ty.clone(),
                    key_field: key.clone(),
                    fragment_body: g.body.clone(),
                    selection_path: SelectionPath { root_key: root_key.clone(), is_list },
                };
                let ghost before = out@;
                out.push(ef);
                assert(out@.map_values(|e: EntityFetch| entity_fetch_view(e)) =~= before.map_values(
                    |e: EntityFetch| entity_fetch_view(e),
                ).push(entity_fetch_view(ef)));
            },
        }
        i = i + 1;
    }
    assert(gv.take(groups.len() as int) =~= gv);
    Ok(out)
}

proof fn lemma_entity_fetches_err(
    groups: Seq<(Seq<char>, Seq<char>)>,
    i: int,
    subs: Seq<(Seq<char>, RouteView)>,
    ty: Seq<char>,
    key: Seq<char>,
    root_key: Seq<char>,
    is_list: bool,
)
    requires
        0 <= i < groups.len(),
        entity_fetches_of(groups.take(i + 1), subs, ty, key, root_key, is_list) is Err,
    ensures
        entity_fetches_of(groups, subs, ty, key, root_key, is_list) == entity_fetches_of(
            groups.take(i + 1),
            subs,
            ty,
            key,
            root_key,
            is_list,
        ),
    decreases groups.len() - i,
{
    if i + 1 < groups.len() {
        assert(groups.take(i + 2).drop_last() =~= groups.take(i + 1));
        lemma_entity_fetches_err(groups, i + 1, subs, ty, key, root_key, is_list);
    } else {
        assert(groups.take(i + 1) =~= groups);
    }
}

fn field_fetch_exec(
    f: &FieldSel,
    kind: OperationKind,
    decl: &Vec<VarDef>,
    catalog: &SupergraphCatalog,
) -> (r: Result<FieldFetch, PlanError>)
    ensures
        match field_fetch(*f, kind, decl@, catalog@) {
            Ok(v) => r matches Ok(ff) && field_fetch_view(ff) == v && variables_listed(ff),
            Err(e) => r matches Err(pe) && pe@ == e,
        },
{
    let owners = match kind {
        OperationKind::Query => &catalog.root_query_fields,
        OperationKind::Mutation => &catalog.root_mutation_fields,
    };
    let owner: String = match owners.get(f.name.as_str()) {
        Some(o) => o.clone(),
        None => {
            let mut m = root_kind_label_exec(kind).to_owned();
            m.append(".");
            m.append(f.name.as_str());
            return Err(PlanError::UnknownRootField(m));
        },
    };
    let route: &SupergraphRoute = match catalog.subgraphs.get(owner.as_str()) {
        Some(rt) => rt,
        None => {
            return Err(PlanError::UnknownSubgraph(owner));
        },
    };
    let response_key: String = match &f.alias {
        Some(a) => a.clone(),
        None => f.name.clone(),
    };
    let entity_type = guess_entity_type_exec(f, catalog);
    let mut keys: Vec<String> = Vec::new();
    let mut key_field: String = "id".to_owned();
    if let Some(t) = &entity_type {
        if let Some(entity) = catalog.entity_types.get(t.as_str()) {
            keys = id_keys_exec(&f.selection_set, &entity.key_fields);
            key_field = if entity.key_fields.len() > 0 {
                entity.key_fields[0].clone()
            } else {
                "id".to_owned()
            };
        }
    }
    let (initial_text, groups) = match &entity_type {
        Some(t) => partition_for_entity(f, t, &owner, catalog),
        None => {
            let g: Vec<ExtenderGroup> = Vec::new();
            assert(g@.map_values(|x: ExtenderGroup| (x.subgraph@, x.body@)) =~= Seq::<
                (Seq<char>, Seq<char>),
            >::empty());
            (selection_set_text_exec(f), g)
        },
    };
    let query_text = synthesize_root_operation_exec(kind, decl, f, &initial_text);
    let variable_names = collect_variable_names(query_text.as_str());
    let is_list = looks_like_list_exec(f.name.as_str());
    let entity_fetches: Vec<EntityFetch> = match &entity_type {
        Some(t) => match entity_fetches_exec(groups, catalog, t, &key_field, &response_key, is_list) {
            Ok(v) => v,
            Err(sub) => {
                return Err(PlanError::UnknownSubgraph(sub));
            },
        },
        None => {
            let v: Vec<EntityFetch> = Vec::new();
            assert(v@.map_values(|e: EntityFetch| entity_fetch_view(e)) =~= Seq::<
                EntityFetchView,
            >::empty());
            v
        },
    };
    if entity_type.is_none() {
        assert(views_of(keys@) =~= Seq::<Seq<char>>::empty());
    }
    let initial = InitialFetch {
        subgraph: route.name.clone(),
        url: route.url.clone(),
        timeout_ms: route.timeout_ms,
        query_text,
        variable_names,
    };
    Ok(
        FieldFetch {
            response_key,
            is_list,
            entity_type,
            initial,
            entity_fetches,
            client_requested_id_keys: keys,
        },
    )
}


pub open spec fn plan_matches(p: ExecutionPlan, v: PlanView) -> bool {
    &&& p.operation_kind == v.operation_kind
    &&& opt_string_view(p.operation_name) == v.operation_name
    &&& p.field_fetches@.map_values(|f: FieldFetch| field_fetch_view(f)) == v.field_fetches
    &&& forall|i: int| 0 <= i < p.field_fetches@.len() ==> variables_listed(#[trigger] p.field_fetches@[i])
}

proof fn lemma_plan_fields_err(
    sels: Seq<Sel>,
    i: int,
    kind: OperationKind,
    decl: Seq<VarDef>,
    cat: CatalogView,
)
    requires
        0 <= i < sels.len(),
        plan_fields(sels.take(i + 1), kind, decl, cat) is Err,
    ensures
        plan_fields(sels, kind, decl, cat) == plan_fields(sels.take(i + 1), kind, decl, cat),
    decreases sels.len() - i,
{
    if i + 1 < sels.len() {
        assert(sels.take(i + 2).drop_last() =~= sels.take(i + 1));
        lemma_plan_fields_err(sels, i + 1, kind, decl, cat);
    } else {
        assert(sels.take(i + 1) =~= sels);
    }
}

/// Plans the requested operation against the catalog.
pub fn plan_operation(doc: &Doc, operation_name: Option<&str>, catalog: &SupergraphCatalog) -> (r:
    Result<ExecutionPlan, PlanError>)
    ensures
        match plan_of(*doc, opt_str_view(operation_name), catalog@) {
            Ok(v) => r matches Ok(p) && plan_matches(p, v),
            Err(e) => r matches Err(pe) && pe@ == e,
        },
{
    let op = match pick_operation(doc, operation_name) {
        Ok(op) => op,
        Err(Picked::UnknownOperation) => {
            let n = match operation_name {
                Some(n) => n.to_owned(),
                None => String::new(),
            };
            return Err(PlanError::UnknownOperation(n));
        },
        Err(Picked::AmbiguousOperation) => {
            return Err(PlanError::AmbiguousOperation);
        },
        Err(_) => {
            return Err(PlanError::NoOperations);
        },
    };
    let kind = match op.operation_type {
        OpType::Query => OperationKind::Query,
        OpType::Mutation => OperationKind::Mutation,
        OpType::Subscription => {
            return Err(PlanError::UnsupportedSubscription);
        },
    };
    let sels = &op.selection_set;
    let mut fetches: Vec<FieldFetch> = Vec::new();
    let mut i: usize = 0;
    assert(sels@.take(0) =~= Seq::<Sel>::empty());
    assert(fetches@.map_values(|f: FieldFetch| field_fetch_view(f)) =~= Seq::<FieldFetchView>::empty());
    while i < sels.len()
        invariant
            i <= sels.len(),
            sels@ == op.selection_set@,
            pick_op(doc.definitions@, opt_str_view(operation_name)) == Picked::Found(*op),
            kind == op_kind_of(op.operation_type),
            op.operation_type != OpType::Subscription,
            plan_fields(sels@.take(i as int), kind, op.variables@, catalog@) == Ok::<
                Seq<FieldFetchView>,
                PlanErrorView,
            >(fetches@.map_values(|f: FieldFetch| field_fetch_view(f))),
            forall|j: int| 0 <= j < fetches@.len() ==> variables_listed(#[trigger] fetches@[j]),
        decreases sels.len() - i,
    {
        assert(sels@.take(i + 1).drop_last() =~= sels@.take(i as int));
        assert(sels@.take(i + 1).last() == sels@[i as int]);
        if let Sel::Field(f) = &sels[i] {
            if !(str_eq(f.name.as_str(), "__schema") || str_eq(f.name.as_str(), "__type")) {
                match field_fetch_exec(f, kind, &op.variables, catalog) {
                    Ok(ff) => {
                        let ghost before = fetches@;
                        fetches.push(ff);
                        assert(fetches@.map_values(|f: FieldFetch| field_fetch_view(f)) =~= before.map_values(
                            |f: FieldFetch| field_fetch_view(f),
                        ).push(field_fetch_view(ff)));
                    },
                    Err(e) => {
                        proof {
                            lemma_plan_fields_err(sels@, i as int, kind, op.variables@, catalog@);
                        }
                        return Err(e);
                    },
                }
            }
        }
        i = i + 1;
    }
    assert(sels@.take(sels.len() as int) =~= sels@);
    if fetches.len() == 0 {
        return Err(PlanError::NoOperations);
    }
    let operation_name = match &op.name {
        Some(n) => Some(n.clone()),
        None => None,
    };
    Ok(ExecutionPlan { operation_kind: kind, operation_name, field_fetches: fetches })
}

impl PlanError {
    /// The error's text, as its `Display` renders it.
    pub open spec fn spec_message(e: PlanErrorView) -> Seq<char> {
        match e {
            PlanErrorView::NoOperations => "query has no executable operations"@,
            PlanErrorView::UnknownOperation(n) => "operation \""@ + n + "\" not found in document"@,
            PlanErrorView::AmbiguousOperation => "multiple operations require an operationName"@,
            PlanErrorView::UnsupportedSubscription => "subscription operations are not supported by the router"@,
            PlanErrorView::UnknownRootField(n) => "no subgraph owns root field \""@ + n + "\""@,
            PlanErrorView::UnknownSubgraph(n) => "subgraph \""@ + n
                + "\" referenced by the supergraph is not in the route table"@,
        }
    }

    pub fn message(&self) -> (r: String)
        ensures
            r@ == Self::spec_message(self@),
    {
        match self {
            PlanError::NoOperations => "query has no executable operations".to_owned(),
            PlanError::UnknownOperation(n) => {
                let mut m = "operation \"".to_owned();
                m.append(n.as_str());
                m.append("\" not found in document");
                m
            },
            PlanError::AmbiguousOperation => "multiple operations require an operationName".to_owned(),
            PlanError::UnsupportedSubscription => "subscription operations are not supported by the router".to_owned(),
            PlanError::UnknownRootField(n) => {
                let mut m = "no subgraph owns root field \"".to_owned();
                m.append(n.as_str());
                m.append("\"");
                m
            },
            PlanError::UnknownSubgraph(n) => {
                let mut m = "subgraph \"".to_owned();
                m.append(n.as_str());
                m.append("\" referenced by the supergraph is not in the route table");
                m
            },
        }
    }

    /// The client-facing error: the message with code `PLAN_ERROR`.
    pub fn into_graphql(self) -> (r: GraphQLError)
        ensures
            r@ == (GraphQLErrorView {
                message: Self::spec_message(self@),
                locations: Seq::empty(),
                path: Seq::empty(),
                extensions: Some(JsonV::Object(seq![("code"@, JsonV::Str("PLAN_ERROR"@))])),
            }),
    {
        let m = self.message();
        GraphQLError::message(m).with_extensions(json_object1("code", json_str("PLAN_ERROR")))
    }
}

/// No two groups are for the same subgraph, and none is for `initial`.
pub open spec fn groups_distinct<T>(gs: Seq<(Seq<char>, T)>, initial: Seq<char>) -> bool {
    &&& forall|i: int, j: int| 0 <= i < j < gs.len() ==> #[trigger] gs[i].0 != #[trigger] gs[j].0
    &&& forall|i: int| 0 <= i < gs.len() ==> #[trigger] gs[i].0 != initial
}

proof fn lemma_group_push_distinct(gs: Seq<(Seq<char>, Seq<Seq<char>>)>, k: Seq<char>, x: Seq<char>, initial: Seq<char>)
    requires
        groups_distinct(gs, initial),
        k != initial,
    ensures
        groups_distinct(group_push(gs, k, x), initial),
{
    lemma_key_index(gs, k);
    let r = group_push(gs, k, x);
    match key_index(gs, k) {
        Some(i) => {
            assert forall|a: int, b: int| 0 <= a < b < r.len() implies #[trigger] r[a].0 != #[trigger] r[b].0 by {
                assert(r[a].0 == gs[a].0 && r[b].0 == gs[b].0);
            }
            assert forall|a: int| 0 <= a < r.len() implies #[trigger] r[a].0 != initial by {
                assert(r[a].0 == gs[a].0);
            }
        },
        None => {
            assert forall|a: int, b: int| 0 <= a < b < r.len() implies #[trigger] r[a].0 != #[trigger] r[b].0 by {
                if b == gs.len() {
                    assert(r[a].0 == gs[a].0);
                } else {
                    assert(r[a] == gs[a] && r[b] == gs[b]);
                }
            }
            assert forall|a: int| 0 <= a < r.len() implies #[trigger] r[a].0 != initial by {
                if a < gs.len() {
                    assert(r[a] == gs[a]);
                }
            }
        },
    }
}

proof fn lemma_partition_fold_distinct(
    sels: Seq<Sel>,
    key: Seq<char>,
    initial_sub: Seq<char>,
    owners: Seq<(Seq<char>, Seq<char>)>,
)
    ensures
        groups_distinct(partition_fold(sels, key, initial_sub, owners).1, initial_sub),
    decreases sels.len(),
{
    if sels.len() > 0 {
        lemma_partition_fold_distinct(sels.drop_last(), key, initial_sub, owners);
        let (ini, gs) = partition_fold(sels.drop_last(), key, initial_sub, owners);
        if let Sel::Field(sub) = sels.last() {
            if !(sub.name@ == "__typename"@ || sub.name@ == key) {
                let owner = match key_lookup(owners, sub.name@) {
                    Some(o) => o,
                    None => initial_sub,
                };
                if owner != initial_sub {
                    lemma_group_push_distinct(gs, owner, render_field(sub), initial_sub);
                }
            }
        }
    }
}

proof fn lemma_entity_fetches_of_groups(
    groups: Seq<(Seq<char>, Seq<char>)>,
    subs: Seq<(Seq<char>, RouteView)>,
    ty: Seq<char>,
    key: Seq<char>,
    root_key: Seq<char>,
    is_list: bool,
)
    requires
        entity_fetches_of(groups, subs, ty, key, root_key, is_list) is Ok,
    ensures
        ({
            let v = entity_fetches_of(groups, subs, ty, key, root_key, is_list)->Ok_0;
            &&& v.len() == groups.len()
            &&& forall|i: int|
                0 <= i < groups.len() ==> key_lookup(subs, #[trigger] groups[i].0) is Some && v[i].subgraph
                    == key_lookup(subs, groups[i].0)->0.name && v[i].fragment_body == groups[i].1
                    && v[i].typename == ty && v[i].key_field == key
        }),
    decreases groups.len(),
{
    if groups.len() > 0 {
        lemma_entity_fetches_of_groups(groups.drop_last(), subs, ty, key, root_key, is_list);
        let v = entity_fetches_of(groups, subs, ty, key, root_key, is_list)->Ok_0;
        let prev = entity_fetches_of(groups.drop_last(), subs, ty, key, root_key, is_list)->Ok_0;
        assert forall|i: int| 0 <= i < groups.len() implies key_lookup(subs, #[trigger] groups[i].0) is Some
            && v[i].subgraph == key_lookup(subs, groups[i].0)->0.name && v[i].fragment_body == groups[i].1
            && v[i].typename == ty && v[i].key_field == key by {
            if i < groups.len() - 1 {
                assert(groups.drop_last()[i] == groups[i]);
                assert(v[i] == prev[i]);
            }
        }
    }
}

proof fn lemma_join_starts_with_first_two(a: Seq<char>, b: Seq<char>, rest: Seq<Seq<char>>, sep: Seq<char>)
    ensures
        starts_with(join(seq![a, b] + rest, sep), a + sep + b),
    decreases rest.len(),
{
    let parts = seq![a, b] + rest;
    if rest.len() == 0 {
        assert(parts =~= seq![a, b]);
        assert(parts.drop_last() =~= seq![a]);
        assert(join(parts.drop_last(), sep) == a);
        assert(join(parts, sep) =~= a + sep + b);
        assert(join(parts, sep).subrange(0, (a + sep + b).len() as int) =~= a + sep + b);
    } else {
        assert(parts.drop_last() =~= seq![a, b] + rest.drop_last());
        lemma_join_starts_with_first_two(a, b, rest.drop_last(), sep);
        let j = join(parts.drop_last(), sep);
        let p = a + sep + b;
        assert(join(parts, sep) == j + sep + parts.last());
        assert(j.subrange(0, p.len() as int) == p);
        assert((j + sep + parts.last()).subrange(0, p.len() as int) =~= j.subrange(0, p.len() as int));
    }
}

/// Whatever the client selected, the initial selection set of a field of a
/// known entity type starts with `__typename` and the entity's key field,
/// so the executor can build representations from the answer.
pub proof fn lemma_initial_selects_typename_and_key(
    f: FieldSel,
    ty: Seq<char>,
    initial_sub: Seq<char>,
    ents: Seq<(Seq<char>, EntityTypeView)>,
)
    requires
        key_lookup(ents, ty) is Some,
    ensures
        starts_with(
            partition(f, ty, initial_sub, ents).0,
            "{ "@ + "__typename"@ + " "@ + key_field_of(key_lookup(ents, ty)->0),
        ),
{
    let e = key_lookup(ents, ty)->0;
    let key = key_field_of(e);
    let ini = partition_fold(f.selection_set@, key, initial_sub, e.field_owners).0;
    let j = join(seq!["__typename"@, key] + ini, " "@);
    lemma_join_starts_with_first_two("__typename"@, key, ini, " "@);
    let p = "__typename"@ + " "@ + key;
    let text = "{ "@ + j + " }"@;
    assert(text == partition(f, ty, initial_sub, ents).0);
    assert(text.subrange(0, 2 + p.len() as int) =~= "{ "@ + j.subrange(0, p.len() as int)) by {
        assert("{ "@.len() == 2) by {
            reveal_strlit("{ ");
        }
    }
    assert(j.subrange(0, p.len() as int) == p);
    assert(("{ "@ + "__typename"@ + " "@ + key) =~= "{ "@ + p);
    assert(text.subrange(0, ("{ "@ + p).len() as int) =~= "{ "@ + p);
}

/// A planned entity field gets exactly one batched `_entities` fetch per
/// extending subgraph its selection needs: the groups its sub-fields are
/// split into are for distinct subgraphs other than the field's owner, and
/// the fetches follow the groups one for one, each routed to its group's
/// subgraph with that group's fragment.
pub proof fn lemma_one_fetch_per_extending_subgraph(f: FieldSel, kind: OperationKind, decl: Seq<VarDef>, cat: CatalogView)
    requires
        field_fetch(f, kind, decl, cat) is Ok,
        guess_entity_type(f, cat.entity_types) is Some,
        key_lookup(cat.entity_types, guess_entity_type(f, cat.entity_types)->0) is Some,
    ensures
        ({
            let owners = match kind {
                OperationKind::Query => cat.root_query_fields,
                OperationKind::Mutation => cat.root_mutation_fields,
            };
            let owner = key_lookup(owners, f.name@)->0;
            let t = guess_entity_type(f, cat.entity_types)->0;
            let e = key_lookup(cat.entity_types, t)->0;
            let groups = partition(f, t, owner, cat.entity_types).1;
            let v = field_fetch(f, kind, decl, cat)->Ok_0.entity_fetches;
            &&& groups_distinct(groups, owner)
            &&& v.len() == groups.len()
            &&& forall|i: int|
                0 <= i < groups.len() ==> key_lookup(cat.subgraphs, #[trigger] groups[i].0) is Some && v[i].subgraph
                    == key_lookup(cat.subgraphs, groups[i].0)->0.name && v[i].fragment_body == groups[i].1
                    && v[i].typename == t && v[i].key_field == key_field_of(e)
        }),
{
    let owners = match kind {
        OperationKind::Query => cat.root_query_fields,
        OperationKind::Mutation => cat.root_mutation_fields,
    };
    let owner = key_lookup(owners, f.name@)->0;
    let t = guess_entity_type(f, cat.entity_types)->0;
    let e = key_lookup(cat.entity_types, t)->0;
    let key = key_field_of(e);
    lemma_partition_fold_distinct(f.selection_set@, key, owner, e.field_owners);
    let gs = partition_fold(f.selection_set@, key, owner, e.field_owners).1;
    let groups = partition(f, t, owner, cat.entity_types).1;
    assert(groups == gs.map_values(|g: (Seq<char>, Seq<Seq<char>>)| (g.0, join(g.1, " "@))));
    assert forall|i: int, j: int| 0 <= i < j < groups.len() implies #[trigger] groups[i].0 != #[trigger] groups[j].0 by {
        assert(groups[i].0 == gs[i].0 && groups[j].0 == gs[j].0);
    }
    assert forall|i: int| 0 <= i < groups.len() implies #[trigger] groups[i].0 != owner by {
        assert(groups[i].0 == gs[i].0);
    }
    lemma_entity_fetches_of_groups(groups, cat.subgraphs, t, key, response_key(f), looks_like_list(f.name@));
}
} // verus!
