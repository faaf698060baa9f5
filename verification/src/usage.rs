//! Field-usage events: for each entity field a successful operation selects,
//! which subgraph service resolved it.

use vstd::prelude::*;
use crate::graphql::ast::{Doc, FieldSel, Operation, Sel, TopDef};
use crate::plan::types::{ExecutionPlan, FieldFetch};
use crate::strmap::key_lookup;
use crate::supergraph::catalog::{EntityType, EntityTypeView, SupergraphCatalog};
use crate::text::str_eq;

verus! {

/// One selected entity field.
#[derive(Debug)]
pub struct UsageEvent {
    pub service_name: String,
    pub typename: String,
    pub field_name: String,
    /// `responseKey.field`.
    pub field_path: String,
    pub operation_name: String,
    pub client_name: String,
    pub client_version: String,
    pub timestamp: Option<String>,
}

pub struct UsageEventView {
    pub service_name: Seq<char>,
    pub typename: Seq<char>,
    pub field_name: Seq<char>,
    pub field_path: Seq<char>,
    pub operation_name: Seq<char>,
    pub client_name: Seq<char>,
    pub client_version: Seq<char>,
}

/// The view of an event whose `timestamp` is `None`.
pub open spec fn event_view(e: UsageEvent) -> Option<UsageEventView> {
    if e.timestamp is None {
        Some(
            UsageEventView {
                service_name: e.service_name@,
                typename: e.typename@,
                field_name: e.field_name@,
                field_path: e.field_path@,
                operation_name: e.operation_name@,
                client_name: e.client_name@,
                client_version: e.client_version@,
            },
        )
    } else {
        None
    }
}

pub open spec fn events_view(v: Seq<UsageEvent>) -> Seq<Option<UsageEventView>> {
    v.map_values(|e: UsageEvent| event_view(e))
}

/// Who the events are about.
pub struct Caller {
    pub operation_name: Seq<char>,
    pub client_name: Seq<char>,
    pub client_version: Seq<char>,
}

/// The entity type of the last planned root field with response key `key`
/// that has one.
pub open spec fn key_entity(fs: Seq<FieldFetch>, key: Seq<char>) -> Option<Seq<char>>
    decreases fs.len(),
{
    if fs.len() == 0 {
        None
    } else if fs.last().response_key@ == key && fs.last().entity_type is Some {
        Some(fs.last().entity_type->0@)
    } else {
        key_entity(fs.drop_last(), key)
    }
}

/// The event for one selection of an entity type's fields, if any: fields
/// other than `__typename` that the catalog knows a resolver for.
pub open spec fn field_event(entity: EntityTypeView, typename: Seq<char>, path: Seq<char>, s: Sel, c: Caller) -> Seq<Option<UsageEventView>> {
    match s {
        Sel::Field(f) => if f.name@ == "__typename"@ {
            Seq::empty()
        } else {
            match key_lookup(entity.field_owners, f.name@) {
                Some(owner) => seq![
                    Some(
                        UsageEventView {
                            service_name: owner + "-service"@,
                            typename,
                            field_name: f.name@,
                            field_path: path + "."@ + f.name@,
                            operation_name: c.operation_name,
                            client_name: c.client_name,
                            client_version: c.client_version,
                        },
                    ),
                ],
                None => Seq::empty(),
            }
        },
        _ => Seq::empty(),
    }
}

pub open spec fn entity_field_events(
    entity: EntityTypeView,
    typename: Seq<char>,
    path: Seq<char>,
    sels: Seq<Sel>,
    c: Caller,
) -> Seq<Option<UsageEventView>>
    decreases sels.len(),
{
    if sels.len() == 0 {
        Seq::empty()
    } else {
        entity_field_events(entity, typename, path, sels.drop_last(), c) + field_event(
            entity,
            typename,
            path,
            sels.last(),
            c,
        )
    }
}

pub open spec fn response_key_of(f: FieldSel) -> Seq<char> {
    match f.alias {
        Some(a) => a@,
        None => f.name@,
    }
}

/// The events for one root selection.
pub open spec fn root_events(
    s: Sel,
    fs: Seq<FieldFetch>,
    entities: Seq<(Seq<char>, EntityTypeView)>,
    c: Caller,
) -> Seq<Option<UsageEventView>> {
    match s {
        Sel::Field(f) => match key_entity(fs, response_key_of(f)) {
            Some(t) => match key_lookup(entities, t) {
                Some(e) => entity_field_events(e, t, response_key_of(f), f.selection_set@, c),
                None => Seq::empty(),
            },
            None => Seq::empty(),
        },
        _ => Seq::empty(),
    }
}

pub open spec fn roots_events(
    sels: Seq<Sel>,
    fs: Seq<FieldFetch>,
    entities: Seq<(Seq<char>, EntityTypeView)>,
    c: Caller,
) -> Seq<Option<UsageEventView>>
    decreases sels.len(),
{
    if sels.len() == 0 {
        Seq::empty()
    } else {
        roots_events(sels.drop_last(), fs, entities, c) + root_events(sels.last(), fs, entities, c)
    }
}

/// The operations the events are collected from: all of them, or those named
/// as the plan's operation.
pub open spec fn counted(op: Operation, requested: Option<String>) -> bool {
    match requested {
        Some(r) => op.name is Some && op.name->0@ == r@,
        None => true,
    }
}

pub open spec fn usage_events(
    defs: Seq<TopDef>,
    plan: ExecutionPlan,
    entities: Seq<(Seq<char>, EntityTypeView)>,
    c: Caller,
) -> Seq<Option<UsageEventView>>
    decreases defs.len(),
{
    if defs.len() == 0 {
        Seq::empty()
    } else {
        usage_events(defs.drop_last(), plan, entities, c) + match defs.last() {
            TopDef::Operation(op) => if counted(op, plan.operation_name) {
                roots_events(op.selection_set@, plan.field_fetches@, entities, c)
            } else {
                Seq::empty()
            },
            _ => Seq::empty(),
        }
    }
}

fn key_entity_exec<'a>(fs: &'a Vec<FieldFetch>, key: &str) -> (r: Option<&'a String>)
    ensures
        match r {
            Some(t) => key_entity(fs@, key@) == Some(t@),
            None => key_entity(fs@, key@) is None,
        },
{
    let mut found: Option<&String> = None;
    let mut i: usize = 0;
    while i < fs.len()
        invariant
            i <= fs.len(),
            match found {
                Some(t) => key_entity(fs@.take(i as int), key@) == Some(t@),
                None => key_entity(fs@.take(i as int), key@) is None,
            },
        decreases fs.len() - i,
    {
        assert(fs@.take(i + 1).drop_last() =~= fs@.take(i as int));
        if str_eq(fs[i].response_key.as_str(), key) {
            if let Some(t) = &fs[i].entity_type {
                found = Some(t);
            }
        }
        i = i + 1;
    }
    assert(fs@.take(fs.len() as int) =~= fs@);
    found
}

fn entity_fields_into(
    entity: &EntityType,
    typename: &String,
    path: &String,
    sels: &Vec<Sel>,
    operation_name: &str,
    client_name: &str,
    client_version: &str,
    events: &mut Vec<UsageEvent>,
)
    ensures
        events_view(final(events)@) == events_view(old(events)@) + entity_field_events(
            entity@,
            typename@,
            path@,
            sels@,
            Caller { operation_name: operation_name@, client_name: client_name@, client_version: client_version@ },
        ),
{
    let ghost c = Caller {
        operation_name: operation_name@,
        client_name: client_name@,
        client_version: client_version@,
    };
    let ghost start = events_view(events@);
    let mut i: usize = 0;
    while i < sels.len()
        invariant
            i <= sels.len(),
            c == (Caller { operation_name: operation_name@, client_name: client_name@, client_version: client_version@ }),
            events_view(events@) == start + entity_field_events(entity@, typename@, path@, sels@.take(i as int), c),
        decreases sels.len() - i,
    {
        assert(sels@.take(i + 1).drop_last() =~= sels@.take(i as int));
        assert(sels@.take(i + 1).last() == sels@[i as int]);
        let ghost before = events_view(events@);
        if let Sel::Field(f) = &sels[i] {
            if !str_eq(f.name.as_str(), "__typename") {
                if let Some(owner) = entity.field_owners.get(f.name.as_str()) {
                    let mut service = owner.clone();
                    service.append("-service");
                    let mut field_path = path.clone();
                    field_path.append(".");
                    field_path.append(f.name.as_str());
                    let ev = UsageEvent {
                        service_name: service,
                        typename: typename.clone(),
                        field_name: f.name.clone(),
                        field_path,
                        operation_name: operation_name.to_owned(),
                        client_name: client_name.to_owned(),
                        client_version: client_version.to_owned(),
                        timestamp: None,
                    };
                    events.push(ev);
                    assert(events_view(events@) =~= before.push(event_view(ev)));
                } else {
                    assert(events_view(events@) =~= before + Seq::<Option<UsageEventView>>::empty());
                }
            } else {
                assert(events_view(events@) =~= before + Seq::<Option<UsageEventView>>::empty());
            }
        } else {
            assert(events_view(events@) =~= before + Seq::<Option<UsageEventView>>::empty());
        }
        i = i + 1;
    }
    assert(sels@.take(sels.len() as int) =~= sels@);
}

/// The usage events of a successful operation, in document order.
pub fn collect_usage_events(
    document: &Doc,
    plan: &ExecutionPlan,
    catalog: &SupergraphCatalog,
    operation_name: &str,
    client_name: &str,
    client_version: &str,
) -> (r: Vec<UsageEvent>)
    ensures
        events_view(r@) == usage_events(
            document.definitions@,
            *plan,
            catalog.entity_types@,
            Caller { operation_name: operation_name@, client_name: client_name@, client_version: client_version@ },
        ),
{
    let ghost c = Caller {
        operation_name: operation_name@,
        client_name: client_name@,
        client_version: client_version@,
    };
    let mut events: Vec<UsageEvent> = Vec::new();
    let defs = &document.definitions;
    let mut i: usize = 0;
    assert(events_view(events@) =~= Seq::<Option<UsageEventView>>::empty());
    while i < defs.len()
        invariant
            i <= defs.len(),
            defs@ == document.definitions@,
            c == (Caller { operation_name: operation_name@, client_name: client_name@, client_version: client_version@ }),
            events_view(events@) == usage_events(defs@.take(i as int), *plan, catalog.entity_types@, c),
        decreases defs.len() - i,
    {
        assert(defs@.take(i + 1).drop_last() =~= defs@.take(i as int));
        let ghost before = events_view(events@);
        if let TopDef::Operation(op) = &defs[i] {
            let wanted = match &plan.operation_name {
                Some(req) => match &op.name {
                    Some(n) => str_eq(n.as_str(), req.as_str()),
                    None => false,
                },
                None => true,
            };
            if wanted {
                let sels = &op.selection_set;
                let mut j: usize = 0;
                while j < sels.len()
                    invariant
                        j <= sels.len(),
                        c == (Caller { operation_name: operation_name@, client_name: client_name@, client_version: client_version@ }),
                        events_view(events@) == before + roots_events(
                            sels@.take(j as int),
                            plan.field_fetches@,
                            catalog.entity_types@,
                            c,
                        ),
                    decreases sels.len() - j,
                {
                    assert(sels@.take(j + 1).drop_last() =~= sels@.take(j as int));
                    let ghost mid = events_view(events@);
                    if let Sel::Field(f) = &sels[j] {
                        let key = match &f.alias {
                            Some(a) => a,
                            None => &f.name,
                        };
                        match key_entity_exec(&plan.field_fetches, key.as_str()) {
                            Some(t) => match catalog.entity_types.get(t.as_str()) {
                                Some(entity) => {
                                    entity_fields_into(
                                        entity,
                                        t,
                                        key,
                                        &f.selection_set,
                                        operation_name,
                                        client_name,
                                        client_version,
                                        &mut events,
                                    );
                                },
                                None => {},
                            },
                            None => {},
                        }
                    }
                    assert(events_view(events@) =~= before + roots_events(
                        sels@.take(j + 1),
                        plan.field_fetches@,
                        catalog.entity_types@,
                        c,
                    ));
                    j = j + 1;
                }
                assert(sels@.take(sels.len() as int) =~= sels@);
            }
        }
        assert(events_view(events@) =~= usage_events(defs@.take(i + 1), *plan, catalog.entity_types@, c));
        i = i + 1;
    }
    assert(defs@.take(defs.len() as int) =~= defs@);
    events
}

/// Every event names a real field (never `__typename`).
pub open spec fn names_real_fields(s: Seq<Option<UsageEventView>>) -> bool {
    forall|k: int| 0 <= k < s.len() ==> (#[trigger] s[k] matches Some(v) ==> v.field_name != "__typename"@)
}

proof fn lemma_concat_real(a: Seq<Option<UsageEventView>>, b: Seq<Option<UsageEventView>>)
    requires
        names_real_fields(a),
        names_real_fields(b),
    ensures
        names_real_fields(a + b),
{
    assert forall|k: int| 0 <= k < (a + b).len() implies (#[trigger] (a + b)[k] matches Some(v) ==> v.field_name
        != "__typename"@) by {
        if k < a.len() {
            assert((a + b)[k] == a[k]);
        } else {
            assert((a + b)[k] == b[k - a.len()]);
        }
    }
}

proof fn lemma_entity_events_real(e: EntityTypeView, t: Seq<char>, p: Seq<char>, sels: Seq<Sel>, c: Caller)
    ensures
        names_real_fields(entity_field_events(e, t, p, sels, c)),
    decreases sels.len(),
{
    if sels.len() > 0 {
        lemma_entity_events_real(e, t, p, sels.drop_last(), c);
        lemma_concat_real(entity_field_events(e, t, p, sels.drop_last(), c), field_event(e, t, p, sels.last(), c));
    }
}

proof fn lemma_roots_events_real(sels: Seq<Sel>, fs: Seq<FieldFetch>, entities: Seq<(Seq<char>, EntityTypeView)>, c: Caller)
    ensures
        names_real_fields(roots_events(sels, fs, entities, c)),
    decreases sels.len(),
{
    if sels.len() > 0 {
        lemma_roots_events_real(sels.drop_last(), fs, entities, c);
        let s = sels.last();
        if let Sel::Field(f) = s {
            if let Some(t) = key_entity(fs, response_key_of(f)) {
                if let Some(e) = key_lookup(entities, t) {
                    lemma_entity_events_real(e, t, response_key_of(f), f.selection_set@, c);
                }
            }
        }
        lemma_concat_real(roots_events(sels.drop_last(), fs, entities, c), root_events(s, fs, entities, c));
    }
}

/// Usage is never reported for `__typename`, which no subgraph resolves.
pub proof fn lemma_no_typename_usage(
    defs: Seq<TopDef>,
    plan: ExecutionPlan,
    entities: Seq<(Seq<char>, EntityTypeView)>,
    c: Caller,
)
    ensures
        names_real_fields(usage_events(defs, plan, entities, c)),
    decreases defs.len(),
{
    if defs.len() > 0 {
        lemma_no_typename_usage(defs.drop_last(), plan, entities, c);
        let tail = match defs.last() {
            TopDef::Operation(op) => if counted(op, plan.operation_name) {
                roots_events(op.selection_set@, plan.field_fetches@, entities, c)
            } else {
                Seq::empty()
            },
            _ => Seq::empty(),
        };
        if let TopDef::Operation(op) = defs.last() {
            lemma_roots_events_real(op.selection_set@, plan.field_fetches@, entities, c);
        }
        lemma_concat_real(usage_events(defs.drop_last(), plan, entities, c), tail);
    }
}
} // verus!
