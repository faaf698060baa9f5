//! Reads a composed Apollo Federation v2 supergraph SDL into a
//! [`SupergraphCatalog`]: the subgraph routes from `enum join__Graph`,
//! entity types from `@join__type` / `@join__field`, and the owners of the
//! root `Query` / `Mutation` fields.

use vstd::prelude::*;
use crate::graphql::ast::{graphql_parse, parse_document, Arg, Dir, Doc, EnumValueDef, FieldDef, GValue, ObjectDef, TopDef};
use crate::strmap::{key_index, key_insert, key_lookup, lemma_key_index_unique, lemma_key_absent, StrMap};
use crate::text::{str_eq, split_whitespace_str, words};

verus! {

/// Timeout of a subgraph route when nothing else configures one.
pub const DEFAULT_SUBGRAPH_TIMEOUT_MS: u64 = 1000;

/// Where a subgraph lives.
#[derive(Debug)]
pub struct SupergraphRoute {
    pub name: String,
    pub url: String,
    pub timeout_ms: u64,
}

pub struct RouteView {
    pub name: Seq<char>,
    pub url: Seq<char>,
    pub timeout_ms: u64,
}

impl View for SupergraphRoute {
    type V = RouteView;

    open spec fn view(&self) -> RouteView {
        RouteView { name: self.name@, url: self.url@, timeout_ms: self.timeout_ms }
    }
}

// ---- directive arguments --------------------------------------------------

/// Position of the first argument named `n`.
pub open spec fn arg_index(args: Seq<Arg>, n: Seq<char>) -> Option<int>
    decreases args.len(),
{
    if args.len() == 0 {
        None
    } else {
        match arg_index(args.drop_last(), n) {
            Some(i) => Some(i),
            None => if args.last().name@ == n {
                Some(args.len() - 1)
            } else {
                None
            },
        }
    }
}

pub proof fn lemma_arg_index(args: Seq<Arg>, n: Seq<char>)
    ensures
        arg_index(args, n) matches Some(i) ==> 0 <= i < args.len() && args[i].name@ == n && forall|
            j: int,
        | 0 <= j < i ==> args[j].name@ != n,
        arg_index(args, n) is None ==> forall|j: int| 0 <= j < args.len() ==> args[j].name@ != n,
    decreases args.len(),
{
    if args.len() > 0 {
        let d = args.drop_last();
        lemma_arg_index(d, n);
        assert forall|j: int| 0 <= j < d.len() implies d[j] == args[j] by {}
    }
}

pub fn find_arg(args: &Vec<Arg>, n: &str) -> (r: Option<usize>)
    ensures
        r matches Some(i) ==> arg_index(args@, n@) == Some(i as int) && i < args.len(),
        r is None ==> arg_index(args@, n@) is None,
{
    proof {
        lemma_arg_index(args@, n@);
    }
    let mut i: usize = 0;
    while i < args.len()
        invariant
            i <= args.len(),
            forall|j: int| 0 <= j < i ==> args@[j].name@ != n@,
        decreases args.len() - i,
    {
        if str_eq(args[i].name.as_str(), n) {
            proof {
                lemma_arg_index(args@, n@);
            }
            return Some(i);
        }
        i = i + 1;
    }
    None
}

/// The string value of the last argument named `n` whose value is a
/// string literal.
pub open spec fn last_str_arg(args: Seq<Arg>, n: Seq<char>) -> Option<Seq<char>>
    decreases args.len(),
{
    if args.len() == 0 {
        None
    } else if args.last().name@ == n && args.last().value is Str {
        Some(args.last().value->Str_0@)
    } else {
        last_str_arg(args.drop_last(), n)
    }
}

pub fn last_str_arg_exec(args: &Vec<Arg>, n: &str) -> (r: Option<String>)
    ensures
        r matches Some(s) ==> last_str_arg(args@, n@) == Some(s@),
        r is None ==> last_str_arg(args@, n@) is None,
{
    let mut i: usize = args.len();
    assert(args@.take(i as int) =~= args@);
    while i > 0
        invariant
            i <= args.len(),
            last_str_arg(args@, n@) == last_str_arg(args@.take(i as int), n@),
        decreases i,
    {
        assert(args@.take(i as int).drop_last() =~= args@.take(i - 1));
        assert(args@.take(i as int).last() == args@[i - 1]);
        if str_eq(args[i - 1].name.as_str(), n) {
            if let GValue::Str(s) = &args[i - 1].value {
                return Some(s.clone());
            }
        }
        i = i - 1;
    }
    None
}

/// The subgraph named by the `graph` argument of a directive: the first
/// argument called `graph`, read through `lookup` when it is an enum value
/// (falling back to the enum value itself), or taken as is when it is a
/// string.
pub open spec fn graph_arg(d: Dir, lookup: Seq<(Seq<char>, Seq<char>)>) -> Option<Seq<char>> {
    match arg_index(d.arguments@, "graph"@) {
        Some(i) => match d.arguments@[i].value {
            GValue::Enum(n) => Some(
                match key_lookup(lookup, n@) {
                    Some(s) => s,
                    None => n@,
                },
            ),
            GValue::Str(s) => Some(s@),
            _ => None,
        },
        None => None,
    }
}

pub fn graph_arg_exec(d: &Dir, lookup: &StrMap<String>) -> (r: Option<String>)
    ensures
        r matches Some(s) ==> graph_arg(*d, lookup@) == Some(s@),
        r is None ==> graph_arg(*d, lookup@) is None,
{
    match find_arg(&d.arguments, "graph") {
        Some(i) => match &d.arguments[i].value {
            GValue::Enum(n) => match lookup.get(n.as_str()) {
                Some(s) => Some(s.clone()),
                None => Some(n.clone()),
            },
            GValue::Str(s) => Some(s.clone()),
            _ => None,
        },
        None => None,
    }
}

// ---- join__Graph enum value -> subgraph name ------------------------------

/// The `name` argument of a `@join__graph` directive: the first argument
/// called `name`, when it is a string.
pub open spec fn first_name_arg(d: Dir) -> Option<Seq<char>> {
    match arg_index(d.arguments@, "name"@) {
        Some(i) => match d.arguments@[i].value {
            GValue::Str(s) => Some(s@),
            _ => None,
        },
        None => None,
    }
}

pub open spec fn lookup_dirs(
    acc: Seq<(Seq<char>, Seq<char>)>,
    enum_name: Seq<char>,
    dirs: Seq<Dir>,
) -> Seq<(Seq<char>, Seq<char>)>
    decreases dirs.len(),
{
    if dirs.len() == 0 {
        acc
    } else {
        let prev = lookup_dirs(acc, enum_name, dirs.drop_last());
        let d = dirs.last();
        if d.name@ == "join__graph"@ && first_name_arg(d) is Some {
            key_insert(prev, enum_name, first_name_arg(d)->0)
        } else {
            prev
        }
    }
}

pub open spec fn lookup_values(acc: Seq<(Seq<char>, Seq<char>)>, vals: Seq<EnumValueDef>) -> Seq<
    (Seq<char>, Seq<char>),
>
    decreases vals.len(),
{
    if vals.len() == 0 {
        acc
    } else {
        lookup_dirs(
            lookup_values(acc, vals.drop_last()),
            vals.last().value@,
            vals.last().directives@,
        )
    }
}

pub open spec fn lookup_defs(acc: Seq<(Seq<char>, Seq<char>)>, defs: Seq<TopDef>) -> Seq<
    (Seq<char>, Seq<char>),
>
    decreases defs.len(),
{
    if defs.len() == 0 {
        acc
    } else {
        let prev = lookup_defs(acc, defs.drop_last());
        match defs.last() {
            TopDef::EnumType(e) => if e.name@ == "join__Graph"@ {
                lookup_values(prev, e.values@)
            } else {
                prev
            },
            _ => prev,
        }
    }
}

/// `join__Graph` enum value name (e.g. `PROPERTY`) -> subgraph name (e.g.
/// `property`), from each value's `@join__graph(name: ...)`.
pub open spec fn enum_lookup(doc: Doc) -> Seq<(Seq<char>, Seq<char>)> {
    lookup_defs(Seq::empty(), doc.definitions@)
}

fn lookup_add_dirs(acc: &mut StrMap<String>, enum_name: &String, dirs: &Vec<Dir>)
    ensures
        final(acc)@ == lookup_dirs(old(acc)@, enum_name@, dirs@),
{
    let ghost start = acc@;
    let mut i: usize = 0;
    while i < dirs.len()
        invariant
            i <= dirs.len(),
            acc@ == lookup_dirs(start, enum_name@, dirs@.take(i as int)),
        decreases dirs.len() - i,
    {
        assert(dirs@.take(i + 1).drop_last() =~= dirs@.take(i as int));
        let d = &dirs[i];
        if str_eq(d.name.as_str(), "join__graph") {
            match find_arg(&d.arguments, "name") {
                Some(k) => {
                    if let GValue::Str(s) = &d.arguments[k].value {
                        acc.insert(enum_name.clone(), s.clone());
                    }
                },
                None => {},
            }
        }
        i = i + 1;
    }
    assert(dirs@.take(dirs.len() as int) =~= dirs@);
}

fn lookup_add_values(acc: &mut StrMap<String>, vals: &Vec<EnumValueDef>)
    ensures
        final(acc)@ == lookup_values(old(acc)@, vals@),
{
    let ghost start = acc@;
    let mut i: usize = 0;
    while i < vals.len()
        invariant
            i <= vals.len(),
            acc@ == lookup_values(start, vals@.take(i as int)),
        decreases vals.len() - i,
    {
        assert(vals@.take(i + 1).drop_last() =~= vals@.take(i as int));
        lookup_add_dirs(acc, &vals[i].value, &vals[i].directives);
        i = i + 1;
    }
    assert(vals@.take(vals.len() as int) =~= vals@);
}

/// Builds [`enum_lookup`].
pub fn build_enum_lookup(doc: &Doc) -> (r: StrMap<String>)
    ensures
        r@ == enum_lookup(*doc),
{
    let mut acc: StrMap<String> = StrMap::new();
    let defs = &doc.definitions;
    let mut i: usize = 0;
    while i < defs.len()
        invariant
            i <= defs.len(),
            acc@ == lookup_defs(Seq::empty(), defs@.take(i as int)),
        decreases defs.len() - i,
    {
        assert(defs@.take(i + 1).drop_last() =~= defs@.take(i as int));
        if let TopDef::EnumType(e) = &defs[i] {
            if str_eq(e.name.as_str(), "join__Graph") {
                lookup_add_values(&mut acc, &e.values);
            }
        }
        i = i + 1;
    }
    assert(defs@.take(defs.len() as int) =~= defs@);
    acc
}


// ---- subgraph routes --------------------------------------------------------

/// Why a supergraph could not be read.
#[derive(Debug)]
pub enum SupergraphError {
    /// The file could not be read: its path as `Debug` quotes it, and the
    /// I/O error's text.
    Read { path: String, source: String },
    /// The SDL did not parse (the rendered diagnostics).
    Parse(String),
    /// The SDL parsed but does not describe a usable supergraph.
    Validation(String),
}

pub open spec fn no_join_graph_message() -> Seq<char> {
    "supergraph has no `enum join__Graph` declaration; was the SDL composed by Apollo?"@
}

/// Applies the `@join__graph(name:, url:)` directives of one enum value: the
/// last string `name` and `url` arguments of each such directive declare a
/// route.
pub open spec fn route_dirs(acc: Seq<(Seq<char>, RouteView)>, dirs: Seq<Dir>) -> Seq<
    (Seq<char>, RouteView),
>
    decreases dirs.len(),
{
    if dirs.len() == 0 {
        acc
    } else {
        let prev = route_dirs(acc, dirs.drop_last());
        let d = dirs.last();
        let name = last_str_arg(d.arguments@, "name"@);
        let url = last_str_arg(d.arguments@, "url"@);
        if d.name@ == "join__graph"@ && name is Some && url is Some {
            key_insert(
                prev,
                name->0,
                RouteView {
                    name: name->0,
                    url: url->0,
                    timeout_ms: DEFAULT_SUBGRAPH_TIMEOUT_MS,
                },
            )
        } else {
            prev
        }
    }
}

pub open spec fn route_values(acc: Seq<(Seq<char>, RouteView)>, vals: Seq<EnumValueDef>) -> Seq<
    (Seq<char>, RouteView),
>
    decreases vals.len(),
{
    if vals.len() == 0 {
        acc
    } else {
        route_dirs(route_values(acc, vals.drop_last()), vals.last().directives@)
    }
}

pub open spec fn route_defs(acc: Seq<(Seq<char>, RouteView)>, defs: Seq<TopDef>) -> Seq<
    (Seq<char>, RouteView),
>
    decreases defs.len(),
{
    if defs.len() == 0 {
        acc
    } else {
        let prev = route_defs(acc, defs.drop_last());
        match defs.last() {
            TopDef::EnumType(e) => if e.name@ == "join__Graph"@ {
                route_values(prev, e.values@)
            } else {
                prev
            },
            _ => prev,
        }
    }
}

/// The routes declared by `enum join__Graph`, in declaration order.
pub open spec fn subgraph_routes(doc: Doc) -> Seq<(Seq<char>, RouteView)> {
    route_defs(Seq::empty(), doc.definitions@)
}

fn routes_add_dirs(acc: &mut StrMap<SupergraphRoute>, dirs: &Vec<Dir>)
    ensures
        final(acc)@ == route_dirs(old(acc)@, dirs@),
{
    let ghost start = acc@;
    let mut i: usize = 0;
    while i < dirs.len()
        invariant
            i <= dirs.len(),
            acc@ == route_dirs(start, dirs@.take(i as int)),
        decreases dirs.len() - i,
    {
        assert(dirs@.take(i + 1).drop_last() =~= dirs@.take(i as int));
        let d = &dirs[i];
        if str_eq(d.name.as_str(), "join__graph") {
            let name = last_str_arg_exec(&d.arguments, "name");
            let url = last_str_arg_exec(&d.arguments, "url");
            match (name, url) {
                (Some(n), Some(u)) => {
                    let route = SupergraphRoute {
                        name: n.clone(),
                        url: u,
                        timeout_ms: DEFAULT_SUBGRAPH_TIMEOUT_MS,
                    };
                    acc.insert(n, route);
                },
                _ => {},
            }
        }
        i = i + 1;
    }
    assert(dirs@.take(dirs.len() as int) =~= dirs@);
}

fn routes_add_values(acc: &mut StrMap<SupergraphRoute>, vals: &Vec<EnumValueDef>)
    ensures
        final(acc)@ == route_values(old(acc)@, vals@),
{
    let ghost start = acc@;
    let mut i: usize = 0;
    while i < vals.len()
        invariant
            i <= vals.len(),
            acc@ == route_values(start, vals@.take(i as int)),
        decreases vals.len() - i,
    {
        assert(vals@.take(i + 1).drop_last() =~= vals@.take(i as int));
        routes_add_dirs(acc, &vals[i].directives);
        i = i + 1;
    }
    assert(vals@.take(vals.len() as int) =~= vals@);
}

/// Reads `enum join__Graph { NAME @join__graph(name:, url:) ... }` into a
/// `name -> route` map; a supergraph without any route is refused.
pub fn collect_subgraphs(doc: &Doc) -> (r: Result<StrMap<SupergraphRoute>, SupergraphError>)
    ensures
        r matches Ok(m) ==> m@ == subgraph_routes(*doc) && m@.len() > 0,
        r is Err <==> subgraph_routes(*doc).len() == 0,
        r matches Err(e) ==> e matches SupergraphError::Validation(msg) && msg@
            == no_join_graph_message(),
{
    let mut acc: StrMap<SupergraphRoute> = StrMap::new();
    let defs = &doc.definitions;
    let mut i: usize = 0;
    while i < defs.len()
        invariant
            i <= defs.len(),
            acc@ == route_defs(Seq::empty(), defs@.take(i as int)),
        decreases defs.len() - i,
    {
        assert(defs@.take(i + 1).drop_last() =~= defs@.take(i as int));
        if let TopDef::EnumType(e) = &defs[i] {
            if str_eq(e.name.as_str(), "join__Graph") {
                routes_add_values(&mut acc, &e.values);
            }
        }
        i = i + 1;
    }
    assert(defs@.take(defs.len() as int) =~= defs@);
    if acc.len() == 0 {
        return Err(
            SupergraphError::Validation(
                "supergraph has no `enum join__Graph` declaration; was the SDL composed by Apollo?".to_owned(),
            ),
        );
    }
    Ok(acc)
}


// ---- entity types -------------------------------------------------------------

pub open spec fn str_views(v: Seq<String>) -> Seq<Seq<char>> {
    v.map_values(|s: String| s@)
}

pub open spec fn opt_view(o: Option<String>) -> Option<Seq<char>> {
    match o {
        Some(s) => Some(s@),
        None => None,
    }
}

/// A subgraph that extends an entity type, with the fields it contributes.
#[derive(Debug)]
pub struct EntityExtender {
    pub subgraph: String,
    pub fields: Vec<String>,
}

impl View for EntityExtender {
    type V = (Seq<char>, Seq<Seq<char>>);

    open spec fn view(&self) -> (Seq<char>, Seq<Seq<char>>) {
        (self.subgraph@, str_views(self.fields@))
    }
}

pub open spec fn extenders_view(v: Seq<EntityExtender>) -> Seq<(Seq<char>, Seq<Seq<char>>)> {
    v.map_values(|e: EntityExtender| e@)
}

/// An object type that subgraphs share through `@join__type`.
#[derive(Debug)]
pub struct EntityType {
    pub name: String,
    /// The fields of the first `@key` (e.g. `["id"]`).
    pub key_fields: Vec<String>,
    /// The subgraph that owns the type (its `@join__type` without
    /// `extension: true`).
    pub owner: String,
    pub extenders: Vec<EntityExtender>,
    /// Field name -> the subgraph that resolves it.
    pub field_owners: StrMap<String>,
}

pub struct EntityTypeView {
    pub name: Seq<char>,
    pub key_fields: Seq<Seq<char>>,
    pub owner: Seq<char>,
    pub extenders: Seq<(Seq<char>, Seq<Seq<char>>)>,
    pub field_owners: Seq<(Seq<char>, Seq<char>)>,
}

impl View for EntityType {
    type V = EntityTypeView;

    open spec fn view(&self) -> EntityTypeView {
        EntityTypeView {
            name: self.name@,
            key_fields: str_views(self.key_fields@),
            owner: self.owner@,
            extenders: extenders_view(self.extenders@),
            field_owners: self.field_owners@,
        }
    }
}

/// The `graph`, `key` and `extension` arguments of a `@join__type`; among
/// repeated arguments the last one of the right kind counts.
pub open spec fn join_type_args(args: Seq<Arg>, lookup: Seq<(Seq<char>, Seq<char>)>) -> (
    Option<Seq<char>>,
    Option<Seq<char>>,
    bool,
)
    decreases args.len(),
{
    if args.len() == 0 {
        (None, None, false)
    } else {
        let (g, k, e) = join_type_args(args.drop_last(), lookup);
        let a = args.last();
        if a.name@ == "graph"@ {
            match a.value {
                GValue::Enum(n) => (
                    Some(
                        match key_lookup(lookup, n@) {
                            Some(s) => s,
                            None => n@,
                        },
                    ),
                    k,
                    e,
                ),
                _ => (g, k, e),
            }
        } else if a.name@ == "key"@ {
            match a.value {
                GValue::Str(s) => (g, Some(s@), e),
                _ => (g, k, e),
            }
        } else if a.name@ == "extension"@ {
            match a.value {
                GValue::Boolean(b) => (g, k, b),
                _ => (g, k, e),
            }
        } else {
            (g, k, e)
        }
    }
}

fn join_type_args_exec(args: &Vec<Arg>, lookup: &StrMap<String>) -> (r: (
    Option<String>,
    Option<String>,
    bool,
))
    ensures
        (opt_view(r.0), opt_view(r.1), r.2) == join_type_args(args@, lookup@),
{
    let mut graph: Option<String> = None;
    let mut key: Option<String> = None;
    let mut extension = false;
    let mut i: usize = 0;
    while i < args.len()
        invariant
            i <= args.len(),
            (opt_view(graph), opt_view(key), extension) == join_type_args(
                args@.take(i as int),
                lookup@,
            ),
        decreases args.len() - i,
    {
        assert(args@.take(i + 1).drop_last() =~= args@.take(i as int));
        let a = &args[i];
        if str_eq(a.name.as_str(), "graph") {
            if let GValue::Enum(n) = &a.value {
                graph = match lookup.get(n.as_str()) {
                    Some(s) => Some(s.clone()),
                    None => Some(n.clone()),
                };
            }
        } else if str_eq(a.name.as_str(), "key") {
            if let GValue::Str(s) = &a.value {
                key = Some(s.clone());
            }
        } else if str_eq(a.name.as_str(), "extension") {
            if let GValue::Boolean(b) = &a.value {
                extension = *b;
            }
        }
        i = i + 1;
    }
    assert(args@.take(args.len() as int) =~= args@);
    (graph, key, extension)
}

/// What the `@join__type` directives of an object say: its owner, the
/// extending subgraphs in order, and the fields of the first non-empty
/// `key`.
pub open spec fn scan_join_types(dirs: Seq<Dir>, lookup: Seq<(Seq<char>, Seq<char>)>) -> (
    Option<Seq<char>>,
    Seq<Seq<char>>,
    Seq<Seq<char>>,
)
    decreases dirs.len(),
{
    if dirs.len() == 0 {
        (None, Seq::empty(), Seq::empty())
    } else {
        let (owner, exts, keys) = scan_join_types(dirs.drop_last(), lookup);
        let d = dirs.last();
        let (g, k, e) = join_type_args(d.arguments@, lookup);
        if d.name@ != "join__type"@ || g is None {
            (owner, exts, keys)
        } else {
            let keys2 = if k is Some && keys.len() == 0 {
                words(k->0)
            } else {
                keys
            };
            if e {
                (owner, exts.push(g->0), keys2)
            } else {
                (Some(g->0), exts, keys2)
            }
        }
    }
}

fn scan_join_types_exec(dirs: &Vec<Dir>, lookup: &StrMap<String>) -> (r: (
    Option<String>,
    Vec<EntityExtender>,
    Vec<String>,
))
    ensures
        opt_view(r.0) == scan_join_types(dirs@, lookup@).0,
        extenders_view(r.1@) == scan_join_types(dirs@, lookup@).1.map_values(
            |g: Seq<char>| (g, Seq::<Seq<char>>::empty()),
        ),
        str_views(r.2@) == scan_join_types(dirs@, lookup@).2,
{
    let mut owner: Option<String> = None;
    let mut extenders: Vec<EntityExtender> = Vec::new();
    let mut key_fields: Vec<String> = Vec::new();
    let mut i: usize = 0;
    while i < dirs.len()
        invariant
            i <= dirs.len(),
            opt_view(owner) == scan_join_types(dirs@.take(i as int), lookup@).0,
            extenders_view(extenders@) == scan_join_types(dirs@.take(i as int), lookup@).1.map_values(
                |g: Seq<char>| (g, Seq::<Seq<char>>::empty()),
            ),
            str_views(key_fields@) == scan_join_types(dirs@.take(i as int), lookup@).2,
        decreases dirs.len() - i,
    {
        assert(dirs@.take(i + 1).drop_last() =~= dirs@.take(i as int));
        let d = &dirs[i];
        if str_eq(d.name.as_str(), "join__type") {
            let (graph, key, extension) = join_type_args_exec(&d.arguments, lookup);
            if let Some(g) = graph {
                if let Some(k) = key {
                    if key_fields.len() == 0 {
                        key_fields = split_whitespace_str(k.as_str());
                    }
                }
                if extension {
                    let ghost before = extenders@;
                    extenders.push(EntityExtender { subgraph: g, fields: Vec::new() });
                    proof {
                        let e = extenders@.last();
                        assert(str_views(e.fields@) =~= Seq::<Seq<char>>::empty());
                        assert(extenders_view(extenders@) =~= extenders_view(before).push(
                            (g@, Seq::<Seq<char>>::empty()),
                        ));
                    }
                } else {
                    owner = Some(g);
                }
            }
        }
        i = i + 1;
    }
    assert(dirs@.take(dirs.len() as int) =~= dirs@);
    (owner, extenders, key_fields)
}

/// The subgraphs named by the `@join__field(graph:)` directives, in order.
pub open spec fn join_field_graphs(dirs: Seq<Dir>, lookup: Seq<(Seq<char>, Seq<char>)>) -> Seq<
    Seq<char>,
>
    decreases dirs.len(),
{
    if dirs.len() == 0 {
        Seq::empty()
    } else {
        let prev = join_field_graphs(dirs.drop_last(), lookup);
        let d = dirs.last();
        if d.name@ == "join__field"@ && graph_arg(d, lookup) is Some {
            prev.push(graph_arg(d, lookup)->0)
        } else {
            prev
        }
    }
}

fn join_field_graphs_exec(dirs: &Vec<Dir>, lookup: &StrMap<String>) -> (r: Vec<String>)
    ensures
        str_views(r@) == join_field_graphs(dirs@, lookup@),
{
    let mut out: Vec<String> = Vec::new();
    let mut i: usize = 0;
    while i < dirs.len()
        invariant
            i <= dirs.len(),
            str_views(out@) == join_field_graphs(dirs@.take(i as int), lookup@),
        decreases dirs.len() - i,
    {
        assert(dirs@.take(i + 1).drop_last() =~= dirs@.take(i as int));
        let d = &dirs[i];
        if str_eq(d.name.as_str(), "join__field") {
            if let Some(g) = graph_arg_exec(d, lookup) {
                let ghost before = out@;
                out.push(g);
                assert(str_views(out@) =~= str_views(before).push(g@));
            }
        }
        i = i + 1;
    }
    assert(dirs@.take(dirs.len() as int) =~= dirs@);
    out
}

/// The subgraph resolving a field: its first `@join__field` graph, else the
/// type's owner.
pub open spec fn field_owner(f: FieldDef, owner: Seq<char>, lookup: Seq<(Seq<char>, Seq<char>)>) -> Seq<
    char,
> {
    let gs = join_field_graphs(f.directives@, lookup);
    if gs.len() == 0 {
        owner
    } else {
        gs[0]
    }
}

/// Records `fname` on the first extender for `sub`, if there is one.
pub open spec fn attach_field(
    exts: Seq<(Seq<char>, Seq<Seq<char>>)>,
    sub: Seq<char>,
    fname: Seq<char>,
) -> Seq<(Seq<char>, Seq<Seq<char>>)> {
    match key_index(exts, sub) {
        Some(i) => exts.update(i, (sub, exts[i].1.push(fname))),
        None => exts,
    }
}

/// Walks the fields of an entity type: every field gets its owning
/// subgraph, and fields owned elsewhere are listed on that extender.
pub open spec fn field_owners_fold(
    owners: Seq<(Seq<char>, Seq<char>)>,
    exts: Seq<(Seq<char>, Seq<Seq<char>>)>,
    fields: Seq<FieldDef>,
    owner: Seq<char>,
    lookup: Seq<(Seq<char>, Seq<char>)>,
) -> (Seq<(Seq<char>, Seq<char>)>, Seq<(Seq<char>, Seq<Seq<char>>)>)
    decreases fields.len(),
{
    if fields.len() == 0 {
        (owners, exts)
    } else {
        let (o, e) = field_owners_fold(owners, exts, fields.drop_last(), owner, lookup);
        let f = fields.last();
        let r = field_owner(f, owner, lookup);
        (key_insert(o, f.name@, r), if r != owner {
            attach_field(e, r, f.name@)
        } else {
            e
        })
    }
}

fn clone_strings(v: &Vec<String>) -> (r: Vec<String>)
    ensures
        str_views(r@) == str_views(v@),
{
    let mut out: Vec<String> = Vec::new();
    let mut i: usize = 0;
    while i < v.len()
        invariant
            i <= v.len(),
            str_views(out@) == str_views(v@.take(i as int)),
        decreases v.len() - i,
    {
        let ghost before = out@;
        let c = v[i].clone();
        out.push(c);
        assert(v@.take(i + 1) =~= v@.take(i as int).push(v@[i as int]));
        assert(str_views(out@) =~= str_views(before).push(c@));
        assert(str_views(v@.take(i + 1)) =~= str_views(v@.take(i as int)).push(v@[i as int]@));
        i = i + 1;
    }
    assert(v@.take(v.len() as int) =~= v@);
    out
}

fn attach_field_exec(exts: &mut Vec<EntityExtender>, sub: &String, fname: &String)
    ensures
        extenders_view(final(exts)@) == attach_field(extenders_view(old(exts)@), sub@, fname@),
{
    let ghost ev = extenders_view(exts@);
    let mut i: usize = 0;
    while i < exts.len()
        invariant
            i <= exts.len(),
            exts@ == old(exts)@,
            ev == extenders_view(exts@),
            forall|j: int| 0 <= j < i ==> ev[j].0 != sub@,
        decreases exts.len() - i,
    {
        if str_eq(exts[i].subgraph.as_str(), sub.as_str()) {
            proof {
                lemma_key_index_unique(ev, sub@, i as int);
            }
            let mut fields = clone_strings(&exts[i].fields);
            let ghost f0 = fields@;
            let fc = fname.clone();
            fields.push(fc);
            assert(str_views(fields@) =~= str_views(f0).push(fname@));
            assert(ev[i as int].1 == str_views(exts@[i as int].fields@));
            let updated = EntityExtender { subgraph: sub.clone(), fields };
            let ghost before = exts@;
            exts.set(i, updated);
            assert(extenders_view(exts@) =~= ev.update(i as int, (sub@, ev[i as int].1.push(fname@))));
            return;
        }
        i = i + 1;
    }
    proof {
        lemma_key_absent(ev, sub@);
    }
}

fn field_owners_exec(
    fields: &Vec<FieldDef>,
    owner: &String,
    exts: &mut Vec<EntityExtender>,
    lookup: &StrMap<String>,
) -> (r: StrMap<String>)
    ensures
        (r@, extenders_view(final(exts)@)) == field_owners_fold(
            Seq::empty(),
            extenders_view(old(exts)@),
            fields@,
            owner@,
            lookup@,
        ),
{
    let ghost e0 = extenders_view(exts@);
    let mut owners: StrMap<String> = StrMap::new();
    let mut i: usize = 0;
    while i < fields.len()
        invariant
            i <= fields.len(),
            (owners@, extenders_view(exts@)) == field_owners_fold(
                Seq::empty(),
                e0,
                fields@.take(i as int),
                owner@,
                lookup@,
            ),
        decreases fields.len() - i,
    {
        assert(fields@.take(i + 1).drop_last() =~= fields@.take(i as int));
        let f = &fields[i];
        let graphs = join_field_graphs_exec(&f.directives, lookup);
        let resolved = if graphs.len() == 0 {
            owner.clone()
        } else {
            graphs[0].clone()
        };
        owners.insert(f.name.clone(), resolved.clone());
        if !str_eq(resolved.as_str(), owner.as_str()) {
            attach_field_exec(exts, &resolved, &f.name);
        }
        i = i + 1;
    }
    assert(fields@.take(fields.len() as int) =~= fields@);
    owners
}

pub open spec fn no_owner_message(ty_name: Seq<char>) -> Seq<char> {
    "type "@ + ty_name + " has no owning @join__type (only extension entries)"@
}

pub open spec fn undeclared_owner_message(ty_name: Seq<char>, owner: Seq<char>) -> Seq<char> {
    "type "@ + ty_name + " owner subgraph \""@ + owner + "\" not declared in join__Graph"@
}

pub open spec fn is_root_ty_name(n: Seq<char>) -> bool {
    n == "Query"@ || n == "Mutation"@ || n == "Subscription"@
}

/// The catalog entry for one object type: unchanged entries for root types
/// and types without `@join__type`, an error for types without an owner or
/// with an undeclared one, else the entity.
pub open spec fn entity_step(
    prev: Seq<(Seq<char>, EntityTypeView)>,
    o: ObjectDef,
    routes: Seq<(Seq<char>, RouteView)>,
    lookup: Seq<(Seq<char>, Seq<char>)>,
) -> Result<Seq<(Seq<char>, EntityTypeView)>, Seq<char>> {
    let (owner, exts, keys) = scan_join_types(o.directives@, lookup);
    if is_root_ty_name(o.name@) || (owner is None && exts.len() == 0) {
        Ok(prev)
    } else if owner is None {
        Err(no_owner_message(o.name@))
    } else if key_lookup(routes, owner->0) is None {
        Err(undeclared_owner_message(o.name@, owner->0))
    } else {
        let (fo, ex) = field_owners_fold(
            Seq::empty(),
            exts.map_values(|g: Seq<char>| (g, Seq::<Seq<char>>::empty())),
            o.fields@,
            owner->0,
            lookup,
        );
        Ok(
            key_insert(
                prev,
                o.name@,
                EntityTypeView {
                    name: o.name@,
                    key_fields: keys,
                    owner: owner->0,
                    extenders: ex,
                    field_owners: fo,
                },
            ),
        )
    }
}

pub open spec fn entity_defs(
    defs: Seq<TopDef>,
    routes: Seq<(Seq<char>, RouteView)>,
    lookup: Seq<(Seq<char>, Seq<char>)>,
) -> Result<Seq<(Seq<char>, EntityTypeView)>, Seq<char>>
    decreases defs.len(),
{
    if defs.len() == 0 {
        Ok(Seq::empty())
    } else {
        match entity_defs(defs.drop_last(), routes, lookup) {
            Err(e) => Err(e),
            Ok(prev) => match defs.last() {
                TopDef::ObjectType(o) => entity_step(prev, o, routes, lookup),
                _ => Ok(prev),
            },
        }
    }
}

fn entity_of(o: &ObjectDef, routes: &StrMap<SupergraphRoute>, lookup: &StrMap<String>) -> (r: Result<
    Option<EntityType>,
    SupergraphError,
>)
    ensures
        r matches Ok(None) ==> forall|prev: Seq<(Seq<char>, EntityTypeView)>|
            #[trigger] entity_step(prev, *o, routes@, lookup@) == Ok::<
                Seq<(Seq<char>, EntityTypeView)>,
                Seq<char>,
            >(prev),
        r matches Ok(Some(et)) ==> forall|prev: Seq<(Seq<char>, EntityTypeView)>|
            #[trigger] entity_step(prev, *o, routes@, lookup@) == Ok::<
                Seq<(Seq<char>, EntityTypeView)>,
                Seq<char>,
            >(key_insert(prev, o.name@, et@)),
        r matches Err(e) ==> e is Validation && forall|prev: Seq<(Seq<char>, EntityTypeView)>|
            #[trigger] entity_step(prev, *o, routes@, lookup@) == Err::<
                Seq<(Seq<char>, EntityTypeView)>,
                Seq<char>,
            >(e->Validation_0@),
{
    let name = &o.name;
    if str_eq(name.as_str(), "Query") || str_eq(name.as_str(), "Mutation") || str_eq(
        name.as_str(),
        "Subscription",
    ) {
        assert forall|prev: Seq<(Seq<char>, EntityTypeView)>| #[trigger]
            entity_step(prev, *o, routes@, lookup@) == Ok::<
                Seq<(Seq<char>, EntityTypeView)>,
                Seq<char>,
            >(prev) by {}
        return Ok(None);
    }
    let (owner, mut extenders, key_fields) = scan_join_types_exec(&o.directives, lookup);
    let ghost scan = scan_join_types(o.directives@, lookup@);
    assert(extenders_view(extenders@).len() == extenders@.len());
    assert(scan.1.len() == extenders@.len());
    assert(!is_root_ty_name(o.name@));
    if owner.is_none() && extenders.len() == 0 {
        assert forall|prev: Seq<(Seq<char>, EntityTypeView)>| #[trigger]
            entity_step(prev, *o, routes@, lookup@) == Ok::<
                Seq<(Seq<char>, EntityTypeView)>,
                Seq<char>,
            >(prev) by {}
        return Ok(None);
    }
    let owner = match owner {
        Some(ow) => ow,
        None => {
            let mut m = "type ".to_owned();
            m.append(name.as_str());
            m.append(" has no owning @join__type (only extension entries)");
            assert(m@ == no_owner_message(name@));
            assert forall|prev: Seq<(Seq<char>, EntityTypeView)>| #[trigger]
                entity_step(prev, *o, routes@, lookup@) == Err::<
                    Seq<(Seq<char>, EntityTypeView)>,
                    Seq<char>,
                >(m@) by {}
            return Err(SupergraphError::Validation(m));
        },
    };
    if !routes.contains_key(owner.as_str()) {
        let mut m = "type ".to_owned();
        m.append(name.as_str());
        m.append(" owner subgraph \"");
        m.append(owner.as_str());
        m.append("\" not declared in join__Graph");
        assert(m@ == undeclared_owner_message(name@, owner@));
        assert forall|prev: Seq<(Seq<char>, EntityTypeView)>| #[trigger]
            entity_step(prev, *o, routes@, lookup@) == Err::<
                Seq<(Seq<char>, EntityTypeView)>,
                Seq<char>,
            >(m@) by {}
        return Err(SupergraphError::Validation(m));
    }
    let field_owners = field_owners_exec(&o.fields, &owner, &mut extenders, lookup);
    Ok(
        Some(
            EntityType {
                name: name.clone(),
                key_fields,
                owner,
                extenders,
                field_owners,
            },
        ),
    )
}


/// Reads every entity-shaped object type of the document.
pub fn collect_entity_types(
    doc: &Doc,
    routes: &StrMap<SupergraphRoute>,
    lookup: &StrMap<String>,
) -> (r: Result<StrMap<EntityType>, SupergraphError>)
    ensures
        r matches Ok(m) ==> entity_defs(doc.definitions@, routes@, lookup@) == Ok::<
            Seq<(Seq<char>, EntityTypeView)>,
            Seq<char>,
        >(m@),
        r matches Err(e) ==> e is Validation && entity_defs(doc.definitions@, routes@, lookup@)
            == Err::<Seq<(Seq<char>, EntityTypeView)>, Seq<char>>(e->Validation_0@),
{
    let defs = &doc.definitions;
    let mut out: StrMap<EntityType> = StrMap::new();
    let mut i: usize = 0;
    while i < defs.len()
        invariant
            i <= defs.len(),
            defs@ == doc.definitions@,
            entity_defs(defs@.take(i as int), routes@, lookup@) == Ok::<
                Seq<(Seq<char>, EntityTypeView)>,
                Seq<char>,
            >(out@),
        decreases defs.len() - i,
    {
        assert(defs@.take(i + 1).drop_last() =~= defs@.take(i as int));
        assert(defs@.take(i + 1).last() == defs@[i as int]);
        if let TopDef::ObjectType(o) = &defs[i] {
            let ghost before = out@;
            assert(entity_defs(defs@.take(i + 1), routes@, lookup@) == entity_step(
                before,
                *o,
                routes@,
                lookup@,
            ));
            match entity_of(o, routes, lookup) {
                Ok(Some(et)) => {
                    out.insert(o.name.clone(), et);
                },
                Ok(None) => {},
                Err(e) => {
                    assert(entity_step(before, *o, routes@, lookup@) == Err::<
                        Seq<(Seq<char>, EntityTypeView)>,
                        Seq<char>,
                    >(e->Validation_0@));
                    assert(entity_defs(defs@.take(i + 1), routes@, lookup@) is Err);
                    proof {
                        lemma_entity_defs_err(defs@, i as int, routes@, lookup@);
                    }
                    assert(entity_defs(defs@, routes@, lookup@) == Err::<
                        Seq<(Seq<char>, EntityTypeView)>,
                        Seq<char>,
                    >(e->Validation_0@));
                    return Err(e);
                },
            }
        }
        i = i + 1;
    }
    assert(defs@.take(defs.len() as int) =~= defs@);
    Ok(out)
}

/// An error in a prefix of the definitions is the error of the whole.
pub proof fn lemma_entity_defs_err(
    defs: Seq<TopDef>,
    i: int,
    routes: Seq<(Seq<char>, RouteView)>,
    lookup: Seq<(Seq<char>, Seq<char>)>,
)
    requires
        0 <= i < defs.len(),
        entity_defs(defs.take(i + 1), routes, lookup) is Err,
    ensures
        entity_defs(defs, routes, lookup) == entity_defs(defs.take(i + 1), routes, lookup),
    decreases defs.len() - i,
{
    if i + 1 < defs.len() {
        assert(defs.take(i + 2).drop_last() =~= defs.take(i + 1));
        lemma_entity_defs_err(defs, i + 1, routes, lookup);
    } else {
        assert(defs.take(i + 1) =~= defs);
    }
}

// ---- root operation fields ---------------------------------------------------

/// Position of the first `@join__type` directive that has a `graph` argument.
pub open spec fn typed_dir_index(dirs: Seq<Dir>) -> Option<int>
    decreases dirs.len(),
{
    if dirs.len() == 0 {
        None
    } else {
        match typed_dir_index(dirs.drop_last()) {
            Some(i) => Some(i),
            None => if dirs.last().name@ == "join__type"@ && arg_index(
                dirs.last().arguments@,
                "graph"@,
            ) is Some {
                Some(dirs.len() - 1)
            } else {
                None
            },
        }
    }
}

pub proof fn lemma_typed_dir_index(dirs: Seq<Dir>)
    ensures
        typed_dir_index(dirs) matches Some(i) ==> 0 <= i < dirs.len() && dirs[i].name@
            == "join__type"@ && arg_index(dirs[i].arguments@, "graph"@) is Some && forall|j: int|
            0 <= j < i ==> !(dirs[j].name@ == "join__type"@ && arg_index(
                dirs[j].arguments@,
                "graph"@,
            ) is Some),
        typed_dir_index(dirs) is None ==> forall|j: int|
            0 <= j < dirs.len() ==> !(dirs[j].name@ == "join__type"@ && arg_index(
                dirs[j].arguments@,
                "graph"@,
            ) is Some),
    decreases dirs.len(),
{
    if dirs.len() > 0 {
        let d = dirs.drop_last();
        lemma_typed_dir_index(d);
        assert forall|j: int| 0 <= j < d.len() implies d[j] == dirs[j] by {}
    }
}

/// The owner of a root type's fields that carry no `@join__field`: the graph
/// of its first `@join__type` with a `graph` argument.
pub open spec fn root_fallback(dirs: Seq<Dir>, lookup: Seq<(Seq<char>, Seq<char>)>) -> Option<
    Seq<char>,
> {
    match typed_dir_index(dirs) {
        Some(i) => graph_arg(dirs[i], lookup),
        None => None,
    }
}

fn root_fallback_exec(dirs: &Vec<Dir>, lookup: &StrMap<String>) -> (r: Option<String>)
    ensures
        opt_view(r) == root_fallback(dirs@, lookup@),
{
    proof {
        lemma_typed_dir_index(dirs@);
    }
    let mut i: usize = 0;
    while i < dirs.len()
        invariant
            i <= dirs.len(),
            forall|j: int|
                0 <= j < i ==> !(dirs@[j].name@ == "join__type"@ && arg_index(
                    dirs@[j].arguments@,
                    "graph"@,
                ) is Some),
        decreases dirs.len() - i,
    {
        let d = &dirs[i];
        if str_eq(d.name.as_str(), "join__type") && find_arg(&d.arguments, "graph").is_some() {
            proof {
                lemma_typed_dir_index(dirs@);
                if let Some(k) = typed_dir_index(dirs@) {
                    assert(k == i);
                }
            }
            return graph_arg_exec(d, lookup);
        }
        i = i + 1;
    }
    None
}

pub open spec fn root_owner_message(ty_name: Seq<char>, field: Seq<char>) -> Seq<char> {
    ty_name + "."@ + field + " has no @join__field and no fallback owner"@
}

pub open spec fn is_federation_builtin(n: Seq<char>) -> bool {
    n == "_service"@ || n == "_entities"@
}

/// Records the owner of every field of one root type, skipping the
/// federation built-ins: the first `@join__field` graph, else the fallback.
pub open spec fn root_fields_fold(
    acc: Seq<(Seq<char>, Seq<char>)>,
    fields: Seq<FieldDef>,
    ty_name: Seq<char>,
    fallback: Option<Seq<char>>,
    lookup: Seq<(Seq<char>, Seq<char>)>,
) -> Result<Seq<(Seq<char>, Seq<char>)>, Seq<char>>
    decreases fields.len(),
{
    if fields.len() == 0 {
        Ok(acc)
    } else {
        match root_fields_fold(acc, fields.drop_last(), ty_name, fallback, lookup) {
            Err(e) => Err(e),
            Ok(prev) => {
                let f = fields.last();
                let gs = join_field_graphs(f.directives@, lookup);
                if is_federation_builtin(f.name@) {
                    Ok(prev)
                } else if gs.len() > 0 {
                    Ok(key_insert(prev, f.name@, gs[0]))
                } else {
                    match fallback {
                        Some(fb) => Ok(key_insert(prev, f.name@, fb)),
                        None => Err(root_owner_message(ty_name, f.name@)),
                    }
                }
            },
        }
    }
}

proof fn lemma_root_fields_err(
    acc: Seq<(Seq<char>, Seq<char>)>,
    fields: Seq<FieldDef>,
    i: int,
    ty_name: Seq<char>,
    fallback: Option<Seq<char>>,
    lookup: Seq<(Seq<char>, Seq<char>)>,
)
    requires
        0 <= i < fields.len(),
        root_fields_fold(acc, fields.take(i + 1), ty_name, fallback, lookup) is Err,
    ensures
        root_fields_fold(acc, fields, ty_name, fallback, lookup) == root_fields_fold(
            acc,
            fields.take(i + 1),
            ty_name,
            fallback,
            lookup,
        ),
    decreases fields.len() - i,
{
    if i + 1 < fields.len() {
        assert(fields.take(i + 2).drop_last() =~= fields.take(i + 1));
        lemma_root_fields_err(acc, fields, i + 1, ty_name, fallback, lookup);
    } else {
        assert(fields.take(i + 1) =~= fields);
    }
}

fn root_fields_exec(
    target: &mut StrMap<String>,
    o: &ObjectDef,
    lookup: &StrMap<String>,
) -> (r: Result<(), SupergraphError>)
    ensures
        r is Ok ==> root_fields_fold(
            old(target)@,
            o.fields@,
            o.name@,
            root_fallback(o.directives@, lookup@),
            lookup@,
        ) == Ok::<Seq<(Seq<char>, Seq<char>)>, Seq<char>>(final(target)@),
        r matches Err(e) ==> e is Validation && root_fields_fold(
            old(target)@,
            o.fields@,
            o.name@,
            root_fallback(o.directives@, lookup@),
            lookup@,
        ) == Err::<Seq<(Seq<char>, Seq<char>)>, Seq<char>>(e->Validation_0@),
{
    let fallback = root_fallback_exec(&o.directives, lookup);
    let ghost fb = root_fallback(o.directives@, lookup@);
    let ghost start = target@;
    let fields = &o.fields;
    let mut i: usize = 0;
    while i < fields.len()
        invariant
            i <= fields.len(),
            fields@ == o.fields@,
            start == old(target)@,
            fb == root_fallback(o.directives@, lookup@),
            opt_view(fallback) == fb,
            root_fields_fold(start, fields@.take(i as int), o.name@, fb, lookup@) == Ok::<
                Seq<(Seq<char>, Seq<char>)>,
                Seq<char>,
            >(target@),
        decreases fields.len() - i,
    {
        assert(fields@.take(i + 1).drop_last() =~= fields@.take(i as int));
        let f = &fields[i];
        if !(str_eq(f.name.as_str(), "_service") || str_eq(f.name.as_str(), "_entities")) {
            let graphs = join_field_graphs_exec(&f.directives, lookup);
            if graphs.len() > 0 {
                target.insert(f.name.clone(), graphs[0].clone());
            } else {
                match &fallback {
                    Some(fbs) => {
                        target.insert(f.name.clone(), fbs.clone());
                    },
                    None => {
                        assert(str_views(graphs@).len() == graphs@.len());
                        assert(fields@.take(i + 1).last() == fields@[i as int]);
                        let mut m = o.name.clone();
                        m.append(".");
                        m.append(f.name.as_str());
                        m.append(" has no @join__field and no fallback owner");
                        proof {
                            lemma_root_fields_err(start, fields@, i as int, o.name@, fb, lookup@);
                        }
                        return Err(SupergraphError::Validation(m));
                    },
                }
            }
        }
        i = i + 1;
    }
    assert(fields@.take(fields.len() as int) =~= fields@);
    Ok(())
}

/// Owners of the `Query` fields and of the `Mutation` fields.
pub open spec fn root_defs(defs: Seq<TopDef>, lookup: Seq<(Seq<char>, Seq<char>)>) -> Result<
    (Seq<(Seq<char>, Seq<char>)>, Seq<(Seq<char>, Seq<char>)>),
    Seq<char>,
>
    decreases defs.len(),
{
    if defs.len() == 0 {
        Ok((Seq::empty(), Seq::empty()))
    } else {
        match root_defs(defs.drop_last(), lookup) {
            Err(e) => Err(e),
            Ok((q, m)) => match defs.last() {
                TopDef::ObjectType(o) => if o.name@ == "Query"@ {
                    match root_fields_fold(
                        q,
                        o.fields@,
                        o.name@,
                        root_fallback(o.directives@, lookup),
                        lookup,
                    ) {
                        Ok(q2) => Ok((q2, m)),
                        Err(e) => Err(e),
                    }
                } else if o.name@ == "Mutation"@ {
                    match root_fields_fold(
                        m,
                        o.fields@,
                        o.name@,
                        root_fallback(o.directives@, lookup),
                        lookup,
                    ) {
                        Ok(m2) => Ok((q, m2)),
                        Err(e) => Err(e),
                    }
                } else {
                    Ok((q, m))
                },
                _ => Ok((q, m)),
            },
        }
    }
}

proof fn lemma_root_defs_err(defs: Seq<TopDef>, i: int, lookup: Seq<(Seq<char>, Seq<char>)>)
    requires
        0 <= i < defs.len(),
        root_defs(defs.take(i + 1), lookup) is Err,
    ensures
        root_defs(defs, lookup) == root_defs(defs.take(i + 1), lookup),
    decreases defs.len() - i,
{
    if i + 1 < defs.len() {
        assert(defs.take(i + 2).drop_last() =~= defs.take(i + 1));
        lemma_root_defs_err(defs, i + 1, lookup);
    } else {
        assert(defs.take(i + 1) =~= defs);
    }
}

/// Reads the owners of the root `Query` and `Mutation` fields.
pub fn collect_root_fields(doc: &Doc, lookup: &StrMap<String>) -> (r: Result<
    (StrMap<String>, StrMap<String>),
    SupergraphError,
>)
    ensures
        r matches Ok((q, m)) ==> root_defs(doc.definitions@, lookup@) == Ok::<
            (Seq<(Seq<char>, Seq<char>)>, Seq<(Seq<char>, Seq<char>)>),
            Seq<char>,
        >((q@, m@)),
        r matches Err(e) ==> e is Validation && root_defs(doc.definitions@, lookup@) == Err::<
            (Seq<(Seq<char>, Seq<char>)>, Seq<(Seq<char>, Seq<char>)>),
            Seq<char>,
        >(e->Validation_0@),
{
    let defs = &doc.definitions;
    let mut query: StrMap<String> = StrMap::new();
    let mut mutation: StrMap<String> = StrMap::new();
    let mut i: usize = 0;
    while i < defs.len()
        invariant
            i <= defs.len(),
            defs@ == doc.definitions@,
            root_defs(defs@.take(i as int), lookup@) == Ok::<
                (Seq<(Seq<char>, Seq<char>)>, Seq<(Seq<char>, Seq<char>)>),
                Seq<char>,
            >((query@, mutation@)),
        decreases defs.len() - i,
    {
        assert(defs@.take(i + 1).drop_last() =~= defs@.take(i as int));
        if let TopDef::ObjectType(o) = &defs[i] {
            assert(defs@.take(i + 1).last() == defs@[i as int]);
            if str_eq(o.name.as_str(), "Query") {
                let res = root_fields_exec(&mut query, o, lookup);
                if let Err(e) = res {
                    proof {
                        lemma_root_defs_err(defs@, i as int, lookup@);
                    }
                    return Err(e);
                }
            } else if str_eq(o.name.as_str(), "Mutation") {
                let res = root_fields_exec(&mut mutation, o, lookup);
                if let Err(e) = res {
                    proof {
                        lemma_root_defs_err(defs@, i as int, lookup@);
                    }
                    return Err(e);
                }
            }
        }
        i = i + 1;
    }
    assert(defs@.take(defs.len() as int) =~= defs@);
    Ok((query, mutation))
}


// ---- the catalog ----------------------------------------------------------------

/// Everything the planner needs to know about the supergraph.
#[derive(Debug)]
pub struct SupergraphCatalog {
    /// Subgraph name -> route.
    pub subgraphs: StrMap<SupergraphRoute>,
    /// `Query` field name -> owning subgraph.
    pub root_query_fields: StrMap<String>,
    /// `Mutation` field name -> owning subgraph.
    pub root_mutation_fields: StrMap<String>,
    /// Entity-shaped object types by type name.
    pub entity_types: StrMap<EntityType>,
    /// `Type.field` -> cost that replaces the default field cost.
    pub field_cost_overrides: StrMap<i32>,
}

pub struct CatalogView {
    pub subgraphs: Seq<(Seq<char>, RouteView)>,
    pub root_query_fields: Seq<(Seq<char>, Seq<char>)>,
    pub root_mutation_fields: Seq<(Seq<char>, Seq<char>)>,
    pub entity_types: Seq<(Seq<char>, EntityTypeView)>,
    pub field_cost_overrides: Seq<(Seq<char>, i32)>,
}

impl View for SupergraphCatalog {
    type V = CatalogView;

    open spec fn view(&self) -> CatalogView {
        CatalogView {
            subgraphs: self.subgraphs@,
            root_query_fields: self.root_query_fields@,
            root_mutation_fields: self.root_mutation_fields@,
            entity_types: self.entity_types@,
            field_cost_overrides: self.field_cost_overrides@,
        }
    }
}

/// The catalog a parsed supergraph document describes, or why it describes
/// none: no subgraph routes, then an entity type error, then a root field
/// error.
pub open spec fn catalog_of(defs: Seq<TopDef>) -> Result<CatalogView, Seq<char>> {
    let routes = route_defs(Seq::empty(), defs);
    let lookup = lookup_defs(Seq::empty(), defs);
    if routes.len() == 0 {
        Err(no_join_graph_message())
    } else {
        match entity_defs(defs, routes, lookup) {
            Err(e) => Err(e),
            Ok(ents) => match root_defs(defs, lookup) {
                Err(e) => Err(e),
                Ok((q, m)) => Ok(
                    CatalogView {
                        subgraphs: routes,
                        root_query_fields: q,
                        root_mutation_fields: m,
                        entity_types: ents,
                        field_cost_overrides: Seq::empty(),
                    },
                ),
            },
        }
    }
}

/// Parses a supergraph SDL into a [`SupergraphCatalog`].
pub fn parse(sdl: &str) -> (r: Result<SupergraphCatalog, SupergraphError>)
    ensures
        graphql_parse(sdl@, "supergraph.graphql"@) is Err <==> r matches Err(
            SupergraphError::Parse(_),
        ),
        r matches Err(SupergraphError::Parse(m)) ==> graphql_parse(sdl@, "supergraph.graphql"@)
            == Err::<Seq<TopDef>, Seq<char>>(m@),
        graphql_parse(sdl@, "supergraph.graphql"@) matches Ok(defs) ==> match catalog_of(defs) {
            Ok(c) => r matches Ok(cat) && cat@ == c,
            Err(msg) => r matches Err(SupergraphError::Validation(m)) && m@ == msg,
        },
{
    let doc = match parse_document(sdl, "supergraph.graphql") {
        Ok(d) => d,
        Err(e) => {
            return Err(SupergraphError::Parse(e));
        },
    };
    let subgraphs = match collect_subgraphs(&doc) {
        Ok(s) => s,
        Err(e) => {
            return Err(e);
        },
    };
    let lookup = build_enum_lookup(&doc);
    let entity_types = match collect_entity_types(&doc, &subgraphs, &lookup) {
        Ok(e) => e,
        Err(e) => {
            return Err(e);
        },
    };
    let (root_query_fields, root_mutation_fields) = match collect_root_fields(&doc, &lookup) {
        Ok(p) => p,
        Err(e) => {
            return Err(e);
        },
    };
    Ok(
        SupergraphCatalog {
            subgraphs,
            root_query_fields,
            root_mutation_fields,
            entity_types,
            field_cost_overrides: StrMap::new(),
        },
    )
}

impl SupergraphError {
    /// The error's text, as its `Display` renders it.
    pub fn message(&self) -> (r: String)
        ensures
            r@ == match self {
                SupergraphError::Read { path, source } => "could not read supergraph file at "@
                    + path@ + ": "@ + source@,
                SupergraphError::Parse(m) => "supergraph SDL parse error: "@ + m@,
                SupergraphError::Validation(m) => "supergraph validation error: "@ + m@,
            },
    {
        match self {
            SupergraphError::Read { path, source } => {
                let mut r = "could not read supergraph file at ".to_owned();
                r.append(path.as_str());
                r.append(": ");
                r.append(source.as_str());
                r
            },
            SupergraphError::Parse(m) => {
                let mut r = "supergraph SDL parse error: ".to_owned();
                r.append(m.as_str());
                r
            },
            SupergraphError::Validation(m) => {
                let mut r = "supergraph validation error: ".to_owned();
                r.append(m.as_str());
                r
            },
        }
    }
}


/// The name of field `j` of top-level definition `d`, when `d` defines the
/// object type `ty`.
pub open spec fn object_field(d: TopDef, ty: Seq<char>, j: int) -> Option<Seq<char>> {
    match d {
        TopDef::ObjectType(o) => if o.name@ == ty && 0 <= j < o.fields@.len() {
            Some(o.fields@[j].name@)
        } else {
            None
        },
        _ => None,
    }
}

/// The subgraph a root field definition names: its first `@join__field`
/// graph, else its type's fallback owner.
pub open spec fn root_field_owner(f: FieldDef, fallback: Option<Seq<char>>, lookup: Seq<(Seq<char>, Seq<char>)>) -> Option<
    Seq<char>,
> {
    let gs = join_field_graphs(f.directives@, lookup);
    if gs.len() > 0 {
        Some(gs[0])
    } else {
        fallback
    }
}

/// The name and owning subgraph of field `j` of definition `d`, when `d`
/// defines the object type `ty` and the field names an owner.
pub open spec fn declared_owner(d: TopDef, ty: Seq<char>, j: int, lookup: Seq<(Seq<char>, Seq<char>)>) -> Option<
    (Seq<char>, Seq<char>),
> {
    match d {
        TopDef::ObjectType(o) => if o.name@ == ty && 0 <= j < o.fields@.len() {
            match root_field_owner(o.fields@[j], root_fallback(o.directives@, lookup), lookup) {
                Some(v) => Some((o.fields@[j].name@, v)),
                None => None,
            }
        } else {
            None
        },
        _ => None,
    }
}

/// Some definition of the object type `ty` has a field named `n`.
pub open spec fn declares_field(defs: Seq<TopDef>, ty: Seq<char>, n: Seq<char>) -> bool {
    exists|k: int, j: int| 0 <= k < defs.len() && #[trigger] object_field(defs[k], ty, j) == Some(n)
}

proof fn lemma_root_fields_keys(
    acc: Seq<(Seq<char>, Seq<char>)>,
    fields: Seq<FieldDef>,
    ty_name: Seq<char>,
    fallback: Option<Seq<char>>,
    lookup: Seq<(Seq<char>, Seq<char>)>,
)
    requires
        root_fields_fold(acc, fields, ty_name, fallback, lookup) is Ok,
    ensures
        forall|n: Seq<char>|
            #[trigger] key_lookup(acc, n) is Some ==> key_lookup(
                root_fields_fold(acc, fields, ty_name, fallback, lookup)->Ok_0,
                n,
            ) is Some,
        forall|j: int|
            0 <= j < fields.len() && !is_federation_builtin(#[trigger] fields[j].name@) ==> key_lookup(
                root_fields_fold(acc, fields, ty_name, fallback, lookup)->Ok_0,
                fields[j].name@,
            ) is Some,
        forall|n: Seq<char>|
            #[trigger] key_lookup(root_fields_fold(acc, fields, ty_name, fallback, lookup)->Ok_0, n) is Some
                ==> key_lookup(acc, n) == key_lookup(root_fields_fold(acc, fields, ty_name, fallback, lookup)->Ok_0, n)
                || exists|j: int|
                0 <= j < fields.len() && #[trigger] fields[j].name@ == n && root_field_owner(fields[j], fallback, lookup)
                    == key_lookup(root_fields_fold(acc, fields, ty_name, fallback, lookup)->Ok_0, n),
    decreases fields.len(),
{
    if fields.len() > 0 {
        let fs = fields.drop_last();
        lemma_root_fields_keys(acc, fs, ty_name, fallback, lookup);
        let prev = root_fields_fold(acc, fs, ty_name, fallback, lookup)->Ok_0;
        let r = root_fields_fold(acc, fields, ty_name, fallback, lookup)->Ok_0;
        let f = fields.last();
        let gs = join_field_graphs(f.directives@, lookup);
        assert forall|n: Seq<char>| #[trigger] key_lookup(prev, n) is Some implies key_lookup(r, n) is Some by {
            if !is_federation_builtin(f.name@) {
                let v = if gs.len() > 0 {
                    gs[0]
                } else {
                    fallback->0
                };
                crate::strmap::lemma_lookup_after_insert(prev, f.name@, v, n);
            }
        }
        assert forall|j: int| 0 <= j < fields.len() && !is_federation_builtin(#[trigger] fields[j].name@) implies key_lookup(
            r,
            fields[j].name@,
        ) is Some by {
            let v = if gs.len() > 0 {
                gs[0]
            } else {
                fallback->0
            };
            crate::strmap::lemma_lookup_after_insert(prev, f.name@, v, fields[j].name@);
            if j < fs.len() {
                assert(fs[j] == fields[j]);
                assert(key_lookup(prev, fs[j].name@) is Some);
            }
        }
        assert forall|n: Seq<char>| #[trigger] key_lookup(r, n) is Some implies key_lookup(acc, n) == key_lookup(r, n)
            || exists|j: int|
            0 <= j < fields.len() && #[trigger] fields[j].name@ == n && root_field_owner(fields[j], fallback, lookup)
                == key_lookup(r, n) by {
            if !is_federation_builtin(f.name@) {
                let v = if gs.len() > 0 {
                    gs[0]
                } else {
                    fallback->0
                };
                crate::strmap::lemma_lookup_after_insert(prev, f.name@, v, n);
            }
            if n == f.name@ && !is_federation_builtin(f.name@) {
                assert(fields[fields.len() - 1] == f);
            } else {
                assert(key_lookup(r, n) == key_lookup(prev, n));
                if key_lookup(acc, n) != key_lookup(prev, n) {
                    let j = choose|j: int|
                        0 <= j < fs.len() && #[trigger] fs[j].name@ == n && root_field_owner(fs[j], fallback, lookup)
                            == key_lookup(prev, n);
                    assert(fields[j] == fs[j]);
                }
            }
        }
    }
}

/// Reading the root types sorts their fields by the type that declares
/// them: every field of a `Query` (`Mutation`) definition, federation
/// built-ins aside, is a root Query (mutation) field, and every root Query
/// (mutation) field is declared by a `Query` (`Mutation`) definition. So a
/// field only `Mutation` declares is never routed as a Query field.
pub proof fn lemma_root_fields_by_type(defs: Seq<TopDef>, lookup: Seq<(Seq<char>, Seq<char>)>)
    requires
        root_defs(defs, lookup) is Ok,
    ensures
        ({
            let (q, m) = root_defs(defs, lookup)->Ok_0;
            &&& forall|k: int, j: int|
                0 <= k < defs.len() && #[trigger] object_field(defs[k], "Query"@, j) is Some
                    && !is_federation_builtin(object_field(defs[k], "Query"@, j)->0) ==> key_lookup(
                    q,
                    object_field(defs[k], "Query"@, j)->0,
                ) is Some
            &&& forall|k: int, j: int|
                0 <= k < defs.len() && #[trigger] object_field(defs[k], "Mutation"@, j) is Some
                    && !is_federation_builtin(object_field(defs[k], "Mutation"@, j)->0) ==> key_lookup(
                    m,
                    object_field(defs[k], "Mutation"@, j)->0,
                ) is Some
            &&& forall|n: Seq<char>| #[trigger] key_lookup(q, n) is Some ==> declares_field(defs, "Query"@, n)
            &&& forall|n: Seq<char>| #[trigger] key_lookup(m, n) is Some ==> declares_field(defs, "Mutation"@, n)
            &&& forall|n: Seq<char>|
                #[trigger] key_lookup(q, n) is Some ==> exists|k: int, j: int|
                    0 <= k < defs.len() && #[trigger] declared_owner(defs[k], "Query"@, j, lookup) == Some(
                        (n, key_lookup(q, n)->0),
                    )
            &&& forall|n: Seq<char>|
                #[trigger] key_lookup(m, n) is Some ==> exists|k: int, j: int|
                    0 <= k < defs.len() && #[trigger] declared_owner(defs[k], "Mutation"@, j, lookup) == Some(
                        (n, key_lookup(m, n)->0),
                    )
        }),
    decreases defs.len(),
{
    reveal_strlit("Query");
    reveal_strlit("Mutation");
    assert("Query"@.len() != "Mutation"@.len());
    let (q, m) = root_defs(defs, lookup)->Ok_0;
    if defs.len() == 0 {
        assert forall|n: Seq<char>| #[trigger] key_lookup(q, n) is Some implies declares_field(defs, "Query"@, n) by {
            crate::strmap::lemma_key_index(q, n);
        }
        assert forall|n: Seq<char>| #[trigger] key_lookup(m, n) is Some implies declares_field(defs, "Mutation"@, n) by {
            crate::strmap::lemma_key_index(m, n);
        }
        assert forall|n: Seq<char>| #[trigger] key_lookup(q, n) is Some implies exists|k: int, j: int|
            0 <= k < defs.len() && #[trigger] declared_owner(defs[k], "Query"@, j, lookup) == Some(
                (n, key_lookup(q, n)->0),
            ) by {
            crate::strmap::lemma_key_index(q, n);
        }
        assert forall|n: Seq<char>| #[trigger] key_lookup(m, n) is Some implies exists|k: int, j: int|
            0 <= k < defs.len() && #[trigger] declared_owner(defs[k], "Mutation"@, j, lookup) == Some(
                (n, key_lookup(m, n)->0),
            ) by {
            crate::strmap::lemma_key_index(m, n);
        }
    } else {
        let ds = defs.drop_last();
        lemma_root_defs_prefix_ok(defs, lookup);
        lemma_root_fields_by_type(ds, lookup);
        let (q0, m0) = root_defs(ds, lookup)->Ok_0;
        let last = defs.len() - 1;
        assert(defs[last] == defs.last());
        assert forall|k: int, j: int| 0 <= k < ds.len() implies #[trigger] object_field(ds[k], "Query"@, j)
            == object_field(defs[k], "Query"@, j) && object_field(ds[k], "Mutation"@, j) == object_field(
            defs[k],
            "Mutation"@,
            j,
        ) by {
            assert(ds[k] == defs[k]);
        }
        // The last definition adds to one table; the other stays.
        let (is_q, is_m, fields) = match defs.last() {
            TopDef::ObjectType(o) => (o.name@ == "Query"@, o.name@ == "Mutation"@, o.fields@),
            _ => (false, false, Seq::empty()),
        };
        if is_q || is_m {
            let o = defs.last()->ObjectType_0;
            let fb = root_fallback(o.directives@, lookup);
            if is_q {
                lemma_root_fields_keys(q0, o.fields@, o.name@, fb, lookup);
                assert(q == root_fields_fold(q0, o.fields@, o.name@, fb, lookup)->Ok_0 && m == m0);
            } else {
                lemma_root_fields_keys(m0, o.fields@, o.name@, fb, lookup);
                assert(m == root_fields_fold(m0, o.fields@, o.name@, fb, lookup)->Ok_0 && q == q0);
            }
        } else {
            assert(q == q0 && m == m0);
        }
        assert forall|n: Seq<char>| #[trigger] key_lookup(q, n) is Some implies declares_field(defs, "Query"@, n) by {
            if key_lookup(q0, n) is Some {
                assert(declares_field(ds, "Query"@, n));
                let (k, j) = choose|k: int, j: int| 0 <= k < ds.len() && #[trigger] object_field(ds[k], "Query"@, j)
                    == Some(n);
                assert(object_field(defs[k], "Query"@, j) == Some(n));
            } else {
                assert(is_q);
                let j = choose|j: int| 0 <= j < fields.len() && #[trigger] fields[j].name@ == n;
                assert(object_field(defs[last], "Query"@, j) == Some(n));
            }
        }
        assert forall|n: Seq<char>| #[trigger] key_lookup(m, n) is Some implies declares_field(defs, "Mutation"@, n) by {
            if key_lookup(m0, n) is Some {
                assert(declares_field(ds, "Mutation"@, n));
                let (k, j) = choose|k: int, j: int| 0 <= k < ds.len() && #[trigger] object_field(ds[k], "Mutation"@, j)
                    == Some(n);
                assert(object_field(defs[k], "Mutation"@, j) == Some(n));
            } else {
                assert(is_m);
                let j = choose|j: int| 0 <= j < fields.len() && #[trigger] fields[j].name@ == n;
                assert(object_field(defs[last], "Mutation"@, j) == Some(n));
            }
        }
        assert forall|n: Seq<char>| #[trigger] key_lookup(q, n) is Some implies exists|k: int, j: int|
            0 <= k < defs.len() && #[trigger] declared_owner(defs[k], "Query"@, j, lookup) == Some(
                (n, key_lookup(q, n)->0),
            ) by {
            let v = key_lookup(q, n)->0;
            let from_prev = key_lookup(q0, n) == key_lookup(q, n);
            if is_q {
                let o = defs.last()->ObjectType_0;
                let fb = root_fallback(o.directives@, lookup);
                assert(q == root_fields_fold(q0, o.fields@, o.name@, fb, lookup)->Ok_0);
                lemma_root_fields_keys(q0, o.fields@, o.name@, fb, lookup);
                if !from_prev {
                    let j = choose|j: int|
                        0 <= j < o.fields@.len() && #[trigger] o.fields@[j].name@ == n && root_field_owner(
                            o.fields@[j],
                            fb,
                            lookup,
                        ) == key_lookup(q, n);
                    assert(declared_owner(defs[last], "Query"@, j, lookup) == Some((n, v)));
                }
            }
            if from_prev {
                assert(key_lookup(q0, n) is Some);
                let (k, j) = choose|k: int, j: int|
                    0 <= k < ds.len() && #[trigger] declared_owner(ds[k], "Query"@, j, lookup) == Some((n, v));
                assert(ds[k] == defs[k]);
            }
        }
        assert forall|n: Seq<char>| #[trigger] key_lookup(m, n) is Some implies exists|k: int, j: int|
            0 <= k < defs.len() && #[trigger] declared_owner(defs[k], "Mutation"@, j, lookup) == Some(
                (n, key_lookup(m, n)->0),
            ) by {
            let v = key_lookup(m, n)->0;
            let from_prev = key_lookup(m0, n) == key_lookup(m, n);
            if is_m {
                let o = defs.last()->ObjectType_0;
                let fb = root_fallback(o.directives@, lookup);
                assert(m == root_fields_fold(m0, o.fields@, o.name@, fb, lookup)->Ok_0);
                lemma_root_fields_keys(m0, o.fields@, o.name@, fb, lookup);
                if !from_prev {
                    let j = choose|j: int|
                        0 <= j < o.fields@.len() && #[trigger] o.fields@[j].name@ == n && root_field_owner(
                            o.fields@[j],
                            fb,
                            lookup,
                        ) == key_lookup(m, n);
                    assert(declared_owner(defs[last], "Mutation"@, j, lookup) == Some((n, v)));
                }
            }
            if from_prev {
                assert(key_lookup(m0, n) is Some);
                let (k, j) = choose|k: int, j: int|
                    0 <= k < ds.len() && #[trigger] declared_owner(ds[k], "Mutation"@, j, lookup) == Some((n, v));
                assert(ds[k] == defs[k]);
            }
        }
        assert forall|k: int, j: int|
            0 <= k < defs.len() && #[trigger] object_field(defs[k], "Query"@, j) is Some && !is_federation_builtin(
                object_field(defs[k], "Query"@, j)->0,
            ) implies key_lookup(q, object_field(defs[k], "Query"@, j)->0) is Some by {
            let n = object_field(defs[k], "Query"@, j)->0;
            if k < ds.len() {
                assert(object_field(ds[k], "Query"@, j) == object_field(defs[k], "Query"@, j));
                assert(key_lookup(q0, n) is Some);
            } else {
                let o = defs.last()->ObjectType_0;
                assert(is_q);
                assert(o.fields@[j].name@ == n);
                assert(!is_federation_builtin(o.fields@[j].name@));
                let fb = root_fallback(o.directives@, lookup);
                assert(q == root_fields_fold(q0, o.fields@, o.name@, fb, lookup)->Ok_0);
                lemma_root_fields_keys(q0, o.fields@, o.name@, fb, lookup);
            }
        }
        assert forall|k: int, j: int|
            0 <= k < defs.len() && #[trigger] object_field(defs[k], "Mutation"@, j) is Some && !is_federation_builtin(
                object_field(defs[k], "Mutation"@, j)->0,
            ) implies key_lookup(m, object_field(defs[k], "Mutation"@, j)->0) is Some by {
            let n = object_field(defs[k], "Mutation"@, j)->0;
            if k < ds.len() {
                assert(object_field(ds[k], "Mutation"@, j) == object_field(defs[k], "Mutation"@, j));
                assert(key_lookup(m0, n) is Some);
                if is_m {
                    assert(key_lookup(m, n) is Some);
                } else {
                    assert(m == m0);
                }
            } else {
                let o = defs.last()->ObjectType_0;
                assert(is_m);
                assert(o.fields@[j].name@ == n);
                assert(!is_federation_builtin(o.fields@[j].name@));
                let fb = root_fallback(o.directives@, lookup);
                assert(m == root_fields_fold(m0, o.fields@, o.name@, fb, lookup)->Ok_0);
                lemma_root_fields_keys(m0, o.fields@, o.name@, fb, lookup);
                assert(key_lookup(m, n) is Some);
            }
        }
    }
}

proof fn lemma_root_defs_prefix_ok(defs: Seq<TopDef>, lookup: Seq<(Seq<char>, Seq<char>)>)
    requires
        defs.len() > 0,
        root_defs(defs, lookup) is Ok,
    ensures
        root_defs(defs.drop_last(), lookup) is Ok,
{
}

} // verus!
