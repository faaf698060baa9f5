//! Hand-declared routing: each top-level Query or Mutation field has one
//! owning subgraph, as the configuration lists them.

use vstd::prelude::*;
use crate::config::{Config, SubgraphConfig};
use crate::graphql::ast::OpType;
use crate::strmap::{
    key_index, key_insert, key_lookup, keys_unique, lemma_key_absent, lemma_key_index, lemma_key_index_same_keys,
    lemma_lookup_concat, lemma_unique_concat, StrMap,
};

verus! {

/// Where a subgraph lives and how long a call to it may take.
#[derive(Debug)]
pub struct SubgraphRoute {
    pub url: String,
    pub timeout_ms: u64,
}

pub struct SubgraphRouteView {
    pub url: Seq<char>,
    pub timeout_ms: u64,
}

impl View for SubgraphRoute {
    type V = SubgraphRouteView;

    open spec fn view(&self) -> SubgraphRouteView {
        SubgraphRouteView { url: self.url@, timeout_ms: self.timeout_ms }
    }
}

/// Field owners and routes, built from the configuration at startup.
#[derive(Debug)]
pub struct SubgraphRegistry {
    /// Query field name -> subgraph name.
    pub queries: StrMap<String>,
    /// Mutation field name -> subgraph name.
    pub mutations: StrMap<String>,
    /// Subgraph name -> route.
    pub by_name: StrMap<SubgraphRoute>,
}

#[derive(Debug)]
pub enum RegistryError {
    /// Two subgraphs (or one, twice) claim the same field.
    DuplicateField { field: String, first: String, second: String },
}

impl RegistryError {
    pub open spec fn spec_message(field: Seq<char>, first: Seq<char>, second: Seq<char>) -> Seq<char> {
        "field \""@ + field + "\" is owned by both subgraph \""@ + first + "\" and subgraph \""@ + second
            + "\""@
    }

    /// The error's text.
    pub fn message(&self) -> (r: String)
        ensures
            match self {
                RegistryError::DuplicateField { field, first, second } => r@ == Self::spec_message(
                    field@,
                    first@,
                    second@,
                ),
            },
    {
        match self {
            RegistryError::DuplicateField { field, first, second } => {
                let mut m = "field \"".to_owned();
                m.append(field.as_str());
                m.append("\" is owned by both subgraph \"");
                m.append(first.as_str());
                m.append("\" and subgraph \"");
                m.append(second.as_str());
                m.append("\"");
                m
            },
        }
    }
}

/// Records `name` as the owner of each of `fields` in turn; fails with the
/// first field that already has an owner, and that owner.
pub open spec fn add_owned(owners: Seq<(Seq<char>, Seq<char>)>, fields: Seq<String>, name: Seq<char>) -> Result<
    Seq<(Seq<char>, Seq<char>)>,
    (Seq<char>, Seq<char>),
>
    decreases fields.len(),
{
    if fields.len() == 0 {
        Ok(owners)
    } else {
        match add_owned(owners, fields.drop_last(), name) {
            Err(e) => Err(e),
            Ok(m) => {
                let f = fields.last()@;
                match key_lookup(m, f) {
                    Some(prev) => Err((f, prev)),
                    None => Ok(key_insert(m, f, name)),
                }
            },
        }
    }
}

/// Query owners, mutation owners and routes.
pub type RegistryParts = (Seq<(Seq<char>, Seq<char>)>, Seq<(Seq<char>, Seq<char>)>, Seq<(Seq<char>, SubgraphRouteView)>);

/// The registry built from the first subgraphs of the configuration, or the
/// duplicate `(field, first owner, second owner)` met first.
pub open spec fn build_registry(subs: Seq<(Seq<char>, SubgraphConfig)>, default_timeout_ms: u64) -> Result<
    RegistryParts,
    (Seq<char>, Seq<char>, Seq<char>),
>
    decreases subs.len(),
{
    if subs.len() == 0 {
        Ok((Seq::empty(), Seq::empty(), Seq::empty()))
    } else {
        match build_registry(subs.drop_last(), default_timeout_ms) {
            Err(e) => Err(e),
            Ok(p) => {
                let (name, sub) = subs.last();
                match add_owned(p.0, sub.fields@, name) {
                    Err((f, first)) => Err((f, first, name)),
                    Ok(q) => match add_owned(p.1, sub.mutations@, name) {
                        Err((f, first)) => Err((f, first, name)),
                        Ok(m) => {
                            let timeout = match sub.timeout_ms {
                                Some(t) => t,
                                None => default_timeout_ms,
                            };
                            Ok(
                                (
                                    q,
                                    m,
                                    key_insert(
                                        p.2,
                                        name,
                                        SubgraphRouteView { url: sub.url@, timeout_ms: timeout },
                                    ),
                                ),
                            )
                        },
                    },
                }
            },
        }
    }
}

fn add_owned_exec(owners: &mut StrMap<String>, fields: &Vec<String>, name: &String) -> (r: Result<
    (),
    (String, String),
>)
    ensures
        match add_owned(old(owners)@, fields@, name@) {
            Ok(m) => r is Ok && final(owners)@ == m,
            Err((f, first)) => r matches Err(e) && e.0@ == f && e.1@ == first,
        },
{
    let ghost start = owners@;
    let mut i: usize = 0;
    while i < fields.len()
        invariant
            i <= fields.len(),
            start == old(owners)@,
            add_owned(start, fields@.take(i as int), name@) == Ok::<
                Seq<(Seq<char>, Seq<char>)>,
                (Seq<char>, Seq<char>),
            >(owners@),
        decreases fields.len() - i,
    {
        assert(fields@.take(i + 1).drop_last() =~= fields@.take(i as int));
        match owners.get(fields[i].as_str()) {
            Some(prev) => {
                let e = (fields[i].clone(), prev.clone());
                proof {
                    assert(fields@.take(i + 1).last() == fields@[i as int]);
                    assert(add_owned(start, fields@.take(i + 1), name@) == Err::<
                        Seq<(Seq<char>, Seq<char>)>,
                        (Seq<char>, Seq<char>),
                    >((fields@[i as int]@, prev@)));
                    lemma_add_owned_err_extends(start, fields@, name@, i + 1);
                }
                return Err(e);
            },
            None => {
                assert(fields@.take(i + 1).last() == fields@[i as int]);
                owners.insert(fields[i].clone(), name.clone());
            },
        }
        i = i + 1;
    }
    assert(fields@.take(fields.len() as int) =~= fields@);
    Ok(())
}

/// A failure on a prefix of the fields is the failure on all of them.
proof fn lemma_add_owned_err_extends(
    owners: Seq<(Seq<char>, Seq<char>)>,
    fields: Seq<String>,
    name: Seq<char>,
    k: int,
)
    requires
        0 <= k <= fields.len(),
        add_owned(owners, fields.take(k), name) is Err,
    ensures
        add_owned(owners, fields, name) == add_owned(owners, fields.take(k), name),
    decreases fields.len() - k,
{
    if k < fields.len() {
        assert(fields.take(k + 1).drop_last() =~= fields.take(k));
        lemma_add_owned_err_extends(owners, fields, name, k + 1);
    } else {
        assert(fields.take(k) =~= fields);
    }
}

proof fn lemma_build_err_extends(subs: Seq<(Seq<char>, SubgraphConfig)>, d: u64, k: int)
    requires
        0 <= k <= subs.len(),
        build_registry(subs.take(k), d) is Err,
    ensures
        build_registry(subs, d) == build_registry(subs.take(k), d),
    decreases subs.len() - k,
{
    if k < subs.len() {
        assert(subs.take(k + 1).drop_last() =~= subs.take(k));
        lemma_build_err_extends(subs, d, k + 1);
    } else {
        assert(subs.take(k) =~= subs);
    }
}

impl SubgraphRegistry {
    /// Builds the registry from the configured subgraphs, in their order;
    /// fails on the first field claimed twice.
    pub fn from_config(cfg: &Config) -> (r: Result<SubgraphRegistry, RegistryError>)
        requires
            cfg.subgraphs.wf(),
        ensures
            r is Ok <==> keys_unique(query_claims(cfg.subgraphs@)) && keys_unique(mutation_claims(cfg.subgraphs@)),
            r matches Ok(reg) ==> {
                &&& forall|k: Seq<char>|
                    #![trigger key_lookup(reg.queries@, k)]
                    #![trigger key_lookup(reg.mutations@, k)]
                    key_lookup(reg.queries@, k) == key_lookup(query_claims(cfg.subgraphs@), k) && key_lookup(
                        reg.mutations@,
                        k,
                    ) == key_lookup(mutation_claims(cfg.subgraphs@), k)
                &&& reg.by_name@ == cfg.subgraphs@.map_values(
                    |e: (Seq<char>, SubgraphConfig)| (e.0, route_of(e.1, cfg.server.default_subgraph_timeout_ms)),
                )
                &&& reg.by_name.wf()
                &&& forall|n: Seq<char>|
                    #[trigger] key_lookup(reg.by_name@, n) == match key_lookup(cfg.subgraphs@, n) {
                        Some(sub) => Some(route_of(sub, cfg.server.default_subgraph_timeout_ms)),
                        None => None,
                    }
            },
            match build_registry(cfg.subgraphs@, cfg.server.default_subgraph_timeout_ms) {
                Ok(p) => r matches Ok(reg) && reg.queries@ == p.0 && reg.mutations@ == p.1
                    && reg.by_name@ == p.2,
                Err((f, first, second)) => r matches Err(RegistryError::DuplicateField { field, first: a, second: b })
                    && field@ == f && a@ == first && b@ == second,
            },
    {
        let subs = &cfg.subgraphs.entries;
        let ghost sv = cfg.subgraphs@;
        let ghost d = cfg.server.default_subgraph_timeout_ms;
        proof {
            lemma_registry_claims(sv, d);
        }
        let mut queries: StrMap<String> = StrMap::new();
        let mut mutations: StrMap<String> = StrMap::new();
        let mut by_name: StrMap<SubgraphRoute> = StrMap::new();
        let mut i: usize = 0;
        assert(sv.take(0) =~= Seq::<(Seq<char>, SubgraphConfig)>::empty());
        while i < subs.len()
            invariant
                i <= subs.len(),
                sv == cfg.subgraphs@,
                sv.len() == subs.len(),
                d == cfg.server.default_subgraph_timeout_ms,
                build_registry(sv, d) is Ok <==> keys_unique(query_claims(sv)) && keys_unique(mutation_claims(sv)),
                forall|k: int| 0 <= k < subs.len() ==> #[trigger] sv[k] == (subs@[k].0@, subs@[k].1),
                build_registry(sv.take(i as int), d) == Ok::<RegistryParts, (Seq<char>, Seq<char>, Seq<char>)>(
                    (queries@, mutations@, by_name@),
                ),
            decreases subs.len() - i,
        {
            assert(sv.take(i + 1).drop_last() =~= sv.take(i as int));
            assert(sv.take(i + 1).last() == sv[i as int]);
            let name = &subs[i].0;
            let sub = &subs[i].1;
            match add_owned_exec(&mut queries, &sub.fields, name) {
                Err((f, first)) => {
                    proof {
                        lemma_build_err_extends(sv, d, i + 1);
                    }
                    return Err(RegistryError::DuplicateField { field: f, first, second: name.clone() });
                },
                Ok(()) => {},
            }
            match add_owned_exec(&mut mutations, &sub.mutations, name) {
                Err((f, first)) => {
                    proof {
                        lemma_build_err_extends(sv, d, i + 1);
                    }
                    return Err(RegistryError::DuplicateField { field: f, first, second: name.clone() });
                },
                Ok(()) => {},
            }
            let timeout_ms = cfg.timeout_for(sub);
            by_name.insert(name.clone(), SubgraphRoute { url: sub.url.clone(), timeout_ms });
            i = i + 1;
        }
        assert(sv.take(subs.len() as int) =~= sv);
        proof {
            lemma_registry_routes(sv, d);
        }
        Ok(SubgraphRegistry { queries, mutations, by_name })
    }

    /// The subgraph that owns a top-level field; subscriptions have none.
    pub fn subgraph_for(&self, op: OpType, field: &str) -> (r: Option<&String>)
        ensures
            match op {
                OpType::Query => match r {
                    Some(s) => key_lookup(self.queries@, field@) == Some(s@),
                    None => key_lookup(self.queries@, field@) is None,
                },
                OpType::Mutation => match r {
                    Some(s) => key_lookup(self.mutations@, field@) == Some(s@),
                    None => key_lookup(self.mutations@, field@) is None,
                },
                OpType::Subscription => r is None,
            },
    {
        match op {
            OpType::Query => self.queries.get(field),
            OpType::Mutation => self.mutations.get(field),
            OpType::Subscription => None,
        }
    }

    /// A subgraph's route.
    pub fn route(&self, name: &str) -> (r: Option<&SubgraphRoute>)
        ensures
            match r {
                Some(x) => key_lookup(self.by_name@, name@) == Some(x@),
                None => key_lookup(self.by_name@, name@) is None,
            },
    {
        self.by_name.get(name)
    }

    /// Every `(name, route)` pair, in configuration order.
    pub fn all(&self) -> (r: &Vec<(String, SubgraphRoute)>)
        ensures
            crate::strmap::entries_view(r@) == self.by_name@,
    {
        &self.by_name.entries
    }
}

proof fn lemma_add_owned_ok(owners: Seq<(Seq<char>, Seq<char>)>, fields: Seq<String>, name: Seq<char>)
    requires
        add_owned(owners, fields, name) is Ok,
    ensures
        forall|j: int|
            0 <= j < fields.len() ==> key_lookup(add_owned(owners, fields, name)->Ok_0, #[trigger] fields[j]@)
                == Some(name),
        forall|k: Seq<char>|
            #[trigger] key_lookup(owners, k) is Some ==> key_lookup(add_owned(owners, fields, name)->Ok_0, k)
                == key_lookup(owners, k),
    decreases fields.len(),
{
    if fields.len() > 0 {
        let prev = add_owned(owners, fields.drop_last(), name);
        lemma_add_owned_ok(owners, fields.drop_last(), name);
        let m = prev->Ok_0;
        let f = fields.last()@;
        assert(key_lookup(m, f) is None);
        assert forall|j: int| 0 <= j < fields.len() implies key_lookup(
            add_owned(owners, fields, name)->Ok_0,
            #[trigger] fields[j]@,
        ) == Some(name) by {
            crate::strmap::lemma_lookup_after_insert(m, f, name, fields[j]@);
            if j < fields.len() - 1 {
                assert(fields.drop_last()[j] == fields[j]);
            }
        }
        assert forall|k: Seq<char>| #[trigger] key_lookup(owners, k) is Some implies key_lookup(
            add_owned(owners, fields, name)->Ok_0,
            k,
        ) == key_lookup(owners, k) by {
            crate::strmap::lemma_lookup_after_insert(m, f, name, k);
        }
    }
}

/// When the registry builds, every configured Query field is owned by the
/// subgraph that lists it, and every configured subgraph has its route.
pub proof fn lemma_fields_routed_to_owner(subs: Seq<(Seq<char>, SubgraphConfig)>, d: u64, i: int, j: int)
    requires
        build_registry(subs, d) is Ok,
        0 <= i < subs.len(),
        0 <= j < subs[i].1.fields@.len(),
    ensures
        key_lookup(build_registry(subs, d)->Ok_0.0, subs[i].1.fields@[j]@) == Some(subs[i].0),
        key_lookup(build_registry(subs, d)->Ok_0.2, subs[i].0) is Some,
    decreases subs.len(),
{
    let prev = build_registry(subs.drop_last(), d);
    let (name, sub) = subs.last();
    let p = prev->Ok_0;
    lemma_add_owned_ok(p.0, sub.fields@, name);
    let q = add_owned(p.0, sub.fields@, name)->Ok_0;
    let m = add_owned(p.1, sub.mutations@, name)->Ok_0;
    let timeout = match sub.timeout_ms {
        Some(t) => t,
        None => d,
    };
    let route = SubgraphRouteView { url: sub.url@, timeout_ms: timeout };
    crate::strmap::lemma_lookup_after_insert(p.2, name, route, subs[i].0);
    if i < subs.len() - 1 {
        assert(subs.drop_last()[i] == subs[i]);
        lemma_fields_routed_to_owner(subs.drop_last(), d, i, j);
        assert(key_lookup(p.0, subs[i].1.fields@[j]@) is Some);
    }
}

/// The route a configured subgraph gets: its URL, and its own timeout or the
/// server default.
pub open spec fn route_of(sub: SubgraphConfig, d: u64) -> SubgraphRouteView {
    SubgraphRouteView {
        url: sub.url@,
        timeout_ms: match sub.timeout_ms {
            Some(t) => t,
            None => d,
        },
    }
}

/// `(field, name)` for each of `fields`: the claims subgraph `name` makes.
pub open spec fn claims_of(fields: Seq<String>, name: Seq<char>) -> Seq<(Seq<char>, Seq<char>)> {
    fields.map_values(|f: String| (f@, name))
}

/// Every Query field claim of the configured subgraphs, in order.
pub open spec fn query_claims(subs: Seq<(Seq<char>, SubgraphConfig)>) -> Seq<(Seq<char>, Seq<char>)>
    decreases subs.len(),
{
    if subs.len() == 0 {
        Seq::empty()
    } else {
        query_claims(subs.drop_last()) + claims_of(subs.last().1.fields@, subs.last().0)
    }
}

/// Every mutation field claim of the configured subgraphs, in order.
pub open spec fn mutation_claims(subs: Seq<(Seq<char>, SubgraphConfig)>) -> Seq<(Seq<char>, Seq<char>)>
    decreases subs.len(),
{
    if subs.len() == 0 {
        Seq::empty()
    } else {
        mutation_claims(subs.drop_last()) + claims_of(subs.last().1.mutations@, subs.last().0)
    }
}

proof fn lemma_add_owned_claims(o: Seq<(Seq<char>, Seq<char>)>, fields: Seq<String>, name: Seq<char>)
    ensures
        add_owned(o, fields, name) is Ok <==> keys_unique(claims_of(fields, name)) && forall|j: int|
            0 <= j < fields.len() ==> key_lookup(o, #[trigger] claims_of(fields, name)[j].0) is None,
        add_owned(o, fields, name) is Ok ==> forall|k: Seq<char>|
            #[trigger] key_lookup(add_owned(o, fields, name)->Ok_0, k) == key_lookup(o + claims_of(fields, name), k),
    decreases fields.len(),
{
    let c = claims_of(fields, name);
    if fields.len() == 0 {
        assert(c =~= Seq::<(Seq<char>, Seq<char>)>::empty());
        assert(o + c =~= o);
    } else {
        let fs = fields.drop_last();
        let cp = claims_of(fs, name);
        let f = fields.last()@;
        let single = seq![(f, name)];
        assert(c =~= cp + single);
        lemma_add_owned_claims(o, fs, name);
        lemma_unique_concat(cp, single);
        assert(keys_unique(single));
        let all_c = forall|j: int| 0 <= j < fields.len() ==> key_lookup(o, #[trigger] c[j].0) is None;
        let all_cp = forall|j: int| 0 <= j < fs.len() ==> key_lookup(o, #[trigger] cp[j].0) is None;
        assert(c[fields.len() - 1].0 == f);
        assert(all_c <==> all_cp && key_lookup(o, f) is None) by {
            if all_cp && key_lookup(o, f) is None {
                assert forall|j: int| 0 <= j < fields.len() implies key_lookup(o, #[trigger] c[j].0) is None by {
                    if j < fs.len() {
                        assert(c[j] == cp[j]);
                    }
                }
            }
            if all_c {
                assert forall|j: int| 0 <= j < fs.len() implies key_lookup(o, #[trigger] cp[j].0) is None by {
                    assert(c[j] == cp[j]);
                }
            }
        }
        assert((forall|j: int| 0 <= j < single.len() ==> key_lookup(cp, #[trigger] single[j].0) is None) <==> key_lookup(cp, f) is None) by {
            if key_lookup(cp, f) is None {
                assert forall|j: int| 0 <= j < single.len() implies key_lookup(cp, #[trigger] single[j].0) is None by {
                    assert(single[j].0 == f);
                }
            }
            assert(single[0].0 == f);
        }
        lemma_lookup_concat(o, cp, f);
        if add_owned(o, fs, name) is Ok {
            let m = add_owned(o, fs, name)->Ok_0;
            assert(key_lookup(m, f) == key_lookup(o + cp, f));
            if add_owned(o, fields, name) is Ok {
                assert forall|k: Seq<char>| #[trigger] key_lookup(add_owned(o, fields, name)->Ok_0, k) == key_lookup(o + c, k) by {
                    crate::strmap::lemma_lookup_after_insert(m, f, name, k);
                    assert(o + c =~= (o + cp) + single);
                    lemma_lookup_concat(o + cp, single, k);
                    lemma_key_index(single, k);
                    assert(key_lookup(m, k) == key_lookup(o + cp, k));
                }
            }
        }
    }
}

/// The registry builds exactly when no Query field and no mutation field is
/// claimed twice (by two subgraphs, or twice by one), and then its owner
/// tables look up each field's one claim.
pub proof fn lemma_registry_claims(subs: Seq<(Seq<char>, SubgraphConfig)>, d: u64)
    ensures
        build_registry(subs, d) is Ok <==> keys_unique(query_claims(subs)) && keys_unique(mutation_claims(subs)),
        build_registry(subs, d) is Ok ==> forall|k: Seq<char>|
            #![trigger key_lookup(build_registry(subs, d)->Ok_0.0, k)]
            #![trigger key_lookup(build_registry(subs, d)->Ok_0.1, k)]
            key_lookup(build_registry(subs, d)->Ok_0.0, k) == key_lookup(query_claims(subs), k) && key_lookup(
                build_registry(subs, d)->Ok_0.1,
                k,
            ) == key_lookup(mutation_claims(subs), k),
    decreases subs.len(),
{
    if subs.len() > 0 {
        let prev = subs.drop_last();
        lemma_registry_claims(prev, d);
        let (name, sub) = subs.last();
        let qp = query_claims(prev);
        let mp = mutation_claims(prev);
        let cq = claims_of(sub.fields@, name);
        let cm = claims_of(sub.mutations@, name);
        assert(query_claims(subs) == qp + cq);
        assert(mutation_claims(subs) == mp + cm);
        lemma_unique_concat(qp, cq);
        lemma_unique_concat(mp, cm);
        if build_registry(prev, d) is Ok {
            let p = build_registry(prev, d)->Ok_0;
            lemma_add_owned_claims(p.0, sub.fields@, name);
            lemma_add_owned_claims(p.1, sub.mutations@, name);
            assert((forall|j: int| 0 <= j < sub.fields@.len() ==> key_lookup(p.0, #[trigger] cq[j].0) is None) <==> (
            forall|j: int| 0 <= j < cq.len() ==> key_lookup(qp, #[trigger] cq[j].0) is None)) by {
                assert forall|j: int| 0 <= j < cq.len() implies key_lookup(p.0, #[trigger] cq[j].0) == key_lookup(qp, cq[j].0) by {}
            }
            assert((forall|j: int| 0 <= j < sub.mutations@.len() ==> key_lookup(p.1, #[trigger] cm[j].0) is None) <==> (
            forall|j: int| 0 <= j < cm.len() ==> key_lookup(mp, #[trigger] cm[j].0) is None)) by {
                assert forall|j: int| 0 <= j < cm.len() implies key_lookup(p.1, #[trigger] cm[j].0) == key_lookup(mp, cm[j].0) by {}
            }
            if build_registry(subs, d) is Ok {
                let q = add_owned(p.0, sub.fields@, name)->Ok_0;
                let m = add_owned(p.1, sub.mutations@, name)->Ok_0;
                assert forall|k: Seq<char>|
                    #![trigger key_lookup(build_registry(subs, d)->Ok_0.0, k)]
                    #![trigger key_lookup(build_registry(subs, d)->Ok_0.1, k)]
                    key_lookup(build_registry(subs, d)->Ok_0.0, k) == key_lookup(query_claims(subs), k)
                        && key_lookup(build_registry(subs, d)->Ok_0.1, k) == key_lookup(mutation_claims(subs), k) by {
                    assert(key_lookup(q, k) == key_lookup(p.0 + cq, k));
                    assert(key_lookup(m, k) == key_lookup(p.1 + cm, k));
                    lemma_lookup_concat(p.0, cq, k);
                    lemma_lookup_concat(qp, cq, k);
                    lemma_lookup_concat(p.1, cm, k);
                    lemma_lookup_concat(mp, cm, k);
                    assert(key_lookup(p.0, k) == key_lookup(qp, k));
                    assert(key_lookup(p.1, k) == key_lookup(mp, k));
                }
            }
        }
    } else {
        assert(query_claims(subs) =~= Seq::<(Seq<char>, Seq<char>)>::empty());
        assert(mutation_claims(subs) =~= Seq::<(Seq<char>, Seq<char>)>::empty());
    }
}

/// With distinct subgraph names, the registry has one route per configured
/// subgraph, in configuration order: so `route` finds exactly the configured
/// names, with their URL and timeout, and `all` yields each once.
pub proof fn lemma_registry_routes(subs: Seq<(Seq<char>, SubgraphConfig)>, d: u64)
    requires
        keys_unique(subs),
        build_registry(subs, d) is Ok,
    ensures
        build_registry(subs, d)->Ok_0.2 == subs.map_values(
            |e: (Seq<char>, SubgraphConfig)| (e.0, route_of(e.1, d)),
        ),
        keys_unique(build_registry(subs, d)->Ok_0.2),
        forall|n: Seq<char>|
            #[trigger] key_lookup(build_registry(subs, d)->Ok_0.2, n) == match key_lookup(subs, n) {
                Some(sub) => Some(route_of(sub, d)),
                None => None,
            },
    decreases subs.len(),
{
    let rs = subs.map_values(|e: (Seq<char>, SubgraphConfig)| (e.0, route_of(e.1, d)));
    if subs.len() > 0 {
        let prev = subs.drop_last();
        assert forall|i: int, j: int| 0 <= i < j < prev.len() implies #[trigger] prev[i].0 != #[trigger] prev[j].0 by {
            assert(prev[i] == subs[i] && prev[j] == subs[j]);
        }
        lemma_registry_routes(prev, d);
        let p = build_registry(prev, d)->Ok_0;
        let (name, sub) = subs.last();
        assert forall|j: int| 0 <= j < p.2.len() implies p.2[j].0 != name by {
            assert(p.2[j].0 == prev[j].0 && prev[j] == subs[j]);
        }
        lemma_key_absent(p.2, name);
        assert(build_registry(subs, d)->Ok_0.2 == p.2.push((name, route_of(sub, d))));
        assert(rs =~= p.2.push((name, route_of(sub, d))));
    } else {
        assert(rs =~= Seq::<(Seq<char>, SubgraphRouteView)>::empty());
    }
    let r = build_registry(subs, d)->Ok_0.2;
    assert forall|i: int, j: int| 0 <= i < j < r.len() implies #[trigger] r[i].0 != #[trigger] r[j].0 by {
        assert(r[i].0 == subs[i].0 && r[j].0 == subs[j].0);
    }
    assert forall|n: Seq<char>|
        #[trigger] key_lookup(r, n) == match key_lookup(subs, n) {
            Some(sub) => Some(route_of(sub, d)),
            None => None,
        } by {
        assert forall|i: int| 0 <= i < r.len() implies #[trigger] r[i].0 == subs[i].0 by {}
        lemma_key_index_same_keys(r, subs, n);
        lemma_key_index(subs, n);
    }
}

} // verus!
