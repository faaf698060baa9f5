//! A map keyed by strings that keeps its entries in insertion order.

use vstd::prelude::*;
use crate::text::str_eq;

verus! {

/// Position of the first entry whose key is `k`.
pub open spec fn key_index<T>(es: Seq<(Seq<char>, T)>, k: Seq<char>) -> Option<int>
    decreases es.len(),
{
    if es.len() == 0 {
        None
    } else {
        match key_index(es.drop_last(), k) {
            Some(i) => Some(i),
            None => if es.last().0 == k {
                Some(es.len() - 1)
            } else {
                None
            },
        }
    }
}

/// The value stored under `k`.
pub open spec fn key_lookup<T>(es: Seq<(Seq<char>, T)>, k: Seq<char>) -> Option<T> {
    match key_index(es, k) {
        Some(i) => Some(es[i].1),
        None => None,
    }
}

/// The entries after storing `v` under `k`: the first entry with that key is
/// replaced in place, otherwise the pair is appended.
pub open spec fn key_insert<T>(es: Seq<(Seq<char>, T)>, k: Seq<char>, v: T) -> Seq<(Seq<char>, T)> {
    match key_index(es, k) {
        Some(i) => es.update(i, (k, v)),
        None => es.push((k, v)),
    }
}

pub proof fn lemma_key_index<T>(es: Seq<(Seq<char>, T)>, k: Seq<char>)
    ensures
        key_index(es, k) matches Some(i) ==> 0 <= i < es.len() && es[i].0 == k && forall|j: int|
            0 <= j < i ==> es[j].0 != k,
        key_index(es, k) is None ==> forall|j: int| 0 <= j < es.len() ==> es[j].0 != k,
    decreases es.len(),
{
    if es.len() > 0 {
        let d = es.drop_last();
        lemma_key_index(d, k);
        assert forall|j: int| 0 <= j < d.len() implies d[j] == es[j] by {}
    }
}

pub proof fn lemma_key_index_unique<T>(es: Seq<(Seq<char>, T)>, k: Seq<char>, i: int)
    requires
        0 <= i < es.len(),
        es[i].0 == k,
        forall|j: int| 0 <= j < i ==> es[j].0 != k,
    ensures
        key_index(es, k) == Some(i),
{
    lemma_key_index(es, k);
}

pub proof fn lemma_key_absent<T>(es: Seq<(Seq<char>, T)>, k: Seq<char>)
    requires
        forall|j: int| 0 <= j < es.len() ==> es[j].0 != k,
    ensures
        key_index(es, k) is None,
{
    lemma_key_index(es, k);
}

/// Reading a key right after storing it gives the stored value; every other
/// key keeps its value.
pub proof fn lemma_lookup_after_insert<T>(es: Seq<(Seq<char>, T)>, k: Seq<char>, v: T, other: Seq<char>)
    ensures
        key_lookup(key_insert(es, k, v), k) == Some(v),
        other != k ==> key_lookup(key_insert(es, k, v), other) == key_lookup(es, other),
{
    let es2 = key_insert(es, k, v);
    lemma_key_index(es, k);
    lemma_key_index(es, other);
    lemma_key_index(es2, k);
    lemma_key_index(es2, other);
    match key_index(es, k) {
        Some(i) => {
            lemma_key_index_unique(es2, k, i);
            if other != k {
                if let Some(j) = key_index(es, other) {
                    lemma_key_index_unique(es2, other, j);
                } else {
                    lemma_key_absent(es2, other);
                }
            }
        },
        None => {
            lemma_key_index_unique(es2, k, es.len() as int);
            if other != k {
                if let Some(j) = key_index(es, other) {
                    lemma_key_index_unique(es2, other, j);
                } else {
                    lemma_key_absent(es2, other);
                }
            }
        },
    }
}

/// No key occurs twice.
pub open spec fn keys_unique<T>(es: Seq<(Seq<char>, T)>) -> bool {
    forall|i: int, j: int| 0 <= i < j < es.len() ==> #[trigger] es[i].0 != #[trigger] es[j].0
}

/// Storing a value keeps the keys unique.
pub proof fn lemma_insert_keeps_unique<T>(es: Seq<(Seq<char>, T)>, k: Seq<char>, v: T)
    requires
        keys_unique(es),
    ensures
        keys_unique(key_insert(es, k, v)),
{
    lemma_key_index(es, k);
    let r = key_insert(es, k, v);
    match key_index(es, k) {
        Some(x) => {
            assert forall|i: int, j: int| 0 <= i < j < r.len() implies #[trigger] r[i].0 != #[trigger] r[j].0 by {
                assert(r[i].0 == es[i].0 && r[j].0 == es[j].0);
            }
        },
        None => {
            assert forall|i: int, j: int| 0 <= i < j < r.len() implies #[trigger] r[i].0 != #[trigger] r[j].0 by {
                if j < es.len() {
                    assert(r[i] == es[i] && r[j] == es[j]);
                } else {
                    assert(r[i] == es[i] && r[j].0 == k);
                }
            }
        },
    }
}

/// Looking up in `a` followed by `b`: `a`'s entry when it has one, else
/// `b`'s.
pub proof fn lemma_lookup_concat<T>(a: Seq<(Seq<char>, T)>, b: Seq<(Seq<char>, T)>, k: Seq<char>)
    ensures
        key_lookup(a + b, k) == match key_lookup(a, k) {
            Some(v) => Some(v),
            None => key_lookup(b, k),
        },
{
    let ab = a + b;
    lemma_key_index(a, k);
    lemma_key_index(b, k);
    match key_index(a, k) {
        Some(i) => {
            assert forall|j: int| 0 <= j < i implies ab[j].0 != k by {
                assert(ab[j] == a[j]);
            }
            assert(ab[i] == a[i]);
            lemma_key_index_unique(ab, k, i);
        },
        None => match key_index(b, k) {
            Some(j) => {
                let n = a.len() as int;
                assert forall|x: int| 0 <= x < n + j implies ab[x].0 != k by {
                    if x < n {
                        assert(ab[x] == a[x]);
                    } else {
                        assert(ab[x] == b[x - n]);
                    }
                }
                assert(ab[n + j] == b[j]);
                lemma_key_index_unique(ab, k, n + j);
            },
            None => {
                assert forall|x: int| 0 <= x < ab.len() implies ab[x].0 != k by {
                    if x < a.len() {
                        assert(ab[x] == a[x]);
                    } else {
                        assert(ab[x] == b[x - a.len()]);
                    }
                }
                lemma_key_absent(ab, k);
            },
        },
    }
}

/// `a` followed by `b` has unique keys exactly when each has and no key of
/// `b` is in `a`.
pub proof fn lemma_unique_concat<T>(a: Seq<(Seq<char>, T)>, b: Seq<(Seq<char>, T)>)
    ensures
        keys_unique(a + b) <==> keys_unique(a) && keys_unique(b) && forall|j: int|
            0 <= j < b.len() ==> key_lookup(a, #[trigger] b[j].0) is None,
{
    let ab = a + b;
    let n = a.len() as int;
    if keys_unique(ab) {
        assert forall|i: int, j: int| 0 <= i < j < a.len() implies #[trigger] a[i].0 != #[trigger] a[j].0 by {
            assert(ab[i] == a[i] && ab[j] == a[j]);
        }
        assert forall|i: int, j: int| 0 <= i < j < b.len() implies #[trigger] b[i].0 != #[trigger] b[j].0 by {
            assert(ab[n + i] == b[i] && ab[n + j] == b[j]);
        }
        assert forall|j: int| 0 <= j < b.len() implies key_lookup(a, #[trigger] b[j].0) is None by {
            lemma_key_index(a, b[j].0);
            if let Some(i) = key_index(a, b[j].0) {
                assert(ab[i] == a[i] && ab[n + j] == b[j]);
            }
        }
    }
    if keys_unique(a) && keys_unique(b) && forall|j: int|
        0 <= j < b.len() ==> key_lookup(a, #[trigger] b[j].0) is None {
        assert forall|i: int, j: int| 0 <= i < j < ab.len() implies #[trigger] ab[i].0 != #[trigger] ab[j].0 by {
            if j < n {
                assert(ab[i] == a[i] && ab[j] == a[j]);
            } else if i >= n {
                assert(ab[i] == b[i - n] && ab[j] == b[j - n]);
            } else {
                assert(ab[i] == a[i] && ab[j] == b[j - n]);
                assert(key_lookup(a, b[j - n].0) is None);
                lemma_key_index(a, b[j - n].0);
            }
        }
    }
}

/// Entries with the same keys in the same order find a key at the same
/// position.
pub proof fn lemma_key_index_same_keys<A, B>(a: Seq<(Seq<char>, A)>, b: Seq<(Seq<char>, B)>, k: Seq<char>)
    requires
        a.len() == b.len(),
        forall|i: int| 0 <= i < a.len() ==> #[trigger] a[i].0 == b[i].0,
    ensures
        key_index(a, k) == key_index(b, k),
{
    lemma_key_index(a, k);
    lemma_key_index(b, k);
    match key_index(a, k) {
        Some(i) => {
            assert forall|j: int| 0 <= j < i implies b[j].0 != k by {
                assert(a[j].0 == b[j].0);
            }
            assert(a[i].0 == b[i].0);
            lemma_key_index_unique(b, k, i);
        },
        None => {
            assert forall|j: int| 0 <= j < b.len() implies b[j].0 != k by {
                assert(a[j].0 == b[j].0);
            }
            lemma_key_absent(b, k);
        },
    }
}

/// Entries in insertion order. A key occurs at most once ([`StrMap::wf`])
/// when the map is built with `new` and `insert`.
#[derive(Debug)]
pub struct StrMap<V> {
    pub entries: Vec<(String, V)>,
}

/// The view of a list of entries.
pub open spec fn entries_view<V: View>(es: Seq<(String, V)>) -> Seq<(Seq<char>, V::V)> {
    Seq::new(es.len(), |i: int| (es[i].0@, es[i].1@))
}

impl<V: View> View for StrMap<V> {
    type V = Seq<(Seq<char>, V::V)>;

    open spec fn view(&self) -> Seq<(Seq<char>, V::V)> {
        entries_view(self.entries@)
    }
}

impl<V: View> StrMap<V> {
    /// No key occurs twice.
    pub open spec fn wf(&self) -> bool {
        keys_unique(self@)
    }

    pub fn new() -> (r: Self)
        ensures
            r@ == Seq::<(Seq<char>, V::V)>::empty(),
            r.wf(),
    {
        let r = StrMap { entries: Vec::new() };
        assert(r@ =~= Seq::<(Seq<char>, V::V)>::empty());
        r
    }

    pub fn len(&self) -> (r: usize)
        ensures
            r == self@.len(),
    {
        self.entries.len()
    }

    pub fn index_of(&self, k: &str) -> (r: Option<usize>)
        ensures
            r matches Some(i) ==> key_index(self@, k@) == Some(i as int),
            r is None ==> key_index(self@, k@) is None,
    {
        let mut i: usize = 0;
        while i < self.entries.len()
            invariant
                i <= self.entries@.len(),
                forall|j: int| 0 <= j < i ==> self@[j].0 != k@,
            decreases self.entries.len() - i,
        {
            if str_eq(self.entries[i].0.as_str(), k) {
                proof {
                    lemma_key_index_unique(self@, k@, i as int);
                }
                return Some(i);
            }
            i = i + 1;
        }
        proof {
            lemma_key_absent(self@, k@);
        }
        None
    }

    pub fn get(&self, k: &str) -> (r: Option<&V>)
        ensures
            r matches Some(v) ==> key_lookup(self@, k@) == Some(v@),
            r is None ==> key_lookup(self@, k@) is None,
    {
        proof {
            lemma_key_index(self@, k@);
        }
        match self.index_of(k) {
            Some(i) => Some(&self.entries[i].1),
            None => None,
        }
    }

    pub fn contains_key(&self, k: &str) -> (r: bool)
        ensures
            r == (key_lookup(self@, k@) is Some),
    {
        self.index_of(k).is_some()
    }

    pub fn insert(&mut self, k: String, v: V)
        ensures
            final(self)@ == key_insert(old(self)@, k@, v@),
            old(self).wf() ==> final(self).wf(),
    {
        proof {
            lemma_key_index(self@, k@);
            if self.wf() {
                lemma_insert_keeps_unique(self@, k@, v@);
            }
        }
        let ghost before = self@;
        match self.index_of(k.as_str()) {
            Some(i) => {
                self.entries.set(i, (k, v));
                assert(self@ =~= before.update(i as int, (k@, v@)));
            },
            None => {
                self.entries.push((k, v));
                assert(self@ =~= before.push((k@, v@)));
            },
        }
    }
}

} // verus!
