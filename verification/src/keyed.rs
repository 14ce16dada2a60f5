//! A small map keyed by strings that keeps insertion order (string keys are compared by their
//! characters).

use vstd::prelude::*;
use crate::text::str_eq;

verus! {

/// Entries in insertion order; no key occurs twice.
pub struct StrMap<V> {
    entries: Vec<(String, V)>,
}

pub open spec fn keys_unique<V>(s: Seq<(Seq<char>, V)>) -> bool {
    forall|i: int, j: int| 0 <= i < j < s.len() ==> s[i].0 != s[j].0
}

/// Index of the entry with key `k`.
pub open spec fn index_of_key<V>(s: Seq<(Seq<char>, V)>, k: Seq<char>) -> Option<int> {
    if exists|i: int| 0 <= i < s.len() && s[i].0 == k {
        Some(choose|i: int| 0 <= i < s.len() && s[i].0 == k)
    } else {
        None
    }
}

/// Value stored under `k`.
pub open spec fn lookup<V>(s: Seq<(Seq<char>, V)>, k: Seq<char>) -> Option<V> {
    match index_of_key(s, k) {
        Some(i) => Some(s[i].1),
        None => None,
    }
}

/// `s` with `k` bound to `v`: an existing entry keeps its place, a new one goes last.
pub open spec fn assoc_insert<V>(s: Seq<(Seq<char>, V)>, k: Seq<char>, v: V) -> Seq<(Seq<char>, V)> {
    match index_of_key(s, k) {
        Some(i) => s.update(i, (k, v)),
        None => s.push((k, v)),
    }
}

/// After binding `k`, looking up `k` finds the new value and other keys are unaffected.
pub proof fn lemma_lookup_after_insert<V>(s: Seq<(Seq<char>, V)>, k: Seq<char>, v: V, k2: Seq<char>)
    requires
        keys_unique(s),
    ensures
        lookup(assoc_insert(s, k, v), k2) == if k2 == k {
            Some(v)
        } else {
            lookup(s, k2)
        },
{
    let n = assoc_insert(s, k, v);
    assert(keys_unique(n)) by {
        match index_of_key(s, k) {
            Some(i) => {},
            None => {},
        }
    }
    match index_of_key(s, k) {
        Some(i) => {
            assert(n[i].0 == k);
            if k2 == k {
                assert(index_of_key(n, k2) == Some(i));
            } else {
                if exists|j: int| 0 <= j < s.len() && s[j].0 == k2 {
                    let j = choose|j: int| 0 <= j < s.len() && s[j].0 == k2;
                    assert(n[j].0 == k2);
                    assert(index_of_key(n, k2) == Some(j));
                } else {
                    assert(!(exists|j: int| 0 <= j < n.len() && n[j].0 == k2));
                }
            }
        },
        None => {
            assert(n[s.len() as int].0 == k);
            if k2 == k {
                assert(index_of_key(n, k2) == Some(s.len() as int));
            } else {
                if exists|j: int| 0 <= j < s.len() && s[j].0 == k2 {
                    let j = choose|j: int| 0 <= j < s.len() && s[j].0 == k2;
                    assert(n[j].0 == k2);
                    assert(index_of_key(n, k2) == Some(j));
                } else {
                    assert(!(exists|j: int| 0 <= j < n.len() && n[j].0 == k2));
                }
            }
        },
    }
}

/// Whether every entry satisfies `p`.
pub open spec fn all_entries<V>(s: Seq<(Seq<char>, V)>, p: spec_fn((Seq<char>, V)) -> bool) -> bool {
    forall|i: int| 0 <= i < s.len() ==> p(#[trigger] s[i])
}

/// A property of every entry survives binding a key to a value that has it too.
pub proof fn lemma_all_entries_after_insert<V>(
    s: Seq<(Seq<char>, V)>,
    k: Seq<char>,
    v: V,
    p: spec_fn((Seq<char>, V)) -> bool,
)
    requires
        all_entries(s, p),
        p((k, v)),
    ensures
        all_entries(assoc_insert(s, k, v), p),
{
    let n = assoc_insert(s, k, v);
    assert forall|i: int| 0 <= i < n.len() implies p(#[trigger] n[i]) by {
        if n[i] != (k, v) {
            assert(n[i] == s[i]);
        }
    }
}

impl<V> View for StrMap<V> {
    type V = Seq<(Seq<char>, V)>;

    closed spec fn view(&self) -> Seq<(Seq<char>, V)> {
        self.entries@.map_values(|e: (String, V)| (e.0@, e.1))
    }
}

impl<V> StrMap<V> {
    pub open spec fn wf(&self) -> bool {
        keys_unique(self@)
    }

    pub fn new() -> (m: Self)
        ensures
            m@ == Seq::<(Seq<char>, V)>::empty(),
            m.wf(),
    {
        let m = StrMap { entries: Vec::new() };
        assert(m@ =~= Seq::<(Seq<char>, V)>::empty());
        m
    }

    pub fn len(&self) -> (n: usize)
        ensures
            n == self@.len(),
    {
        self.entries.len()
    }

    fn find(&self, k: &str) -> (r: Option<usize>)
        requires
            self.wf(),
        ensures
            match r {
                Some(i) => i < self@.len() && index_of_key(self@, k@) == Some(i as int),
                None => index_of_key(self@, k@) is None,
            },
    {
        let mut i: usize = 0;
        while i < self.entries.len()
            invariant
                i <= self.entries.len(),
                self@.len() == self.entries.len(),
                keys_unique(self@),
                forall|j: int| 0 <= j < i ==> self@[j].0 != k@,
            decreases self.entries.len() - i,
        {
            if str_eq(self.entries[i].0.as_str(), k) {
                assert(self@[i as int].0 == k@);
                assert(forall|a: int| 0 <= a < self@.len() && self@[a].0 == k@ ==> a == i);
                return Some(i);
            }
            i += 1;
        }
        None
    }

    /// The value stored under `k`.
    pub fn get(&self, k: &str) -> (r: Option<&V>)
        requires
            self.wf(),
        ensures
            match r {
                Some(v) => lookup(self@, k@) == Some(*v),
                None => lookup(self@, k@) is None,
            },
    {
        match self.find(k) {
            Some(i) => Some(&self.entries[i].1),
            None => None,
        }
    }

    /// Binds `k` to `v` (replacing an existing value in place).
    pub fn insert(&mut self, k: String, v: V)
        requires
            old(self).wf(),
        ensures
            final(self).wf(),
            final(self)@ == assoc_insert(old(self)@, k@, v),
    {
        let ghost kv = k@;
        match self.find(k.as_str()) {
            Some(i) => {
                let ghost before = self@;
                self.entries.set(i, (k, v));
                assert(self@ =~= before.update(i as int, (kv, v)));
            },
            None => {
                let ghost before = self@;
                self.entries.push((k, v));
                assert(self@ =~= before.push((kv, v)));
            },
        }
    }

    /// The entry at position `i` (insertion order).
    pub fn entry(&self, i: usize) -> (e: (&String, &V))
        requires
            i < self@.len(),
        ensures
            e.0@ == self@[i as int].0,
            *e.1 == self@[i as int].1,
    {
        let e = &self.entries[i];
        (&e.0, &e.1)
    }
}

} // verus!
