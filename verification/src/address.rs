//! Accounts, identified by number (the host layer keeps the book that maps
//! ledger addresses to numbers), and a small map keyed by accounts or other
//! plain keys.
use vstd::prelude::*;

verus! {

/// An account or contract address.  The library only ever compares
/// addresses, so an address is an opaque numeric handle; the host layer keeps
/// the correspondence with real ledger addresses.
#[derive(Clone, Copy, PartialEq, Eq, Structural, Debug, Hash)]
pub struct Address {
    pub id: u64,
}

impl Address {
    pub fn new(id: u64) -> (a: Address)
        ensures
            a.id == id,
    {
        Address { id }
    }
}


/// Keys of `s` are pairwise distinct.
pub open spec fn keys_distinct<K, V>(s: Seq<(K, V)>) -> bool {
    forall|i: int, j: int| 0 <= i < s.len() && 0 <= j < s.len() && i != j ==> s[i].0 != s[j].0
}

pub open spec fn has_key<K, V>(s: Seq<(K, V)>, a: K) -> bool {
    exists|i: int| 0 <= i < s.len() && s[i].0 == a
}

/// The map that a sequence of entries with distinct keys denotes.
pub open spec fn entries_map<K, V>(s: Seq<(K, V)>) -> Map<K, V> {
    Map::new(
        |a: K| has_key(s, a),
        |a: K| s[choose|i: int| 0 <= i < s.len() && s[i].0 == a].1,
    )
}

proof fn lemma_key_entry<K, V>(s: Seq<(K, V)>, i: int)
    requires
        keys_distinct(s),
        0 <= i < s.len(),
    ensures
        entries_map(s).contains_key(s[i].0),
        entries_map(s)[s[i].0] == s[i].1,
{
    assert(has_key(s, s[i].0));
    let j = choose|j: int| 0 <= j < s.len() && s[j].0 == s[i].0;
    assert(j == i);
}

/// Keys that can be compared at run time.
pub trait MapKey: Copy {
    fn same(&self, other: &Self) -> (b: bool)
        ensures
            b == (*self == *other),
    ;
}

impl MapKey for Address {
    fn same(&self, other: &Self) -> (b: bool) {
        self.id == other.id
    }
}

impl MapKey for u64 {
    fn same(&self, other: &Self) -> (b: bool) {
        *self == *other
    }
}

/// A map kept as a vector of entries with distinct keys.
#[verifier::reject_recursive_types(K)]
#[verifier::reject_recursive_types(V)]
pub struct KeyMap<K, V> {
    entries: Vec<(K, V)>,
}

impl<K, V> View for KeyMap<K, V> {
    type V = Map<K, V>;

    open spec fn view(&self) -> Map<K, V> {
        entries_map(self.entries())
    }
}

impl<K, V> KeyMap<K, V> {
    pub closed spec fn entries(&self) -> Seq<(K, V)> {
        self.entries@
    }
}

impl<K: MapKey, V> KeyMap<K, V> {
    pub open spec fn wf(&self) -> bool {
        keys_distinct(self.entries())
    }

    pub fn new() -> (m: Self)
        ensures
            m.wf(),
            m@ == Map::<K, V>::empty(),
    {
        let m = KeyMap { entries: Vec::new() };
        assert(m@ =~= Map::<K, V>::empty());
        m
    }

    fn find(&self, a: K) -> (r: Option<usize>)
        requires
            self.wf(),
        ensures
            match r {
                Some(i) => i < self.entries().len() && self.entries()[i as int].0 == a,
                None => !has_key(self.entries(), a),
            },
    {
        let n = self.entries.len();
        let mut i: usize = 0;
        while i < n
            invariant
                n == self.entries().len(),
                i <= n,
                forall|j: int| 0 <= j < i ==> self.entries()[j].0 != a,
            decreases n - i,
        {
            if self.entries[i].0.same(&a) {
                return Some(i);
            }
            i += 1;
        }
        None
    }

    pub fn get(&self, a: K) -> (r: Option<&V>)
        requires
            self.wf(),
        ensures
            match r {
                Some(v) => self@.contains_key(a) && *v == self@[a],
                None => !self@.contains_key(a),
            },
    {
        match self.find(a) {
            Some(i) => {
                proof {
                    lemma_key_entry(self.entries(), i as int);
                }
                Some(&self.entries[i].1)
            },
            None => None,
        }
    }

    pub fn contains_key(&self, a: K) -> (b: bool)
        requires
            self.wf(),
        ensures
            b == self@.contains_key(a),
    {
        self.find(a).is_some()
    }

    /// Binds `a` to `v`, replacing any earlier binding.
    pub fn set(&mut self, a: K, v: V)
        requires
            old(self).wf(),
        ensures
            final(self).wf(),
            final(self)@ == old(self)@.insert(a, v),
    {
        let ghost s = self.entries();
        match self.find(a) {
            Some(i) => {
                self.entries.set(i, (a, v));
                proof {
                    let t = self.entries();
                    assert(t =~= s.update(i as int, (a, v)));
                    assert forall|x: K| #![auto]
                        entries_map(t).contains_key(x) == entries_map(s).insert(a, v).contains_key(x) by {
                        if has_key(t, x) {
                            let j = choose|j: int| 0 <= j < t.len() && t[j].0 == x;
                            assert(s[j].0 == x);
                        }
                        if has_key(s, x) {
                            let j = choose|j: int| 0 <= j < s.len() && s[j].0 == x;
                            assert(t[j].0 == x);
                        }
                    }
                    assert forall|x: K| #[trigger] entries_map(t).contains_key(x) implies entries_map(t)[x]
                        == entries_map(s).insert(a, v)[x] by {
                        let j = choose|j: int| 0 <= j < t.len() && t[j].0 == x;
                        lemma_key_entry(t, j);
                        if x != a {
                            lemma_key_entry(s, j);
                        }
                    }
                    assert(entries_map(t) =~= entries_map(s).insert(a, v));
                }
            },
            None => {
                self.entries.push((a, v));
                proof {
                    let t = self.entries();
                    assert(t =~= s.push((a, v)));
                    assert forall|x: K| #![auto]
                        entries_map(t).contains_key(x) == entries_map(s).insert(a, v).contains_key(x) by {
                        if has_key(t, x) {
                            let j = choose|j: int| 0 <= j < t.len() && t[j].0 == x;
                            if j < s.len() {
                                assert(s[j].0 == x);
                            }
                        }
                        if has_key(s, x) {
                            let j = choose|j: int| 0 <= j < s.len() && s[j].0 == x;
                            assert(t[j].0 == x);
                        }
                        if x == a {
                            assert(t[s.len() as int].0 == x);
                        }
                    }
                    assert forall|x: K| #[trigger] entries_map(t).contains_key(x) implies entries_map(t)[x]
                        == entries_map(s).insert(a, v)[x] by {
                        let j = choose|j: int| 0 <= j < t.len() && t[j].0 == x;
                        lemma_key_entry(t, j);
                        if j < s.len() {
                            lemma_key_entry(s, j);
                        }
                    }
                    assert(entries_map(t) =~= entries_map(s).insert(a, v));
                }
            },
        }
    }

    /// Number of bindings.
    pub fn len(&self) -> (n: usize)
        ensures
            n == self.entries().len(),
    {
        self.entries.len()
    }

    /// The key of the `i`-th binding; it is bound in the map.
    pub fn key_at(&self, i: usize) -> (k: K)
        requires
            self.wf(),
            i < self.entries().len(),
        ensures
            k == self.entries()[i as int].0,
            self@.contains_key(k),
    {
        proof {
            lemma_key_entry(self.entries(), i as int);
        }
        self.entries[i].0
    }

    /// The value of the `i`-th binding: what its key maps to.
    pub fn value_at(&self, i: usize) -> (v: &V)
        requires
            self.wf(),
            i < self.entries().len(),
        ensures
            *v == self.entries()[i as int].1,
            *v == self@[self.entries()[i as int].0],
    {
        proof {
            lemma_key_entry(self.entries(), i as int);
        }
        &self.entries[i].1
    }

    /// Removes the binding of `a`, if any.
    pub fn remove(&mut self, a: K)
        requires
            old(self).wf(),
        ensures
            final(self).wf(),
            final(self)@ == old(self)@.remove(a),
    {
        let ghost s = self.entries();
        match self.find(a) {
            None => {
                assert(entries_map(s) =~= entries_map(s).remove(a));
            },
            Some(i) => {
                self.entries.remove(i);
                proof {
                    let t = self.entries();
                    assert(t =~= s.remove(i as int));
                    assert forall|p: int, q: int|
                        0 <= p < t.len() && 0 <= q < t.len() && p != q implies t[p].0 != t[q].0 by {
                        let p2 = if p < i { p } else { p + 1 };
                        let q2 = if q < i { q } else { q + 1 };
                        assert(t[p] == s[p2]);
                        assert(t[q] == s[q2]);
                    }
                    assert forall|x: K| #![auto]
                        entries_map(t).contains_key(x) == entries_map(s).remove(a).contains_key(x) by {
                        if has_key(t, x) {
                            let j = choose|j: int| 0 <= j < t.len() && t[j].0 == x;
                            let j2 = if j < i { j } else { j + 1 };
                            assert(s[j2].0 == x);
                            assert(j2 != i);
                        }
                        if has_key(s, x) && x != a {
                            let j = choose|j: int| 0 <= j < s.len() && s[j].0 == x;
                            if j < i {
                                assert(t[j].0 == x);
                            } else {
                                assert(j != i);
                                assert(t[j - 1].0 == x);
                            }
                        }
                    }
                    assert forall|x: K| #[trigger] entries_map(t).contains_key(x) implies entries_map(t)[x]
                        == entries_map(s).remove(a)[x] by {
                        let j = choose|j: int| 0 <= j < t.len() && t[j].0 == x;
                        lemma_key_entry(t, j);
                        let j2 = if j < i { j } else { j + 1 };
                        assert(t[j] == s[j2]);
                        lemma_key_entry(s, j2);
                    }
                    assert(entries_map(t) =~= entries_map(s).remove(a));
                }
            },
        }
    }
}

} // verus!
