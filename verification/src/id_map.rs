//! An ordered map from `u32` identifiers to records, kept as a vector of
//! `(key, value)` pairs in strictly increasing key order.  Iterating it
//! visits the records in ascending identifier order, which is the order in
//! which every listing of this library returns its records.
use vstd::prelude::*;

verus! {

/// Keys of `s` strictly increase from left to right.
pub open spec fn keys_increasing<V>(s: Seq<(u32, V)>) -> bool {
    forall|i: int, j: int| 0 <= i < j < s.len() ==> s[i].0 < s[j].0
}

/// Some entry of `s` has key `k`.
pub open spec fn seq_has_key<V>(s: Seq<(u32, V)>, k: u32) -> bool {
    exists|i: int| 0 <= i < s.len() && s[i].0 == k
}

/// The map that a sequence of entries denotes.
pub open spec fn seq_to_map<V>(s: Seq<(u32, V)>) -> Map<u32, V> {
    Map::new(
        |k: u32| seq_has_key(s, k),
        |k: u32| s[choose|i: int| 0 <= i < s.len() && s[i].0 == k].1,
    )
}

/// In a sequence with increasing keys, the entry at `i` is what its key maps to.
pub proof fn lemma_entry_in_map<V>(s: Seq<(u32, V)>, i: int)
    requires
        keys_increasing(s),
        0 <= i < s.len(),
    ensures
        seq_to_map(s).contains_key(s[i].0),
        seq_to_map(s)[s[i].0] == s[i].1,
{
    assert(seq_has_key(s, s[i].0));
    let j = choose|j: int| 0 <= j < s.len() && s[j].0 == s[i].0;
    if j < i {
        assert(s[j].0 < s[i].0);
    } else if j > i {
        assert(s[i].0 < s[j].0);
    }
}

/// Every key of the denoted map is the key of some entry.
pub proof fn lemma_map_key_in_seq<V>(s: Seq<(u32, V)>, k: u32) -> (i: int)
    requires
        keys_increasing(s),
        seq_to_map(s).contains_key(k),
    ensures
        0 <= i < s.len(),
        s[i].0 == k,
        seq_to_map(s)[k] == s[i].1,
{
    let i = choose|i: int| 0 <= i < s.len() && s[i].0 == k;
    lemma_entry_in_map(s, i);
    i
}

/// The map of a prefix grows by one entry at a time.
pub proof fn lemma_take_step<V>(s: Seq<(u32, V)>, i: int)
    requires
        keys_increasing(s),
        0 <= i < s.len(),
    ensures
        !seq_to_map(s.take(i)).contains_key(s[i].0),
        seq_to_map(s.take(i + 1)) == seq_to_map(s.take(i)).insert(s[i].0, s[i].1),
{
    let a = s.take(i);
    let b = s.take(i + 1);
    assert(keys_increasing(a));
    assert(keys_increasing(b));
    if seq_has_key(a, s[i].0) {
        let j = choose|j: int| 0 <= j < a.len() && a[j].0 == s[i].0;
        assert(s[j].0 < s[i].0);
    }
    assert forall|x: u32| #![auto]
        seq_to_map(b).contains_key(x) == seq_to_map(a).insert(s[i].0, s[i].1).contains_key(x) by {
        if seq_has_key(b, x) {
            let j = choose|j: int| 0 <= j < b.len() && b[j].0 == x;
            if j < i {
                assert(a[j].0 == x);
            }
        }
        if seq_has_key(a, x) {
            let j = choose|j: int| 0 <= j < a.len() && a[j].0 == x;
            assert(b[j].0 == x);
        }
        if x == s[i].0 {
            assert(b[i].0 == x);
        }
    }
    assert forall|x: u32| #[trigger] seq_to_map(b).contains_key(x) implies seq_to_map(b)[x]
        == seq_to_map(a).insert(s[i].0, s[i].1)[x] by {
        let j = lemma_map_key_in_seq(b, x);
        if j < i {
            lemma_entry_in_map(a, j);
        }
    }
    assert(seq_to_map(b) =~= seq_to_map(a).insert(s[i].0, s[i].1));
}

/// Taking out the entry at `i` keeps the keys increasing and takes its key out of the map.
pub proof fn lemma_remove_entry<V>(s: Seq<(u32, V)>, i: int)
    requires
        keys_increasing(s),
        0 <= i < s.len(),
    ensures
        keys_increasing(s.remove(i)),
        seq_to_map(s.remove(i)) == seq_to_map(s).remove(s[i].0),
{
    let r = s.remove(i);
    let k = s[i].0;
    assert forall|a: int, b: int| 0 <= a < b < r.len() implies r[a].0 < r[b].0 by {
        let a2 = if a < i { a } else { a + 1 };
        let b2 = if b < i { b } else { b + 1 };
        assert(r[a] == s[a2] && r[b] == s[b2]);
    }
    assert forall|x: u32| #![auto]
        seq_to_map(r).contains_key(x) == seq_to_map(s).remove(k).contains_key(x) by {
        if seq_has_key(r, x) {
            let j = choose|j: int| 0 <= j < r.len() && r[j].0 == x;
            let j2 = if j < i { j } else { j + 1 };
            assert(s[j2].0 == x);
            assert(j2 != i);
            if j2 < i {
                assert(s[j2].0 < s[i].0);
            } else {
                assert(s[i].0 < s[j2].0);
            }
        }
        if seq_has_key(s, x) && x != k {
            let j = choose|j: int| 0 <= j < s.len() && s[j].0 == x;
            assert(j != i);
            if j < i {
                assert(r[j].0 == x);
            } else {
                assert(r[j - 1].0 == x);
            }
        }
    }
    assert forall|x: u32| #[trigger] seq_to_map(r).contains_key(x) implies seq_to_map(r)[x]
        == seq_to_map(s).remove(k)[x] by {
        let j = lemma_map_key_in_seq(r, x);
        let j2 = if j < i { j } else { j + 1 };
        assert(r[j] == s[j2]);
        lemma_entry_in_map(s, j2);
    }
    assert(seq_to_map(r) =~= seq_to_map(s).remove(k));
}

/// Two sequences with increasing keys that denote the same map are equal:
/// the map determines its entries and their order.
pub proof fn lemma_entries_unique<V>(a: Seq<(u32, V)>, b: Seq<(u32, V)>)
    requires
        keys_increasing(a),
        keys_increasing(b),
        seq_to_map(a) == seq_to_map(b),
    ensures
        a == b,
    decreases a.len(),
{
    if a.len() == 0 {
        if b.len() > 0 {
            lemma_entry_in_map(b, 0);
        }
        assert(a =~= b);
    } else {
        if b.len() == 0 {
            lemma_entry_in_map(a, 0);
        }
        let la = a.len() - 1;
        let lb = b.len() - 1;
        lemma_entry_in_map(a, la);
        lemma_entry_in_map(b, lb);
        let ja = lemma_map_key_in_seq(a, b[lb].0);
        let jb = lemma_map_key_in_seq(b, a[la].0);
        if ja < la {
            assert(a[ja].0 < a[la].0);
        }
        if jb < lb {
            assert(b[jb].0 < b[lb].0);
        }
        assert(a[la] == b[lb]);
        lemma_remove_entry(a, la);
        lemma_remove_entry(b, lb);
        assert(a.remove(la) =~= a.drop_last());
        assert(b.remove(lb) =~= b.drop_last());
        lemma_entries_unique(a.drop_last(), b.drop_last());
        assert(a =~= b.drop_last().push(b[lb]));
        assert(b =~= b.drop_last().push(b[lb]));
    }
}

/// Entries with increasing keys, all between 1 and `n`, number at most `n`.
pub proof fn lemma_len_bounded<V>(s: Seq<(u32, V)>, n: int)
    requires
        0 <= n,
        keys_increasing(s),
        forall|i: int| 0 <= i < s.len() ==> 1 <= #[trigger] s[i].0 <= n,
    ensures
        s.len() <= n,
    decreases s.len(),
{
    if s.len() > 0 {
        let r = s.drop_last();
        let last = s.len() - 1;
        let top = s[last].0 as int;
        assert(1 <= s[last].0 <= n);
        assert forall|i: int| 0 <= i < r.len() implies 1 <= #[trigger] r[i].0 <= top - 1 by {
            assert(r[i] == s[i]);
            assert(s[i].0 < s[last].0);
        }
        lemma_len_bounded(r, top - 1);
    }
}

/// The values of a sequence of entries, in order.
pub open spec fn seq_values<V>(s: Seq<(u32, V)>) -> Seq<V> {
    s.map_values(|e: (u32, V)| e.1)
}

/// A decidable property of records, used to select records from a map.
pub trait Criterion<V> {
    spec fn holds(&self, v: V) -> bool;

    fn test(&self, v: &V) -> (b: bool)
        ensures
            b == self.holds(*v),
    ;
}

/// The property that a criterion decides.
pub open spec fn criterion_pred<V, C: Criterion<V>>(c: C) -> spec_fn(V) -> bool {
    |v: V| c.holds(v)
}

#[verifier::reject_recursive_types(V)]
pub struct IdMap<V> {
    entries: Vec<(u32, V)>,
}

impl<V> View for IdMap<V> {
    type V = Map<u32, V>;

    open spec fn view(&self) -> Map<u32, V> {
        seq_to_map(self.entries())
    }
}

impl<V> IdMap<V> {
    /// The entries in ascending key order.
    pub closed spec fn entries(&self) -> Seq<(u32, V)> {
        self.entries@
    }

    /// The values in ascending key order.
    pub open spec fn values(&self) -> Seq<V> {
        seq_values(self.entries())
    }

    /// Well-formedness: keys strictly increase.
    pub open spec fn wf(&self) -> bool {
        keys_increasing(self.entries())
    }

    pub fn new() -> (m: Self)
        ensures
            m.wf(),
            m.entries() == Seq::<(u32, V)>::empty(),
            m@ == Map::<u32, V>::empty(),
    {
        let m = IdMap { entries: Vec::new() };
        assert(m@ =~= Map::<u32, V>::empty());
        m
    }

    pub fn len(&self) -> (n: usize)
        ensures
            n == self.entries().len(),
    {
        self.entries.len()
    }

    pub fn key_at(&self, i: usize) -> (k: u32)
        requires
            i < self.entries().len(),
        ensures
            k == self.entries()[i as int].0,
    {
        self.entries[i].0
    }

    pub fn value_at(&self, i: usize) -> (v: &V)
        requires
            i < self.entries().len(),
        ensures
            *v == self.entries()[i as int].1,
    {
        &self.entries[i].1
    }

    /// Position of the entry with key `k`, if any.
    pub fn find(&self, k: u32) -> (r: Option<usize>)
        requires
            self.wf(),
        ensures
            match r {
                Some(i) => i < self.entries().len() && self.entries()[i as int].0 == k,
                None => !seq_has_key(self.entries(), k) && !self@.contains_key(k),
            },
    {
        let n = self.entries.len();
        let mut i: usize = 0;
        while i < n
            invariant
                n == self.entries().len(),
                i <= n,
                forall|j: int| 0 <= j < i ==> self.entries()[j].0 != k,
            decreases n - i,
        {
            if self.entries[i].0 == k {
                return Some(i);
            }
            i += 1;
        }
        None
    }

    pub fn get(&self, k: u32) -> (r: Option<&V>)
        requires
            self.wf(),
        ensures
            match r {
                Some(v) => self@.contains_key(k) && *v == self@[k],
                None => !self@.contains_key(k),
            },
    {
        match self.find(k) {
            Some(i) => {
                proof {
                    lemma_entry_in_map(self.entries(), i as int);
                }
                Some(&self.entries[i].1)
            },
            None => None,
        }
    }

    pub fn contains_key(&self, k: u32) -> (b: bool)
        requires
            self.wf(),
        ensures
            b == self@.contains_key(k),
    {
        self.find(k).is_some()
    }

    /// Binds `k` to `v`, replacing any earlier binding.
    pub fn set(&mut self, k: u32, v: V)
        requires
            old(self).wf(),
        ensures
            final(self).wf(),
            final(self)@ == old(self)@.insert(k, v),
            final(self).entries().len() == old(self).entries().len() + if old(self)@.contains_key(k) {
                0int
            } else {
                1int
            },
    {
        let ghost s = self.entries();
        let n = self.entries.len();
        let mut i: usize = 0;
        while i < n && self.entries[i].0 < k
            invariant
                n == self.entries().len(),
                s == self.entries(),
                i <= n,
                forall|j: int| 0 <= j < i ==> self.entries()[j].0 < k,
            decreases n - i,
        {
            i += 1;
        }
        if i < n && self.entries[i].0 == k {
            proof {
                lemma_entry_in_map(s, i as int);
            }
            self.entries.set(i, (k, v));
            proof {
                let t = self.entries();
                assert(t =~= s.update(i as int, (k, v)));
                assert(keys_increasing(t));
                assert forall|x: u32|
                    #![auto]
                    seq_to_map(t).contains_key(x) == seq_to_map(s).insert(k, v).contains_key(x)
                    by {
                    if seq_has_key(t, x) {
                        let j = choose|j: int| 0 <= j < t.len() && t[j].0 == x;
                        assert(s[j].0 == x);
                    }
                    if seq_has_key(s, x) {
                        let j = choose|j: int| 0 <= j < s.len() && s[j].0 == x;
                        assert(t[j].0 == x);
                    }
                }
                assert forall|x: u32| #[trigger]
                    seq_to_map(t).contains_key(x) implies seq_to_map(t)[x] == seq_to_map(
                        s,
                    ).insert(k, v)[x] by {
                    let j = lemma_map_key_in_seq(t, x);
                    if x != k {
                        assert(s[j] == t[j]);
                        lemma_entry_in_map(s, j);
                    }
                }
                assert(seq_to_map(t) =~= seq_to_map(s).insert(k, v));
            }
        } else {
            proof {
                if seq_has_key(s, k) {
                    let j = choose|j: int| 0 <= j < s.len() && s[j].0 == k;
                    if j < i {
                    } else {
                        assert(i < n);
                        assert(s[i as int].0 <= s[j].0);
                    }
                }
            }
            self.entries.insert(i, (k, v));
            proof {
                let t = self.entries();
                assert(t =~= s.insert(i as int, (k, v)));
                assert forall|a: int, b: int| 0 <= a < b < t.len() implies t[a].0 < t[b].0 by {
                    if b < i {
                    } else if b == i {
                    } else if a < i {
                        assert(t[b] == s[b - 1]);
                        if a < i as int {
                            assert(s[a].0 < k || a < i);
                        }
                    } else if a == i {
                        assert(t[b] == s[b - 1]);
                        assert(i < n ==> s[i as int].0 > k);
                        assert(s[i as int].0 <= s[b - 1].0 || b - 1 == i);
                    } else {
                        assert(t[a] == s[a - 1]);
                        assert(t[b] == s[b - 1]);
                    }
                }
                assert(keys_increasing(t));
                assert forall|x: u32|
                    #![auto]
                    seq_to_map(t).contains_key(x) == seq_to_map(s).insert(k, v).contains_key(x)
                    by {
                    if seq_has_key(t, x) {
                        let j = choose|j: int| 0 <= j < t.len() && t[j].0 == x;
                        if j < i {
                            assert(s[j].0 == x);
                        } else if j > i {
                            assert(s[j - 1].0 == x);
                        }
                    }
                    if seq_has_key(s, x) {
                        let j = choose|j: int| 0 <= j < s.len() && s[j].0 == x;
                        if j < i {
                            assert(t[j].0 == x);
                        } else {
                            assert(t[j + 1].0 == x);
                        }
                    }
                    if x == k {
                        assert(t[i as int].0 == x);
                    }
                }
                assert forall|x: u32| #[trigger]
                    seq_to_map(t).contains_key(x) implies seq_to_map(t)[x] == seq_to_map(
                        s,
                    ).insert(k, v)[x] by {
                    let j = lemma_map_key_in_seq(t, x);
                    if j < i {
                        lemma_entry_in_map(s, j);
                    } else if j > i {
                        lemma_entry_in_map(s, j - 1);
                    }
                }
                assert(seq_to_map(t) =~= seq_to_map(s).insert(k, v));
            }
        }
    }

    /// Removes the binding of `k`, if any.
    pub fn remove(&mut self, k: u32)
        requires
            old(self).wf(),
        ensures
            final(self).wf(),
            final(self)@ == old(self)@.remove(k),
            final(self).entries().len() == old(self).entries().len() - if old(self)@.contains_key(k) {
                1int
            } else {
                0int
            },
    {
        let ghost s = self.entries();
        match self.find(k) {
            None => {
                assert(seq_to_map(s) =~= seq_to_map(s).remove(k));
            },
            Some(i) => {
                proof {
                    lemma_entry_in_map(s, i as int);
                }
                self.entries.remove(i);
                proof {
                    let t = self.entries();
                    assert(t =~= s.remove(i as int));
                    assert forall|a: int, b: int| 0 <= a < b < t.len() implies t[a].0 < t[b].0 by {
                        if b < i {
                        } else if a < i {
                            assert(t[b] == s[b + 1]);
                        } else {
                            assert(t[a] == s[a + 1]);
                            assert(t[b] == s[b + 1]);
                        }
                    }
                    assert forall|x: u32|
                        #![auto]
                        seq_to_map(t).contains_key(x) == seq_to_map(s).remove(k).contains_key(x)
                        by {
                        if seq_has_key(t, x) {
                            let j = choose|j: int| 0 <= j < t.len() && t[j].0 == x;
                            if j < i {
                                assert(s[j].0 == x);
                                assert(s[j].0 < s[i as int].0);
                            } else {
                                assert(s[j + 1].0 == x);
                                assert(s[i as int].0 < s[j + 1].0);
                            }
                        }
                        if seq_has_key(s, x) && x != k {
                            let j = choose|j: int| 0 <= j < s.len() && s[j].0 == x;
                            if j < i {
                                assert(t[j].0 == x);
                            } else {
                                assert(j != i);
                                assert(t[j - 1].0 == x);
                            }
                        }
                    }
                    assert forall|x: u32| #[trigger]
                        seq_to_map(t).contains_key(x) implies seq_to_map(t)[x] == seq_to_map(
                            s,
                        ).remove(k)[x] by {
                        let j = lemma_map_key_in_seq(t, x);
                        if j < i {
                            lemma_entry_in_map(s, j);
                        } else {
                            lemma_entry_in_map(s, j + 1);
                        }
                    }
                    assert(seq_to_map(t) =~= seq_to_map(s).remove(k));
                }
            },
        }
    }

    /// The values meeting criterion `c`, in ascending key order, given that
    /// cloning a value yields an equal value.
    pub fn select<C: Criterion<V>>(&self, c: &C) -> (r: Vec<V>) where V: Clone
        requires
            forall|a: V, b: V| cloned(a, b) ==> a == b,
        ensures
            r@ == self.values().filter(criterion_pred(*c)),
    {
        let ghost p = criterion_pred(*c);
        let n = self.entries.len();
        let mut r: Vec<V> = Vec::new();
        let mut i: usize = 0;
        while i < n
            invariant
                n == self.entries().len(),
                i <= n,
                p == criterion_pred(*c),
                forall|a: V, b: V| cloned(a, b) ==> a == b,
                r@ == self.values().take(i as int).filter(p),
            decreases n - i,
        {
            let v = &self.entries[i].1;
            let keep = c.test(v);
            proof {
                reveal(Seq::filter);
                assert(self.values().take(i + 1).drop_last() =~= self.values().take(i as int));
                assert(self.values()[i as int] == *v);
                assert(self.values().take(i + 1).filter(p) == if p(*v) {
                    self.values().take(i as int).filter(p).push(*v)
                } else {
                    self.values().take(i as int).filter(p)
                });
            }
            if keep {
                let c = v.clone();
                assert(cloned(*v, c));
                r.push(c);
            }
            i += 1;
        }
        assert(self.values().take(n as int) =~= self.values());
        r
    }

    /// A copy with equal entries, given that cloning a value yields an equal value.
    pub fn duplicate(&self) -> (r: Self) where V: Clone
        requires
            forall|a: V, b: V| cloned(a, b) ==> a == b,
        ensures
            r.entries() == self.entries(),
    {
        let n = self.entries.len();
        let mut out: Vec<(u32, V)> = Vec::new();
        let mut i: usize = 0;
        while i < n
            invariant
                n == self.entries().len(),
                i <= n,
                forall|a: V, b: V| cloned(a, b) ==> a == b,
                out@ == self.entries().take(i as int),
            decreases n - i,
        {
            let k = self.entries[i].0;
            let v = self.entries[i].1.clone();
            assert(cloned(self.entries()[i as int].1, v));
            out.push((k, v));
            assert(self.entries().take(i + 1) =~= self.entries().take(i as int).push(
                self.entries()[i as int],
            ));
            i += 1;
        }
        assert(self.entries().take(n as int) =~= self.entries());
        IdMap { entries: out }
    }

    /// Relates each entry to the map: the value at position `i` is what its key maps to.
    pub proof fn lemma_entry(&self, i: int)
        requires
            self.wf(),
            0 <= i < self.entries().len(),
        ensures
            self@.contains_key(self.entries()[i].0),
            self@[self.entries()[i].0] == self.entries()[i].1,
    {
        lemma_entry_in_map(self.entries(), i);
    }

    /// Every key of the map sits at some position.
    pub proof fn lemma_key(&self, k: u32) -> (i: int)
        requires
            self.wf(),
            self@.contains_key(k),
        ensures
            0 <= i < self.entries().len(),
            self.entries()[i].0 == k,
            self@[k] == self.entries()[i].1,
    {
        lemma_map_key_in_seq(self.entries(), k)
    }
}

} // verus!
