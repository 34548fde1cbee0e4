//! A keyed table: at most one value for each key.

use vstd::prelude::*;

verus! {

/// A key that can be compared with another one.
pub trait Key: Copy {
    /// Whether the two keys are the same.
    fn same(&self, other: &Self) -> (r: bool)
        ensures
            r == (*self == *other),
    ;
}

/// A table from keys to values.
#[derive(Debug)]
pub struct Table<K, V> {
    keys: Vec<K>,
    vals: Vec<V>,
}

/// The sum of `f` over the values of `m`.
pub open spec fn map_total<K, V>(m: Map<K, V>, f: spec_fn(V) -> nat) -> nat
    decreases m.dom().len(),
    when m.dom().finite()
{
    if m.dom().len() == 0 {
        0
    } else {
        let k = m.dom().choose();
        f(m[k]) + map_total(m.remove(k), f)
    }
}

/// Taking any one key out of a map takes its value out of the sum.
pub proof fn lemma_map_total_remove<K, V>(m: Map<K, V>, f: spec_fn(V) -> nat, key: K)
    requires
        m.dom().finite(),
        m.contains_key(key),
    ensures
        map_total(m, f) == f(m[key]) + map_total(m.remove(key), f),
    decreases m.dom().len(),
{
    let k = m.dom().choose();
    assert(m.dom().contains(key));
    if m.dom().len() == 0 {
        assert(m.dom() =~= Set::empty());
    } else if k != key {
        assert(m.dom().contains(k));
        lemma_map_total_remove(m.remove(k), f, key);
        lemma_map_total_remove(m.remove(key), f, k);
        assert(m.remove(k).remove(key) =~= m.remove(key).remove(k));
    }
}

impl<K: Key, V> View for Table<K, V> {
    type V = Map<K, V>;

    closed spec fn view(&self) -> Map<K, V> {
        Map::new(
            |k: K| self.keys@.contains(k),
            |k: K| self.vals@[self.keys@.index_of(k)],
        )
    }
}

impl<K: Key, V> Table<K, V> {
    /// No key occurs twice, and every key has a value.
    pub closed spec fn wf(&self) -> bool {
        &&& self.keys@.len() == self.vals@.len()
        &&& self.keys@.no_duplicates()
    }

    /// The keys, in the order in which the table holds them.
    pub closed spec fn key_seq(&self) -> Seq<K> {
        self.keys@
    }

    /// The held keys are exactly the keys of the view, each once.
    pub proof fn lemma_keys(&self)
        requires
            self.wf(),
        ensures
            self@.dom() == self.key_seq().to_set(),
            self@.dom().finite(),
            self@.dom().len() == self.key_seq().len(),
            self.key_seq().no_duplicates(),
    {
        assert(self@.dom() =~= self.keys@.to_set());
        self.keys@.unique_seq_to_set();
        vstd::seq_lib::seq_to_set_is_finite(self.keys@);
    }

    proof fn lemma_at(&self, i: int)
        requires
            self.wf(),
            0 <= i < self.keys@.len(),
        ensures
            self@.contains_key(self.keys@[i]),
            self@[self.keys@[i]] == self.vals@[i],
    {
        let j = self.keys@.index_of(self.keys@[i]);
        assert(self.keys@.contains(self.keys@[i]));
        assert(self.keys@[j] == self.keys@[i]);
    }

    /// An empty table.
    pub fn new() -> (r: Self)
        ensures
            r.wf(),
            r@ == Map::<K, V>::empty(),
    {
        let r: Self = Table { keys: Vec::new(), vals: Vec::new() };
        assert(r@ =~= Map::<K, V>::empty());
        r
    }

    /// The number of keys.
    pub fn len(&self) -> (r: usize)
        requires
            self.wf(),
        ensures
            r == self@.dom().len(),
    {
        proof {
            self.lemma_keys();
        }
        self.keys.len()
    }

    fn position(&self, key: K) -> (r: Option<usize>)
        requires
            self.wf(),
        ensures
            match r {
                Some(i) => i < self.keys@.len() && self.keys@[i as int] == key
                    && self@.contains_key(key) && self@[key] == self.vals@[i as int],
                None => !self@.contains_key(key) && !self.keys@.contains(key),
            },
    {
        let mut i: usize = 0;
        while i < self.keys.len()
            invariant
                self.wf(),
                i <= self.keys@.len(),
                forall|k: int| 0 <= k < i ==> self.keys@[k] != key,
            decreases self.keys@.len() - i,
        {
            if self.keys[i].same(&key) {
                proof {
                    self.lemma_at(i as int);
                }
                return Some(i);
            }
            i = i + 1;
        }
        None
    }

    /// Whether the table has a value for `key`.
    pub fn contains_key(&self, key: K) -> (r: bool)
        requires
            self.wf(),
        ensures
            r == self@.contains_key(key),
    {
        match self.position(key) {
            Some(_) => true,
            None => false,
        }
    }

    /// The value of `key`.
    pub fn get(&self, key: K) -> (r: Option<&V>)
        requires
            self.wf(),
        ensures
            match r {
                Some(v) => self@.contains_key(key) && *v == self@[key],
                None => !self@.contains_key(key),
            },
    {
        match self.position(key) {
            Some(i) => Some(&self.vals[i]),
            None => None,
        }
    }

    /// The value of `key`, to be changed in place.
    pub fn get_mut(&mut self, key: K) -> (r: Option<&mut V>)
        requires
            old(self).wf(),
        ensures
            final(self).wf(),
            match r {
                Some(v) => old(self)@.contains_key(key) && *v == old(self)@[key]
                    && final(self)@ == old(self)@.insert(key, *final(v)),
                None => !old(self)@.contains_key(key) && final(self)@ == old(self)@,
            },
    {
        match self.position(key) {
            Some(i) => {
                let r: &mut V = &mut self.vals[i];
                Some(r)
            },
            None => None,
        }
    }

    /// Sets the value of `key`; hands back the value it had.
    pub fn insert(&mut self, key: K, value: V) -> (r: Option<V>)
        requires
            old(self).wf(),
        ensures
            final(self).wf(),
            final(self)@ == old(self)@.insert(key, value),
            match r {
                Some(v) => old(self)@.contains_key(key) && v == old(self)@[key],
                None => !old(self)@.contains_key(key),
            },
    {
        match self.position(key) {
            Some(i) => {
                let was: V = self.vals.remove(i);
                self.vals.insert(i, value);
                proof {
                    assert(self.vals@ =~= old(self).vals@.update(i as int, value));
                    assert(self.wf());
                    assert forall|k: K| self@.contains_key(k) implies self@[k] == old(
                        self,
                    )@.insert(key, value)[k] by {
                        let j = self.keys@.index_of(k);
                        assert(self.keys@[j] == k);
                        self.lemma_at(j);
                        old(self).lemma_at(j);
                    }
                    assert(self@.dom() =~= old(self)@.insert(key, value).dom());
                    assert(self@ =~= old(self)@.insert(key, value));
                }
                Some(was)
            },
            None => {
                self.keys.push(key);
                self.vals.push(value);
                proof {
                    let n = old(self).keys@.len() as int;
                    assert(self.keys@ =~= old(self).keys@.push(key));
                    assert(self.wf());
                    assert forall|k: K| old(self)@.insert(key, value).contains_key(k)
                        == self@.contains_key(k) by {
                        if old(self).keys@.contains(k) {
                            let j = old(self).keys@.index_of(k);
                            assert(self.keys@[j] == k);
                        }
                        if k == key {
                            assert(self.keys@[n] == k);
                        }
                    }
                    assert forall|k: K| self@.contains_key(k) implies self@[k] == old(
                        self,
                    )@.insert(key, value)[k] by {
                        let j = self.keys@.index_of(k);
                        assert(self.keys@[j] == k);
                        self.lemma_at(j);
                        if j < n {
                            old(self).lemma_at(j);
                            assert(old(self).keys@[j] == k);
                        }
                    }
                    assert(self@ =~= old(self)@.insert(key, value));
                }
                None
            },
        }
    }

    /// Takes `key` out of the table; hands back its value.
    pub fn remove(&mut self, key: K) -> (r: Option<V>)
        requires
            old(self).wf(),
        ensures
            final(self).wf(),
            final(self)@ == old(self)@.remove(key),
            match r {
                Some(v) => old(self)@.contains_key(key) && v == old(self)@[key],
                None => !old(self)@.contains_key(key),
            },
    {
        match self.position(key) {
            Some(i) => {
                let _key: K = self.keys.remove(i);
                let was: V = self.vals.remove(i);
                proof {
                    let a = old(self).keys@;
                    let b = self.keys@;
                    assert(b =~= a.remove(i as int));
                    assert forall|m: int, n: int|
                        0 <= m < b.len() && 0 <= n < b.len() && m != n implies b[m] != b[n] by {
                        let m2 = if m < i { m } else { m + 1 };
                        let n2 = if n < i { n } else { n + 1 };
                        assert(b[m] == a[m2] && b[n] == a[n2]);
                    }
                    assert(self.wf());
                    assert forall|k: K| old(self)@.remove(key).contains_key(k)
                        == self@.contains_key(k) by {
                        if a.contains(k) && k != key {
                            let j = a.index_of(k);
                            assert(a[j] == k);
                            if j < i {
                                assert(b[j] == k);
                            } else {
                                assert(b[j - 1] == k);
                            }
                        }
                        if b.contains(k) {
                            let j = b.index_of(k);
                            assert(b[j] == k);
                            let j2 = if j < i { j } else { j + 1 };
                            assert(a[j2] == k);
                        }
                    }
                    assert forall|k: K| self@.contains_key(k) implies self@[k] == old(
                        self,
                    )@.remove(key)[k] by {
                        let j = b.index_of(k);
                        assert(b[j] == k);
                        let j2 = if j < i { j } else { j + 1 };
                        assert(a[j2] == k);
                        self.lemma_at(j);
                        old(self).lemma_at(j2);
                    }
                    assert(self@ =~= old(self)@.remove(key));
                }
                Some(was)
            },
            None => {
                assert(old(self)@.remove(key) =~= old(self)@);
                None
            },
        }
    }

    /// The key at position `i`.
    pub fn key_at(&self, i: usize) -> (r: K)
        requires
            self.wf(),
            i < self.key_seq().len(),
        ensures
            r == self.key_seq()[i as int],
            self@.contains_key(r),
    {
        proof {
            self.lemma_at(i as int);
        }
        self.keys[i]
    }

    /// The value at position `i`.
    pub fn value_at(&self, i: usize) -> (r: &V)
        requires
            self.wf(),
            i < self.key_seq().len(),
        ensures
            *r == self@[self.key_seq()[i as int]],
    {
        proof {
            self.lemma_at(i as int);
        }
        &self.vals[i]
    }
}

} // verus!
