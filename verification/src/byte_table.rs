//! A table keyed by byte strings: the store behind the gateway's
//! key-value service. Each key occurs at most once; records keep the order
//! in which their keys were first inserted.
use vstd::prelude::*;

verus! {

/// Whether two byte strings are equal.
pub fn bytes_eq(a: &Vec<u8>, b: &Vec<u8>) -> (r: bool)
    ensures
        r == (a@ == b@),
{
    if a.len() != b.len() {
        return false;
    }
    let mut i: usize = 0;
    while i < a.len()
        invariant
            i <= a@.len(),
            a@.len() == b@.len(),
            forall|j: int| 0 <= j < i ==> a@[j] == b@[j],
        decreases a@.len() - i,
    {
        if a[i] != b[i] {
            return false;
        }
        i = i + 1;
    }
    proof {
        assert(a@ =~= b@);
    }
    true
}

pub struct ByteTable<V> {
    entries: Vec<(Vec<u8>, V)>,
}

/// In a duplicate-free sequence, the index of an element is where it is.
pub proof fn lemma_index_of_unique<A>(s: Seq<A>, i: int)
    requires
        s.no_duplicates(),
        0 <= i < s.len(),
    ensures
        s.contains(s[i]),
        s.index_of(s[i]) == i,
{
    assert(s.contains(s[i]));
    let f = s.index_of(s[i]);
    assert(0 <= f < s.len() && s[f] == s[i]);
}

impl<V> ByteTable<V> {
    /// No key occurs twice.
    #[verifier::type_invariant]
    pub closed spec fn keys_distinct(self) -> bool {
        forall|i: int, j: int|
            0 <= i < self.entries@.len() && 0 <= j < self.entries@.len() && i != j
                ==> #[trigger] self.entries@[i].0@ != #[trigger] self.entries@[j].0@
    }

    /// The keys, in table order.
    pub closed spec fn key_seq(&self) -> Seq<Seq<u8>> {
        self.entries@.map_values(|e: (Vec<u8>, V)| e.0@)
    }

    /// The records, in table order.
    pub closed spec fn value_seq(&self) -> Seq<V> {
        self.entries@.map_values(|e: (Vec<u8>, V)| e.1)
    }

    pub open spec fn has(&self, k: Seq<u8>) -> bool {
        self.key_seq().contains(k)
    }

    /// The record stored under `k` (meaningful when `has(k)`).
    pub open spec fn at(&self, k: Seq<u8>) -> V {
        self.value_seq()[self.key_seq().index_of(k)]
    }

    pub open spec fn len_spec(&self) -> nat {
        self.key_seq().len()
    }

    /// The table as a map from key to record.
    pub open spec fn map(&self) -> Map<Seq<u8>, V> {
        Map::new(|k: Seq<u8>| self.has(k), |k: Seq<u8>| self.at(k))
    }

    proof fn lemma_shape(&self)
        requires
            self.keys_distinct(),
        ensures
            self.key_seq().len() == self.value_seq().len(),
            self.key_seq().no_duplicates(),
    {
        assert forall|i: int, j: int|
            0 <= i < self.key_seq().len() && 0 <= j < self.key_seq().len() && i != j
            implies self.key_seq()[i] != self.key_seq()[j] by {
            assert(self.entries@[i].0@ != self.entries@[j].0@);
        }
    }

    /// Key and record sequences are equally long.
    pub proof fn lemma_lengths(&self)
        ensures
            self.key_seq().len() == self.value_seq().len(),
    {
    }

    /// The record at position `i` is the one stored under the key there.
    pub proof fn lemma_key_value(&self, i: int)
        requires
            self.key_seq().no_duplicates(),
            0 <= i < self.key_seq().len(),
        ensures
            self.map().contains_key(self.key_seq()[i]),
            self.map()[self.key_seq()[i]] == self.value_seq()[i],
    {
        crate::table::lemma_index_of_unique(self.key_seq(), i);
    }

    /// A stored key sits at some position, with its record beside it.
    pub proof fn lemma_at_index(&self, k: Seq<u8>)
        requires
            self.map().contains_key(k),
        ensures
            exists|i: int|
                0 <= i < self.key_seq().len() && self.key_seq()[i] == k && self.value_seq()[i]
                    == self.map()[k],
    {
        assert(self.key_seq().contains(k));
        let i = self.key_seq().index_of(k);
        assert(0 <= i < self.key_seq().len() && self.key_seq()[i] == k);
        assert(self.value_seq()[i] == self.map()[k]);
    }

    pub fn new() -> (t: Self)
        ensures
            t.key_seq().no_duplicates(),
            t.map() == Map::<Seq<u8>, V>::empty(),
            t.key_seq() == Seq::<Seq<u8>>::empty(),
            t.value_seq() == Seq::<V>::empty(),
    {
        let t = ByteTable { entries: Vec::new() };
        proof {
            assert(t.key_seq() =~= Seq::<Seq<u8>>::empty());
            assert(t.value_seq() =~= Seq::<V>::empty());
            assert(t.map() =~= Map::<Seq<u8>, V>::empty());
        }
        t
    }

    pub fn len(&self) -> (n: usize)
        ensures
            n == self.key_seq().len(),
            n == self.value_seq().len(),
    {
        self.entries.len()
    }

    /// The key and record at position `i` of the table order.
    pub fn entry(&self, i: usize) -> (r: (&Vec<u8>, &V))
        requires
            i < self.key_seq().len(),
        ensures
            r.0@ == self.key_seq()[i as int],
            *r.1 == self.value_seq()[i as int],
    {
        let e = &self.entries[i];
        (&e.0, &e.1)
    }

    /// Position of `key`, if present.
    pub fn position(&self, key: &Vec<u8>) -> (r: Option<usize>)
        ensures
            match r {
                Some(i) => i < self.key_seq().len() && self.key_seq()[i as int] == key@
                    && self.key_seq().index_of(key@) == i,
                None => !self.has(key@),
            },
    {
        proof {
            use_type_invariant(self);
            self.lemma_shape();
        }
        let mut i: usize = 0;
        while i < self.entries.len()
            invariant
                i <= self.entries@.len(),
                self.key_seq().len() == self.entries@.len(),
                self.key_seq().no_duplicates(),
                forall|j: int| 0 <= j < i ==> self.key_seq()[j] != key@,
            decreases self.entries@.len() - i,
        {
            if bytes_eq(&self.entries[i].0, key) {
                proof {
                    let ks = self.key_seq();
                    assert(ks[i as int] == key@);
                    assert(ks.contains(key@));
                    let f = ks.index_of(key@);
                    assert(0 <= f < ks.len() && ks[f] == key@);
                    assert(ks.no_duplicates());
                    assert(f == i);
                }
                return Some(i);
            }
            i = i + 1;
        }
        None
    }

    pub fn contains_key(&self, key: &Vec<u8>) -> (r: bool)
        ensures
            r == self.has(key@),
    {
        match self.position(key) {
            Some(_) => true,
            None => false,
        }
    }

    pub fn get(&self, key: &Vec<u8>) -> (r: Option<&V>)
        ensures
            match r {
                Some(v) => self.has(key@) && *v == self.at(key@),
                None => !self.has(key@),
            },
    {
        proof {
            use_type_invariant(self);
            self.lemma_shape();
        }
        match self.position(key) {
            Some(i) => {
                proof {
                    assert(self.key_seq().contains(key@));
                }
                Some(&self.entries[i].1)
            },
            None => None,
        }
    }

    /// Stores `v` under `key`: in place when the key is present, at the end
    /// otherwise.
    pub fn insert(&mut self, key: Vec<u8>, v: V)
        ensures
            old(self).has(key@) ==> {
                let i = old(self).key_seq().index_of(key@);
                &&& final(self).key_seq() == old(self).key_seq()
                &&& final(self).value_seq() == old(self).value_seq().update(i, v)
            },
            !old(self).has(key@) ==> {
                &&& final(self).key_seq() == old(self).key_seq().push(key@)
                &&& final(self).value_seq() == old(self).value_seq().push(v)
            },
            final(self).map() == old(self).map().insert(key@, v),
            final(self).key_seq().no_duplicates(),
    {
        proof {
            use_type_invariant(&*self);
            self.lemma_shape();
        }
        let ghost k = key@;
        let pos = self.position(&key);
        let mut es: Vec<(Vec<u8>, V)> = Vec::new();
        std::mem::swap(&mut es, &mut self.entries);
        let ghost old_es = es@;
        match pos {
            Some(i) => {
                es.set(i, (key, v));
                proof {
                    assert forall|a: int, b: int|
                        0 <= a < es@.len() && 0 <= b < es@.len() && a != b
                        implies #[trigger] es@[a].0@ != #[trigger] es@[b].0@ by {
                        assert(old_es[a].0@ != old_es[b].0@);
                        assert(old(self).key_seq()[i as int] == k);
                    }
                }
            },
            None => {
                es.push((key, v));
                proof {
                    assert forall|a: int, b: int|
                        0 <= a < es@.len() && 0 <= b < es@.len() && a != b
                        implies #[trigger] es@[a].0@ != #[trigger] es@[b].0@ by {
                        if a < old_es.len() && b < old_es.len() {
                            assert(old_es[a].0@ != old_es[b].0@);
                        } else if a < old_es.len() {
                            assert(old(self).key_seq()[a] == es@[a].0@);
                        } else {
                            assert(old(self).key_seq()[b] == es@[b].0@);
                        }
                    }
                }
            },
        }
        self.entries = es;
        proof {
            if pos is Some {
                let i = pos->0;
                assert(self.key_seq() =~= old(self).key_seq());
                assert(self.value_seq() =~= old(self).value_seq().update(i as int, v));
            } else {
                assert(self.key_seq() =~= old(self).key_seq().push(k));
                assert(self.value_seq() =~= old(self).value_seq().push(v));
            }
            use_type_invariant(&*self);
            self.lemma_shape();
            assert forall|x: Seq<u8>| #[trigger] self.has(x) == (old(self).has(x) || x == k) by {
                if self.has(x) {
                    let j = choose|j: int| 0 <= j < self.key_seq().len() && self.key_seq()[j] == x;
                    if x != k {
                        assert(old(self).key_seq()[j] == x);
                    }
                }
                if old(self).has(x) {
                    let j = choose|j: int| 0 <= j < old(self).key_seq().len() && old(self).key_seq()[j] == x;
                    assert(self.key_seq()[j] == x);
                }
                if x == k {
                    if pos is Some {
                        assert(self.key_seq()[pos->0 as int] == x);
                    } else {
                        assert(self.key_seq()[self.key_seq().len() - 1] == x);
                    }
                }
            }
            assert forall|x: Seq<u8>| #[trigger] self.has(x) implies self.at(x) == (if x == k { v } else { old(self).at(x) }) by {
                let j = choose|j: int| 0 <= j < self.key_seq().len() && self.key_seq()[j] == x;
                crate::table::lemma_index_of_unique(self.key_seq(), j);
                if x != k {
                    assert(old(self).key_seq()[j] == x);
                    crate::table::lemma_index_of_unique(old(self).key_seq(), j);
                } else if pos is Some {
                    crate::table::lemma_index_of_unique(old(self).key_seq(), pos->0 as int);
                }
            }
            assert(self.map() =~= old(self).map().insert(k, v));
        }
    }

    /// Removes the record stored under `key`, if any; the others keep
    /// their order.
    pub fn remove(&mut self, key: &Vec<u8>) -> (r: Option<V>)
        ensures
            old(self).has(key@) ==> {
                let i = old(self).key_seq().index_of(key@);
                &&& r == Some(old(self).value_seq()[i])
                &&& final(self).key_seq() == old(self).key_seq().remove(i)
                &&& final(self).value_seq() == old(self).value_seq().remove(i)
            },
            !old(self).has(key@) ==> r is None && final(self).key_seq() == old(self).key_seq()
                && final(self).value_seq() == old(self).value_seq(),
            final(self).map() == old(self).map().remove(key@),
            old(self).has(key@) ==> r == Some(old(self).map()[key@]),
            final(self).key_seq().no_duplicates(),
    {
        proof {
            use_type_invariant(&*self);
            self.lemma_shape();
        }
        match self.position(key) {
            Some(i) => {
                let mut es: Vec<(Vec<u8>, V)> = Vec::new();
                std::mem::swap(&mut es, &mut self.entries);
                let ghost old_es = es@;
                let e = es.remove(i);
                proof {
                    assert forall|a: int, b: int|
                        0 <= a < es@.len() && 0 <= b < es@.len() && a != b
                        implies #[trigger] es@[a].0@ != #[trigger] es@[b].0@ by {
                        let oa = if a < i { a } else { a + 1 };
                        let ob = if b < i { b } else { b + 1 };
                        assert(es@[a] == old_es[oa]);
                        assert(es@[b] == old_es[ob]);
                        assert(old_es[oa].0@ != old_es[ob].0@);
                    }
                }
                self.entries = es;
                proof {
                    assert(self.key_seq() =~= old(self).key_seq().remove(i as int));
                    assert(self.value_seq() =~= old(self).value_seq().remove(i as int));
                    use_type_invariant(&*self);
                    self.lemma_shape();
                    let ks = old(self).key_seq();
                    assert forall|x: Seq<u8>| #[trigger] self.has(x) == (old(self).has(x) && x != key@) by {
                        if self.has(x) {
                            let j = choose|j: int| 0 <= j < self.key_seq().len() && self.key_seq()[j] == x;
                            let oj = if j < i { j } else { j + 1 };
                            assert(ks[oj] == x);
                            assert(ks[i as int] == key@);
                            assert(oj != i);
                        }
                        if old(self).has(x) && x != key@ {
                            let j = choose|j: int| 0 <= j < ks.len() && ks[j] == x;
                            assert(j != i);
                            if j < i {
                                assert(self.key_seq()[j] == x);
                            } else {
                                assert(self.key_seq()[j - 1] == x);
                            }
                        }
                    }
                    assert forall|x: Seq<u8>| #[trigger] self.has(x) implies self.at(x) == old(self).at(x) by {
                        let j = choose|j: int| 0 <= j < self.key_seq().len() && self.key_seq()[j] == x;
                        let oj = if j < i { j } else { j + 1 };
                        crate::table::lemma_index_of_unique(self.key_seq(), j);
                        assert(ks[oj] == x);
                        crate::table::lemma_index_of_unique(ks, oj);
                    }
                    assert(self.map() =~= old(self).map().remove(key@));
                }
                Some(e.1)
            },
            None => {
                proof {
                    assert(self.map() =~= old(self).map().remove(key@));
                    use_type_invariant(&*self);
                    self.lemma_shape();
                }
                None
            },
        }
    }
}

} // verus!
