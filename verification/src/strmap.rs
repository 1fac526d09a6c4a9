//! A map keyed by strings that keeps its keys in insertion order.
use vstd::prelude::*;

use crate::text::str_eq;

verus! {

/// A finite map from strings to values; keys are unique and kept in insertion order.
#[derive(Debug)]
pub struct StrMap<V> {
    keys: Vec<String>,
    vals: Vec<V>,
}

impl<V> StrMap<V> {
    /// The keys, in insertion order.
    pub closed spec fn key_seq(&self) -> Seq<Seq<char>> {
        Seq::new(self.keys@.len(), |i: int| self.keys@[i]@)
    }

    /// The values, in the order of their keys.
    pub closed spec fn val_seq(&self) -> Seq<V> {
        self.vals@
    }

    #[verifier::type_invariant]
    closed spec fn wf(&self) -> bool {
        &&& self.keys@.len() == self.vals@.len()
        &&& self.key_seq().no_duplicates()
    }

    /// Position of key `k` in `key_seq`.
    pub closed spec fn pos(&self, k: Seq<char>) -> int {
        self.key_seq().index_of(k)
    }

    proof fn lemma_facts(&self)
        requires
            self.wf(),
        ensures
            self.key_seq().len() == self.val_seq().len(),
            self.key_seq().no_duplicates(),
            self@.dom() == self.key_seq().to_set(),
            self@.dom().finite(),
            self@.len() == self.key_seq().len(),
            forall|i: int|
                0 <= i < self.key_seq().len() ==> self@.contains_key(#[trigger] self.key_seq()[i])
                    && self@[self.key_seq()[i]] == self.val_seq()[i] && self.pos(
                    self.key_seq()[i],
                ) == i,
    {
        let ks = self.key_seq();
        assert(self@.dom() =~= ks.to_set());
        ks.unique_seq_to_set();
        assert forall|i: int| 0 <= i < ks.len() implies self@.contains_key(#[trigger] ks[i])
            && self@[ks[i]] == self.val_seq()[i] && self.pos(ks[i]) == i by {
            assert(ks.contains(ks[i]));
            let j = ks.index_of(ks[i]);
            assert(0 <= j < ks.len() && ks[j] == ks[i]);
        }
    }

    /// Moves the contents out, leaving an empty map behind.
    fn take_parts(&mut self) -> (r: (Vec<String>, Vec<V>))
        ensures
            r.0@ == old(self).keys@,
            r.1@ == old(self).vals@,
            r.0@.len() == r.1@.len(),
            Seq::new(r.0@.len(), |i: int| r.0@[i]@).no_duplicates(),
    {
        proof {
            use_type_invariant(&*self);
        }
        let mut tmp = StrMap { keys: Vec::new(), vals: Vec::new() };
        proof {
            assert(tmp.key_seq() =~= Seq::<Seq<char>>::empty());
        }
        core::mem::swap(self, &mut tmp);
        let StrMap { keys, vals } = tmp;
        proof {
            assert(Seq::new(keys@.len(), |i: int| keys@[i]@) =~= old(self).key_seq());
        }
        (keys, vals)
    }

    /// An empty map.
    pub fn new() -> (m: Self)
        ensures
            m@ == Map::<Seq<char>, V>::empty(),
            m.key_seq() == Seq::<Seq<char>>::empty(),
    {
        let m = StrMap { keys: Vec::new(), vals: Vec::new() };
        assert(m@ =~= Map::<Seq<char>, V>::empty());
        assert(m.key_seq() =~= Seq::<Seq<char>>::empty());
        m
    }

    /// Number of entries; also gives the facts that tie the key order to the map.
    pub fn len(&self) -> (n: usize)
        ensures
            n == self@.len(),
            n == self.key_seq().len(),
            n == self.val_seq().len(),
            self.key_seq().no_duplicates(),
            self@.dom() == self.key_seq().to_set(),
            self@.dom().finite(),
            forall|i: int|
                0 <= i < self.key_seq().len() ==> self@.contains_key(#[trigger] self.key_seq()[i])
                    && self@[self.key_seq()[i]] == self.val_seq()[i] && self.pos(
                    self.key_seq()[i],
                ) == i,
    {
        proof {
            use_type_invariant(self);
            self.lemma_facts();
        }
        self.keys.len()
    }

    /// Whether the map has no entries.
    pub fn is_empty(&self) -> (b: bool)
        ensures
            b == (self@.len() == 0),
            b == (self@ == Map::<Seq<char>, V>::empty()),
    {
        let n = self.len();
        proof {
            if n != 0 {
                assert(self@.contains_key(self.key_seq()[0]));
            } else {
                assert(self@.dom() =~= Set::<Seq<char>>::empty());
                assert(self@ =~= Map::<Seq<char>, V>::empty());
            }
        }
        n == 0
    }

    /// The key at position `i`.
    pub fn key_at(&self, i: usize) -> (k: &String)
        requires
            i < self.key_seq().len(),
        ensures
            k@ == self.key_seq()[i as int],
    {
        proof {
            use_type_invariant(self);
        }
        &self.keys[i]
    }

    /// The value at position `i`.
    pub fn val_at(&self, i: usize) -> (v: &V)
        requires
            i < self.key_seq().len(),
        ensures
            *v == self.val_seq()[i as int],
            *v == self@[self.key_seq()[i as int]],
    {
        proof {
            use_type_invariant(self);
            self.lemma_facts();
        }
        &self.vals[i]
    }

    /// Position of key `k`, if present.
    #[verifier::loop_isolation(false)]
    pub fn find(&self, k: &str) -> (r: Option<usize>)
        ensures
            match r {
                Some(i) => i < self.key_seq().len() && self.key_seq()[i as int] == k@
                    && self@.contains_key(k@) && i == self.pos(k@),
                None => !self@.contains_key(k@),
            },
    {
        proof {
            use_type_invariant(self);
            self.lemma_facts();
        }
        let n = self.keys.len();
        for i in 0..n
            invariant
                n == self.key_seq().len(),
                forall|j: int| 0 <= j < i ==> self.key_seq()[j] != k@,
                forall|j: int| 0 <= j < n ==> self.key_seq()[j] == self.keys@[j]@,
        {
            if str_eq(self.keys[i].as_str(), k) {
                assert(self.key_seq()[i as int] == self.keys@[i as int]@);
                return Some(i);
            }
        }
        proof {
            if self@.contains_key(k@) {
                assert(self.key_seq().to_set().contains(k@));
                let j = choose|j: int| 0 <= j < self.key_seq().len() && self.key_seq()[j] == k@;
                assert(self.key_seq()[j] != k@);
            }
        }
        None
    }

    /// Whether `k` is a key.
    pub fn contains_key(&self, k: &str) -> (b: bool)
        ensures
            b == self@.contains_key(k@),
    {
        self.find(k).is_some()
    }

    /// The value under `k`, if any.
    pub fn get(&self, k: &str) -> (r: Option<&V>)
        ensures
            match r {
                Some(v) => self@.contains_key(k@) && *v == self@[k@],
                None => !self@.contains_key(k@),
            },
    {
        match self.find(k) {
            Some(i) => Some(self.val_at(i)),
            None => None,
        }
    }

    /// Inserts or replaces the value under `k`; returns the value it replaces.
    /// A new key goes to the end of the key order; a present key keeps its place.
    pub fn insert(&mut self, k: String, v: V) -> (old_v: Option<V>)
        ensures
            final(self)@ == old(self)@.insert(k@, v),
            old(self)@.contains_key(k@) ==> final(self).key_seq() == old(self).key_seq(),
            !old(self)@.contains_key(k@) ==> final(self).key_seq() == old(self).key_seq().push(
                k@,
            ),
            match old_v {
                Some(x) => old(self)@.contains_key(k@) && x == old(self)@[k@],
                None => !old(self)@.contains_key(k@),
            },
    {
        proof {
            use_type_invariant(&*self);
            self.lemma_facts();
        }
        let ghost old_map = self@;
        let ghost old_keys = self.key_seq();
        let ghost old_vals = self.val_seq();
        match self.find(k.as_str()) {
            Some(i) => {
                let (keys, mut vals) = self.take_parts();
                let ghost kv = keys@;
                let ghost vv = vals@;
                vals.push(v);
                let old = vals.swap_remove(i);
                proof {
                    assert(vals@ == vv.update(i as int, v));
                    assert(Seq::new(keys@.len(), |j: int| keys@[j]@) =~= old_keys);
                }
                *self = StrMap { keys, vals };
                proof {
                    assert(self.key_seq() =~= old_keys);
                    assert(self.val_seq() == old_vals.update(i as int, v));
                    self.lemma_facts();
                    assert forall|key: Seq<char>| #[trigger]
                        self@.contains_key(key) == old_map.insert(k@, v).contains_key(key) by {
                        if old_map.contains_key(key) {
                            assert(old_keys.to_set().contains(key));
                        }
                    }
                    assert forall|key: Seq<char>| #[trigger]
                        self@.contains_key(key) implies self@[key] == old_map.insert(
                        k@,
                        v,
                    )[key] by {
                        assert(self.key_seq().to_set().contains(key));
                        let j = choose|j: int|
                            0 <= j < self.key_seq().len() && self.key_seq()[j] == key;
                        assert(self@[self.key_seq()[j]] == self.val_seq()[j]);
                        if key != k@ {
                            assert(j != i);
                            assert(old_map[old_keys[j]] == old_vals[j]);
                        }
                    }
                    assert(self@ =~= old_map.insert(k@, v));
                }
                Some(old)
            },
            None => {
                let (mut keys, mut vals) = self.take_parts();
                proof {
                    assert(Seq::new(keys@.len(), |j: int| keys@[j]@) =~= old_keys);
                }
                keys.push(k);
                vals.push(v);
                proof {
                    let ks = Seq::new(keys@.len(), |j: int| keys@[j]@);
                    assert(ks =~= old_keys.push(k@));
                    assert(!old_keys.contains(k@)) by {
                        if old_keys.contains(k@) {
                            assert(old_keys.to_set().contains(k@));
                        }
                    }
                    assert(ks.no_duplicates());
                }
                *self = StrMap { keys, vals };
                proof {
                    assert(self.key_seq() =~= old_keys.push(k@));
                    self.lemma_facts();
                    let n = old_keys.len();
                    assert forall|key: Seq<char>| #[trigger]
                        self@.contains_key(key) == old_map.insert(k@, v).contains_key(key) by {
                        if old_map.contains_key(key) {
                            assert(old_keys.to_set().contains(key));
                            let j = choose|j: int| 0 <= j < n && old_keys[j] == key;
                            assert(self.key_seq()[j] == key);
                        }
                        if key == k@ {
                            assert(self.key_seq()[n as int] == key);
                        }
                        if self@.contains_key(key) {
                            assert(self.key_seq().to_set().contains(key));
                            let j = choose|j: int|
                                0 <= j < self.key_seq().len() && self.key_seq()[j] == key;
                            if j < n {
                                assert(old_keys[j] == key);
                            }
                        }
                    }
                    assert forall|key: Seq<char>| #[trigger]
                        self@.contains_key(key) implies self@[key] == old_map.insert(
                        k@,
                        v,
                    )[key] by {
                        assert(self.key_seq().to_set().contains(key));
                        let j = choose|j: int|
                            0 <= j < self.key_seq().len() && self.key_seq()[j] == key;
                        assert(self@[self.key_seq()[j]] == self.val_seq()[j]);
                        if j < n {
                            assert(old_keys[j] == key);
                            assert(old_map[old_keys[j]] == old_vals[j]);
                        }
                    }
                    assert(self@ =~= old_map.insert(k@, v));
                }
                None
            },
        }
    }

    /// Replaces the value at position `i` with what `f` makes of it; the keys and
    /// their order stay as they are.
    pub fn update_at<F: FnOnce(V) -> V>(&mut self, i: usize, f: F)
        requires
            i < old(self).key_seq().len(),
            f.requires((old(self).val_seq()[i as int],)),
        ensures
            final(self).key_seq() == old(self).key_seq(),
            final(self).val_seq().len() == old(self).val_seq().len(),
            f.ensures((old(self).val_seq()[i as int],), final(self).val_seq()[i as int]),
            forall|j: int|
                0 <= j < old(self).val_seq().len() && j != i ==> #[trigger] final(self).val_seq()[j]
                    == old(self).val_seq()[j],
            final(self)@ == old(self)@.insert(old(self).key_seq()[i as int], final(self).val_seq()[i as int]),
    {
        proof {
            use_type_invariant(&*self);
            self.lemma_facts();
        }
        let ghost old_map = self@;
        let ghost old_keys = self.key_seq();
        let ghost old_vals = self.val_seq();
        let (keys, mut vals) = self.take_parts();
        let v = vals.remove(i);
        let nv = f(v);
        vals.insert(i, nv);
        proof {
            assert(Seq::new(keys@.len(), |j: int| keys@[j]@) =~= old_keys);
        }
        *self = StrMap { keys, vals };
        proof {
            assert(self.key_seq() =~= old_keys);
            assert(self.val_seq() =~= old_vals.update(i as int, self.val_seq()[i as int]));
            self.lemma_facts();
            let k = old_keys[i as int];
            assert forall|key: Seq<char>| #[trigger] self@.contains_key(key) == old_map.insert(k, self.val_seq()[i as int]).contains_key(key) by {
                if old_map.contains_key(key) {
                    assert(old_keys.to_set().contains(key));
                }
                if self@.contains_key(key) {
                    assert(old_keys.to_set().contains(key));
                }
                assert(old_map.contains_key(k));
            }
            assert forall|key: Seq<char>| #[trigger] self@.contains_key(key) implies self@[key] == old_map.insert(k, self.val_seq()[i as int])[key] by {
                assert(old_keys.to_set().contains(key));
                let j = choose|j: int| 0 <= j < old_keys.len() && old_keys[j] == key;
                assert(self@[old_keys[j]] == self.val_seq()[j]);
                if j != i {
                    assert(old_map[old_keys[j]] == old_vals[j]);
                }
            }
            assert(self@ =~= old_map.insert(k, self.val_seq()[i as int]));
        }
    }

    /// Removes the entry under `k`, if any, and returns its value.
    /// The other keys keep their relative order.
    pub fn remove(&mut self, k: &str) -> (old_v: Option<V>)
        ensures
            final(self)@ == old(self)@.remove(k@),
            match old_v {
                Some(x) => old(self)@.contains_key(k@) && x == old(self)@[k@],
                None => !old(self)@.contains_key(k@),
            },
    {
        proof {
            use_type_invariant(&*self);
            self.lemma_facts();
        }
        let ghost old_map = self@;
        let ghost old_keys = self.key_seq();
        let ghost old_vals = self.val_seq();
        match self.find(k) {
            None => {
                proof {
                    assert(self@ =~= old_map.remove(k@));
                }
                None
            },
            Some(i) => {
                let (mut keys, mut vals) = self.take_parts();
                proof {
                    assert(Seq::new(keys@.len(), |j: int| keys@[j]@) =~= old_keys);
                }
                let _removed_key = keys.remove(i);
                let old = vals.remove(i);
                proof {
                    let ks = Seq::new(keys@.len(), |j: int| keys@[j]@);
                    assert(ks =~= old_keys.remove(i as int));
                    assert(ks.no_duplicates()) by {
                        assert forall|a: int, b: int|
                            0 <= a < ks.len() && 0 <= b < ks.len() && a != b implies ks[a]
                            != ks[b] by {
                            let a2 = if a < i { a } else { a + 1 };
                            let b2 = if b < i { b } else { b + 1 };
                            assert(ks[a] == old_keys[a2]);
                            assert(ks[b] == old_keys[b2]);
                        }
                    }
                }
                *self = StrMap { keys, vals };
                proof {
                    let ks = self.key_seq();
                    assert(ks =~= old_keys.remove(i as int));
                    assert(self.val_seq() == old_vals.remove(i as int));
                    self.lemma_facts();
                    assert forall|key: Seq<char>| #[trigger]
                        self@.contains_key(key) == old_map.remove(k@).contains_key(key) by {
                        if self@.contains_key(key) {
                            assert(ks.to_set().contains(key));
                            let j = choose|j: int| 0 <= j < ks.len() && ks[j] == key;
                            let j2 = if j < i { j } else { j + 1 };
                            assert(old_keys[j2] == key);
                            assert(j2 != i);
                        }
                        if old_map.remove(k@).contains_key(key) {
                            assert(old_keys.to_set().contains(key));
                            let j = choose|j: int| 0 <= j < old_keys.len() && old_keys[j] == key;
                            assert(j != i);
                            let j2 = if j < i { j } else { j - 1 };
                            assert(ks[j2] == key);
                        }
                    }
                    assert forall|key: Seq<char>| #[trigger]
                        self@.contains_key(key) implies self@[key] == old_map.remove(k@)[key] by {
                        assert(ks.to_set().contains(key));
                        let j = choose|j: int| 0 <= j < ks.len() && ks[j] == key;
                        let j2 = if j < i { j } else { j + 1 };
                        assert(old_keys[j2] == key);
                        assert(self@[ks[j]] == self.val_seq()[j]);
                        assert(old_map[old_keys[j2]] == old_vals[j2]);
                    }
                    assert(self@ =~= old_map.remove(k@));
                }
                Some(old)
            },
        }
    }
}

impl<V> View for StrMap<V> {
    type V = Map<Seq<char>, V>;

    closed spec fn view(&self) -> Map<Seq<char>, V> {
        Map::new(
            |k: Seq<char>| self.key_seq().contains(k),
            |k: Seq<char>| self.val_seq()[self.key_seq().index_of(k)],
        )
    }
}

impl<V: Clone> Clone for StrMap<V> {
    /// The same keys in the same order, each value cloned.
    fn clone(&self) -> (c: Self)
        ensures
            c.key_seq() == self.key_seq(),
            c.val_seq().len() == self.val_seq().len(),
            forall|i: int| 0 <= i < c.val_seq().len() ==> cloned::<V>(self.val_seq()[i], #[trigger] c.val_seq()[i]),
    {
        proof {
            use_type_invariant(self);
        }
        let n = self.keys.len();
        let mut keys: Vec<String> = Vec::new();
        let mut vals: Vec<V> = Vec::new();
        for i in 0..n
            invariant
                n == self.keys@.len(),
                n == self.vals@.len(),
                keys@.len() == i,
                vals@.len() == i,
                forall|j: int| 0 <= j < i ==> #[trigger] keys@[j]@ == self.keys@[j]@,
                forall|j: int| 0 <= j < i ==> cloned::<V>(self.vals@[j], #[trigger] vals@[j]),
        {
            keys.push(self.keys[i].clone());
            vals.push(self.vals[i].clone());
        }
        assert(Seq::new(keys@.len(), |i: int| keys@[i]@) =~= self.key_seq());
        let c = StrMap { keys, vals };
        assert(c.key_seq() =~= self.key_seq());
        c
    }
}

} // verus!
