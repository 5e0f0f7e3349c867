//! A small map from texts to values, kept in the order in which the keys came.

use crate::text::texts;
use vstd::prelude::*;

verus! {

/// A finite map keyed by text. Keys are told apart by the text they hold, and
/// are kept in the order of their first insertion.
#[derive(Debug)]
pub struct StringMap<V> {
    keys: Vec<String>,
    values: Vec<V>,
}

impl<V> StringMap<V> {
    #[verifier::type_invariant]
    spec fn well_formed(&self) -> bool {
        &&& self.keys@.len() == self.values@.len()
        &&& forall|i: int, j: int|
            0 <= i < j < self.keys@.len() ==> (#[trigger] self.keys@[i])@ != (
            #[trigger] self.keys@[j])@
    }

    /// The keys, in the order of their first insertion.
    pub closed spec fn keys(&self) -> Seq<Seq<char>> {
        texts(self.keys@)
    }

    /// The values, each at the place of its key.
    pub closed spec fn values(&self) -> Seq<V> {
        self.values@
    }

    /// The place of a key among the keys.
    pub open spec fn index_of(&self, key: Seq<char>) -> int {
        choose|i: int| 0 <= i < self.keys().len() && self.keys()[i] == key
    }

    /// Tells whether the map holds the key.
    pub open spec fn has(&self, key: Seq<char>) -> bool {
        exists|i: int| 0 <= i < self.keys().len() && self.keys()[i] == key
    }

    /// The map as a mathematical map.
    pub open spec fn view(&self) -> Map<Seq<char>, V> {
        Map::new(|k: Seq<char>| self.has(k), |k: Seq<char>| self.values()[self.index_of(k)])
    }

    /// The empty map.
    pub fn new() -> (map: Self)
        ensures
            map@ == Map::<Seq<char>, V>::empty(),
            map.keys().len() == 0,
    {
        let map = StringMap { keys: Vec::new(), values: Vec::new() };
        assert(map@ =~= Map::<Seq<char>, V>::empty());
        map
    }

    /// The number of keys. Each key has its value, and no key stands twice.
    pub fn len(&self) -> (n: usize)
        ensures
            n == self.keys().len(),
            n == self.values().len(),
            self.keys().no_duplicates(),
    {
        proof {
            use_type_invariant(self);
            assert forall|i: int, j: int|
                0 <= i < self.keys().len() && 0 <= j < self.keys().len() && i
                    != j implies self.keys()[i] != self.keys()[j] by {
                if i < j {
                    assert(self.keys@[i]@ != self.keys@[j]@);
                } else {
                    assert(self.keys@[j]@ != self.keys@[i]@);
                }
            }
        }
        self.keys.len()
    }

    fn position(&self, key: &str) -> (r: Option<usize>)
        ensures
            match r {
                Some(i) => i < self.keys().len() && self.keys()[i as int] == key@ && self.has(key@)
                    && self.index_of(key@) == i,
                None => !self.has(key@),
            },
    {
        proof {
            use_type_invariant(self);
        }
        let mut i: usize = 0;
        while i < self.keys.len()
            invariant
                self.well_formed(),
                i <= self.keys@.len(),
                forall|j: int| 0 <= j < i ==> self.keys()[j] != key@,
            decreases self.keys@.len() - i,
        {
            if crate::text::same_text(self.keys[i].as_str(), key) {
                proof {
                    assert(self.keys()[i as int] == key@);
                    let k = self.index_of(key@);
                    if k != i {
                        if k < i {
                            assert(self.keys@[k]@ != self.keys@[i as int]@);
                        } else {
                            assert(self.keys@[i as int]@ != self.keys@[k]@);
                        }
                    }
                }
                return Some(i);
            }
            i += 1;
        }
        None
    }

    /// Tells whether the map holds the key.
    pub fn contains_key(&self, key: &str) -> (r: bool)
        ensures
            r == self@.contains_key(key@),
            r == self.has(key@),
    {
        self.position(key).is_some()
    }

    /// The value of a key, if the map holds it.
    pub fn get(&self, key: &str) -> (r: Option<&V>)
        ensures
            match r {
                Some(value) => self@.contains_key(key@) && *value == self@[key@],
                None => !self@.contains_key(key@),
            },
    {
        proof {
            use_type_invariant(self);
        }
        match self.position(key) {
            Some(i) => Some(&self.values[i]),
            None => None,
        }
    }

    /// Gives a key its value. A key that the map held keeps its place; a new
    /// key goes behind the others. The value that the key had comes back.
    pub fn insert(&mut self, key: String, value: V) -> (previous: Option<V>)
        ensures
            final(self)@ == old(self)@.insert(key@, value),
            match previous {
                Some(v) => old(self)@.contains_key(key@) && v == old(self)@[key@] && final(self).keys() == old(self).keys(),
                None => !old(self)@.contains_key(key@) && final(self).keys() == old(self).keys().push(key@),
            },
            forall|i: int|
                0 <= i < old(self).values().len() && old(self).keys()[i] != key@ ==> final(self).values()[i] == old(self).values()[i],
            final(self).values()[final(self).index_of(key@)] == value,
            final(self).has(key@),
    {
        proof {
            use_type_invariant(&*self);
        }
        let ghost before = *self;
        match self.position(key.as_str()) {
            Some(i) => {
                let mut taken = StringMap { keys: Vec::new(), values: Vec::new() };
                core::mem::swap(self, &mut taken);
                let StringMap { keys, mut values } = taken;
                values.push(value);
                let previous = values.swap_remove(i);
                *self = StringMap { keys, values };
                proof {
                    assert(self.keys() == before.keys());
                    assert forall|k: Seq<char>| self.has(k) == before.has(k) by {}
                    assert(self.values()[i as int] == value);
                    assert forall|k: Seq<char>| #[trigger]
                        self@.contains_key(k) implies self@[k] == before@.insert(key@, value)[k] by {
                        let j = self.index_of(k);
                        assert(j == before.index_of(k));
                        if k == key@ {
                        } else {
                            assert(j != i);
                        }
                    }
                    assert(self@ =~= before@.insert(key@, value));
                    assert(self.index_of(key@) == i);
                }
                Some(previous)
            },
            None => {
                let ghost n = self.keys@.len() as int;
                let mut taken = StringMap { keys: Vec::new(), values: Vec::new() };
                core::mem::swap(self, &mut taken);
                let StringMap { mut keys, mut values } = taken;
                keys.push(key);
                values.push(value);
                proof {
                    assert forall|i: int, j: int| 0 <= i < j < keys@.len() implies (
                    #[trigger] keys@[i])@ != (#[trigger] keys@[j])@ by {
                        if j == n {
                            if keys@[i]@ == key@ {
                                assert(before.keys()[i] == key@);
                                assert(before.has(key@));
                            }
                        } else {
                            assert(before.keys@[i]@ != before.keys@[j]@);
                        }
                    }
                }
                *self = StringMap { keys, values };
                proof {
                    assert(self.keys() =~= before.keys().push(key@));
                    assert(self.keys()[n] == key@);
                    assert(self.has(key@));
                    assert forall|k: Seq<char>| self.has(k) <==> (before.has(k) || k == key@) by {
                        if before.has(k) {
                            let j = before.index_of(k);
                            assert(self.keys()[j] == k);
                        }
                        if self.has(k) && k != key@ {
                            let j = self.index_of(k);
                            assert(j < n);
                            assert(before.keys()[j] == k);
                        }
                    }
                    assert forall|k: Seq<char>| #[trigger]
                        self@.contains_key(k) implies self@[k] == before@.insert(key@, value)[k] by {
                        let j = self.index_of(k);
                        if k == key@ {
                            if j != n {
                                assert(before.keys()[j] == k);
                                assert(before.has(k));
                            }
                        } else {
                            assert(j < n);
                            assert(before.keys()[j] == k);
                            let j2 = before.index_of(k);
                            if j != j2 {
                                if j < j2 {
                                    assert(before.keys@[j]@ != before.keys@[j2]@);
                                } else {
                                    assert(before.keys@[j2]@ != before.keys@[j]@);
                                }
                            }
                        }
                    }
                    assert(self@ =~= before@.insert(key@, value));
                    let j = self.index_of(key@);
                    if j != n {
                        assert(before.keys()[j] == key@);
                        assert(before.has(key@));
                    }
                }
                None
            },
        }
    }

    /// Takes a key out, with its value, which comes back. The keys that
    /// stay keep their order.
    pub fn remove(&mut self, key: &str) -> (previous: Option<V>)
        ensures
            final(self)@ == old(self)@.remove(key@),
            match previous {
                Some(v) => old(self)@.contains_key(key@) && v == old(self)@[key@] && final(self).keys() == old(self).keys().remove(old(self).index_of(key@)),
                None => !old(self)@.contains_key(key@) && final(self).keys() == old(self).keys(),
            },
            !final(self).has(key@),
    {
        proof {
            use_type_invariant(&*self);
        }
        let ghost before = *self;
        match self.position(key) {
            Some(i) => {
                let mut taken = StringMap { keys: Vec::new(), values: Vec::new() };
                core::mem::swap(self, &mut taken);
                let StringMap { mut keys, mut values } = taken;
                keys.remove(i);
                let previous = values.remove(i);
                proof {
                    assert forall|a: int, b: int| 0 <= a < b < keys@.len() implies (
                    #[trigger] keys@[a])@ != (#[trigger] keys@[b])@ by {
                        let a0 = if a < i { a } else { a + 1 };
                        let b0 = if b < i { b } else { b + 1 };
                        assert(keys@[a] == before.keys@[a0]);
                        assert(keys@[b] == before.keys@[b0]);
                        assert(before.keys@[a0]@ != before.keys@[b0]@);
                    }
                }
                *self = StringMap { keys, values };
                proof {
                    assert(self.keys() =~= before.keys().remove(i as int));
                    assert forall|k: Seq<char>| self.has(k) <==> (before.has(k) && k != key@) by {
                        if self.has(k) {
                            let j = self.index_of(k);
                            let j0 = if j < i { j } else { j + 1 };
                            assert(before.keys()[j0] == k);
                            if j0 < i {
                                assert(before.keys@[j0]@ != before.keys@[i as int]@);
                            } else {
                                assert(before.keys@[i as int]@ != before.keys@[j0]@);
                            }
                        }
                        if before.has(k) && k != key@ {
                            let j0 = before.index_of(k);
                            let j = if j0 < i { j0 } else { j0 - 1 };
                            assert(self.keys()[j] == k);
                        }
                    }
                    assert forall|k: Seq<char>| #[trigger]
                        self@.contains_key(k) implies self@[k] == before@.remove(key@)[k] by {
                        let j = self.index_of(k);
                        let j0 = if j < i { j } else { j + 1 };
                        assert(before.keys()[j0] == k);
                        let j1 = before.index_of(k);
                        if j0 != j1 {
                            if j0 < j1 {
                                assert(before.keys@[j0]@ != before.keys@[j1]@);
                            } else {
                                assert(before.keys@[j1]@ != before.keys@[j0]@);
                            }
                        }
                    }
                    assert(self@ =~= before@.remove(key@));
                }
                Some(previous)
            },
            None => {
                assert(self@ =~= before@.remove(key@));
                None
            },
        }
    }

    /// The key at a place.
    pub fn key_at(&self, i: usize) -> (key: &str)
        requires
            i < self.keys().len(),
        ensures
            key@ == self.keys()[i as int],
            self@.contains_key(key@),
    {
        assert(self.has(self.keys()[i as int]));
        self.keys[i].as_str()
    }

    /// The value at a place, which is the value of the key at that place.
    pub fn value_at(&self, i: usize) -> (value: &V)
        requires
            i < self.keys().len(),
        ensures
            *value == self.values()[i as int],
            *value == self@[self.keys()[i as int]],
    {
        proof {
            use_type_invariant(self);
            let k = self.keys()[i as int];
            assert(self.has(k));
            let j = self.index_of(k);
            if j != i {
                if j < i {
                    assert(self.keys@[j]@ != self.keys@[i as int]@);
                } else {
                    assert(self.keys@[i as int]@ != self.keys@[j]@);
                }
            }
        }
        &self.values[i]
    }
}

} // verus!
