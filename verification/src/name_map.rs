//! A small map from names to values that keeps its entries in the order in
//! which the names were first inserted. No name occurs twice.
use vstd::prelude::*;

verus! {

/// An insertion-ordered map keyed by text.
#[derive(Debug)]
pub struct NameMap<V> {
    keys: Vec<String>,
    values: Vec<V>,
}

impl<V> NameMap<V> {
    /// The names, in insertion order.
    pub closed spec fn keys(&self) -> Seq<Seq<char>> {
        self.keys.deep_view()
    }

    /// The values, each at the position of its name.
    pub closed spec fn values(&self) -> Seq<V> {
        self.values@
    }

    /// The invariant: one value per name, and no name twice.
    pub open spec fn wf(&self) -> bool {
        &&& self.keys().len() == self.values().len()
        &&& self.keys().no_duplicates()
    }

    /// The value stored under `key`.
    pub open spec fn lookup(&self, key: Seq<char>) -> Option<V> {
        if self.keys().contains(key) {
            Some(self.values()[self.keys().index_of(key)])
        } else {
            None
        }
    }

    /// The map as a mathematical map, the order forgotten.
    pub open spec fn as_map(&self) -> Map<Seq<char>, V> {
        Map::new(
            |k: Seq<char>| self.keys().contains(k),
            |k: Seq<char>| self.values()[self.keys().index_of(k)],
        )
    }

    /// The map holds no more entries than a `usize` can count.
    pub proof fn lemma_len_fits(&self)
        ensures
            self.keys().len() <= usize::MAX,
    {
        assert(self.keys.deep_view().len() == self.keys.len());
    }

    /// An empty map.
    pub fn new() -> (r: NameMap<V>)
        ensures
            r.wf(),
            r.keys() == Seq::<Seq<char>>::empty(),
            r.values() == Seq::<V>::empty(),
    {
        let r = NameMap { keys: Vec::new(), values: Vec::new() };
        assert(r.keys() =~= Seq::<Seq<char>>::empty());
        r
    }

    /// The number of entries.
    pub fn len(&self) -> (r: usize)
        requires
            self.wf(),
        ensures
            r == self.keys().len(),
            r == self.values().len(),
    {
        self.keys.len()
    }

    /// The position of `key`, if it is present.
    pub fn find(&self, key: &String) -> (r: Option<usize>)
        requires
            self.wf(),
        ensures
            match r {
                Some(i) => i < self.keys().len() && self.keys()[i as int] == key@
                    && self.keys().index_of(key@) == i,
                None => !self.keys().contains(key@),
            },
    {
        let mut i: usize = 0;
        while i < self.keys.len()
            invariant
                self.wf(),
                i <= self.keys.len(),
                forall|j: int| 0 <= j < i ==> self.keys()[j] != key@,
            decreases self.keys.len() - i,
        {
            if self.keys[i] == *key {
                assert(self.keys()[i as int] == key@);
                return Some(i);
            }
            i += 1;
        }
        None
    }

    /// The name at position `i`.
    pub fn key(&self, i: usize) -> (r: &String)
        requires
            self.wf(),
            i < self.keys().len(),
        ensures
            r@ == self.keys()[i as int],
    {
        &self.keys[i]
    }

    /// The value at position `i`.
    pub fn value(&self, i: usize) -> (r: &V)
        requires
            self.wf(),
            i < self.values().len(),
        ensures
            *r == self.values()[i as int],
    {
        &self.values[i]
    }

    /// Replaces the value at position `i`.
    pub fn set_value(&mut self, i: usize, value: V)
        requires
            old(self).wf(),
            i < old(self).values().len(),
        ensures
            final(self).wf(),
            final(self).keys() == old(self).keys(),
            final(self).values() == old(self).values().update(i as int, value),
    {
        self.values[i] = value;
    }

    /// Stores `value` under `key`: in place of the value that was there, or
    /// as a new last entry.
    pub fn insert(&mut self, key: String, value: V)
        requires
            old(self).wf(),
        ensures
            final(self).wf(),
            final(self).as_map() == old(self).as_map().insert(key@, value),
            old(self).keys().contains(key@) ==> final(self).keys() == old(self).keys()
                && final(self).values() == old(self).values().update(
                old(self).keys().index_of(key@),
                value,
            ),
            !old(self).keys().contains(key@) ==> final(self).keys() == old(self).keys().push(key@)
                && final(self).values() == old(self).values().push(value),
    {
        match self.find(&key) {
            Some(i) => {
                self.values[i] = value;
            },
            None => {
                self.keys.push(key);
                self.values.push(value);
                assert(self.keys() =~= old(self).keys().push(key@));
            },
        }
        proof {
            let before = old(self).keys();
            let after = self.keys();
            assert forall|k: Seq<char>| after.contains(k) <==> before.contains(k) || k == key@ by {
                if before.contains(k) {
                    let i = before.index_of(k);
                    assert(after[i] == k);
                }
                if k == key@ && !before.contains(key@) {
                    assert(after[before.len() as int] == k);
                }
            }
            assert forall|k: Seq<char>| before.contains(k) implies after.index_of(k)
                == before.index_of(k) by {
                let i = before.index_of(k);
                assert(after[i] == k);
            }
            if !before.contains(key@) {
                assert(after[before.len() as int] == key@);
                assert(after.index_of(key@) == before.len());
            }
            assert(self.as_map() =~= old(self).as_map().insert(key@, value));
        }
    }

    /// Removes every entry.
    pub fn clear(&mut self)
        ensures
            final(self).wf(),
            final(self).keys() == Seq::<Seq<char>>::empty(),
            final(self).values() == Seq::<V>::empty(),
    {
        self.keys.clear();
        self.values.clear();
        assert(self.keys() =~= Seq::<Seq<char>>::empty());
    }
}

impl<V: Copy> NameMap<V> {
    /// The value stored under `key`.
    pub fn get(&self, key: &String) -> (r: Option<V>)
        requires
            self.wf(),
        ensures
            r == self.lookup(key@),
    {
        match self.find(key) {
            Some(i) => Some(self.values[i]),
            None => None,
        }
    }
}

} // verus!
