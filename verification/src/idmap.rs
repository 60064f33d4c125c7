//! A small map keyed by identifier strings that remembers the order in
//! which its keys first arrived.
//!
//! Of a hash map with string keys the verifier learns neither what a lookup
//! finds nor how many entries an insertion leaves. So the entries are kept
//! in two parallel vectors, and what a map promises, that no key occurs
//! twice, is the invariant of the type.

use vstd::prelude::*;
use vstd::string::*;

verus! {

/// A map from identifiers to values. Keys are unique; `order` lists them as
/// they were first inserted.
pub struct IdMap<V> {
    keys: Vec<String>,
    values: Vec<V>,
}

impl<V> IdMap<V> {
    /// Keys and values run in parallel, and no key occurs twice.
    pub closed spec fn wf(&self) -> bool {
        &&& self.keys.len() == self.values.len()
        &&& forall|i: int, j: int|
            0 <= i < j < self.keys.len() ==> self.keys[i]@ != self.keys[j]@
    }

    /// The keys, in the order of their first insertion.
    pub closed spec fn order(&self) -> Seq<Seq<char>> {
        Seq::new(self.keys.len() as nat, |i: int| self.keys[i]@)
    }

    /// The values, each at the position of its key in `order`.
    pub closed spec fn values(&self) -> Seq<V> {
        self.values@
    }

    /// Whether `id` is a key.
    pub open spec fn has(&self, id: Seq<char>) -> bool {
        self.order().contains(id)
    }

    /// The value stored under `id`; meaningful where `has(id)`.
    pub open spec fn value_of(&self, id: Seq<char>) -> V {
        self.values()[self.order().index_of(id)]
    }

    /// The map as a mathematical map.
    pub open spec fn view(&self) -> Map<Seq<char>, V> {
        Map::new(|id: Seq<char>| self.has(id), |id: Seq<char>| self.value_of(id))
    }

    /// In a well-formed map every key has one value, and no key occurs
    /// twice.
    pub proof fn lemma_shape(&self)
        requires
            self.wf(),
        ensures
            self.order().len() == self.values().len(),
            self.order().no_duplicates(),
    {
    }

    /// An empty map.
    pub fn new() -> (r: Self)
        ensures
            r.wf(),
            r.order() == Seq::<Seq<char>>::empty(),
            r.values() == Seq::<V>::empty(),
    {
        let r = IdMap { keys: Vec::new(), values: Vec::new() };
        assert(r.order() =~= Seq::<Seq<char>>::empty());
        r
    }

    /// The number of keys.
    pub fn len(&self) -> (r: usize)
        requires
            self.wf(),
        ensures
            r == self.order().len(),
            r == self.values().len(),
    {
        self.keys.len()
    }

    /// Finds the position of `id` among the keys.
    pub fn index_of(&self, id: &str) -> (r: Option<usize>)
        requires
            self.wf(),
        ensures
            r is Some <==> self.has(id@),
            r matches Some(i) ==> i < self.order().len() && self.order()[i as int] == id@
                && self.order().index_of(id@) == i,
    {
        let mut i: usize = 0;
        while i < self.keys.len()
            invariant
                self.wf(),
                i <= self.keys.len(),
                forall|j: int| 0 <= j < i ==> self.keys[j]@ != id@,
            decreases self.keys.len() - i,
        {
            if *self.keys[i].as_str() == *id {
                proof {
                    assert(self.order()[i as int] == id@);
                    assert(self.order().contains(id@));
                    let k = self.order().index_of(id@);
                    assert(self.order()[k] == id@);
                    if k < i {
                        assert(self.keys[k]@ != self.keys[i as int]@);
                    }
                    if i < k {
                        assert(self.keys[i as int]@ != self.keys[k]@);
                    }
                }
                return Some(i);
            }
            i = i + 1;
        }
        proof {
            if self.order().contains(id@) {
                let k = self.order().index_of(id@);
                assert(self.order()[k] == id@);
                assert(false);
            }
        }
        None
    }

    /// The value stored under `id`, if any.
    pub fn get(&self, id: &str) -> (r: Option<&V>)
        requires
            self.wf(),
        ensures
            r is Some <==> self.has(id@),
            r matches Some(v) ==> *v == self.value_of(id@),
    {
        match self.index_of(id) {
            Some(i) => Some(&self.values[i]),
            None => None,
        }
    }

    /// The key at position `i`.
    pub fn key_at(&self, i: usize) -> (r: &String)
        requires
            self.wf(),
            i < self.order().len(),
        ensures
            r@ == self.order()[i as int],
    {
        &self.keys[i]
    }

    /// The value at position `i`.
    pub fn value_at(&self, i: usize) -> (r: &V)
        requires
            self.wf(),
            i < self.values().len(),
        ensures
            *r == self.values()[i as int],
    {
        &self.values[i]
    }

    /// Stores `value` under `id`. A new key goes to the end of `order`; a
    /// known key keeps its place and has its value replaced.
    pub fn insert(&mut self, id: String, value: V)
        requires
            old(self).wf(),
        ensures
            final(self).wf(),
            old(self).has(id@)
                ==> final(self).order() == old(self).order()
                && final(self).values() == old(self).values().update(old(self).order().index_of(id@), value),
            !old(self).has(id@)
                ==> final(self).order() == old(self).order().push(id@)
                && final(self).values() == old(self).values().push(value),
            final(self)@ == old(self)@.insert(id@, value),
    {
        let ghost before = *self;
        match self.index_of(id.as_str()) {
            Some(i) => {
                self.values.set(i, value);
                proof {
                    assert(self.order() =~= before.order());
                    assert(self.values() =~= before.values().update(i as int, value));
                    Self::lemma_view_after_update(before, *self, id@, value);
                }
            },
            None => {
                proof {
                    assert forall|j: int| 0 <= j < before.keys.len() implies before.keys[j]@
                        != id@ by {
                        assert(before.order()[j] == before.keys[j]@);
                    }
                }
                self.keys.push(id);
                self.values.push(value);
                proof {
                    assert(self.order() =~= before.order().push(id@));
                    Self::lemma_view_after_push(before, *self, id@, value);
                }
            },
        }
    }

    /// Replaces the value at position `i` and keeps every key.
    pub fn set_at(&mut self, i: usize, value: V)
        requires
            old(self).wf(),
            i < old(self).values().len(),
        ensures
            final(self).wf(),
            final(self).order() == old(self).order(),
            final(self).values() == old(self).values().update(i as int, value),
    {
        let ghost before = *self;
        self.values.set(i, value);
        proof {
            assert(self.order() =~= before.order());
        }
    }

    /// Puts `value` at position `i` and hands back what stood there.
    pub fn replace_at(&mut self, i: usize, value: V) -> (previous: V)
        requires
            old(self).wf(),
            i < old(self).values().len(),
        ensures
            final(self).wf(),
            final(self).order() == old(self).order(),
            final(self).values() == old(self).values().update(i as int, value),
            previous == old(self).values()[i as int],
    {
        let ghost before = *self;
        let mut slot = value;
        self.values.set_and_swap(i, &mut slot);
        proof {
            assert(self.order() =~= before.order());
        }
        slot
    }

    proof fn lemma_view_after_update(before: Self, after: Self, id: Seq<char>, value: V)
        requires
            before.order().no_duplicates(),
            before.order().len() == before.values().len(),
            before.has(id),
            after.order() == before.order(),
            after.values() == before.values().update(before.order().index_of(id), value),
        ensures
            after@ == before@.insert(id, value),
    {
        let k = before.order().index_of(id);
        assert(before.order()[k] == id);
        assert forall|other: Seq<char>| #[trigger] after.has(other) implies after.value_of(other)
            == before@.insert(id, value)[other] by {
            let j = before.order().index_of(other);
            assert(before.order()[j] == other);
            if other != id {
                assert(j != k);
            }
        }
        assert(after@ =~= before@.insert(id, value));
    }

    proof fn lemma_view_after_push(before: Self, after: Self, id: Seq<char>, value: V)
        requires
            before.order().no_duplicates(),
            before.order().len() == before.values().len(),
            !before.has(id),
            after.order() == before.order().push(id),
            after.values() == before.values().push(value),
        ensures
            after@ == before@.insert(id, value),
    {
        let n = before.order().len() as int;
        assert(after.order()[n] == id);
        assert(after.order().contains(id));
        assert forall|other: Seq<char>| after.has(other) <==> (before.has(other) || other
            == id) by {
            if after.has(other) {
                let j = after.order().index_of(other);
                assert(after.order()[j] == other);
                if j < n {
                    assert(before.order()[j] == other);
                }
            }
            if before.has(other) {
                let j = before.order().index_of(other);
                assert(before.order()[j] == other);
                assert(after.order()[j] == other);
            }
        }
        assert forall|other: Seq<char>| #[trigger] after.has(other) implies after.value_of(other)
            == before@.insert(id, value)[other] by {
            let j = after.order().index_of(other);
            assert(after.order()[j] == other);
            if other == id {
                if j < n {
                    assert(before.order()[j] == id);
                }
                assert(j == n);
            } else {
                assert(j < n);
                assert(before.order()[j] == other);
                let j2 = before.order().index_of(other);
                assert(before.order()[j2] == other);
                assert(after.order()[j2] == other);
                assert(j2 == j) by {
                    if j2 != j {
                        assert(before.order()[j2] == before.order()[j]);
                    }
                }
            }
        }
        assert(after@ =~= before@.insert(id, value));
    }
}

} // verus!
