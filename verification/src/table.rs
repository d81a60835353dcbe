//! Small string-keyed collections kept in insertion order.
//!
//! `StrSet` is a set of strings and `Table<V>` a map from strings to values.
//! Both hold their items in a vector in which no key occurs twice, so that
//! walking them is deterministic.

use vstd::prelude::*;
use crate::text::str_eq;

verus! {

/// A finite set of strings.
pub struct StrSet {
    items: Vec<String>,
}

impl StrSet {
    /// The members, in the order in which they were inserted.
    pub closed spec fn elems(&self) -> Seq<Seq<char>> {
        Seq::new(self.items@.len(), |i: int| self.items@[i]@)
    }

    /// No member is held twice.
    pub open spec fn wf(&self) -> bool {
        self.elems().no_duplicates()
    }

    pub open spec fn has(&self, s: Seq<char>) -> bool {
        self.elems().contains(s)
    }

    pub fn new() -> (r: StrSet)
        ensures
            r.elems() == Seq::<Seq<char>>::empty(),
            r.wf(),
    {
        let r = StrSet { items: Vec::new() };
        assert(r.elems() =~= Seq::<Seq<char>>::empty());
        r
    }

    pub fn len(&self) -> (n: usize)
        ensures
            n == self.elems().len(),
    {
        self.items.len()
    }

    pub fn is_empty(&self) -> (r: bool)
        ensures
            r == (self.elems().len() == 0),
            r == self@.is_empty(),
    {
        proof {
            if self.elems().len() > 0 {
                assert(self.elems().contains(self.elems()[0]));
                assert(self@.contains(self.elems()[0]));
            }
        }
        self.items.len() == 0
    }

    /// A well-formed set has as many members as its sequence holds.
    pub proof fn lemma_len(&self)
        requires
            self.wf(),
        ensures
            self@.finite(),
            self@.len() == self.elems().len(),
    {
        vstd::seq_lib::seq_to_set_is_finite(self.elems());
        self.elems().unique_seq_to_set();
    }

    /// The member at position `i`.
    pub fn get(&self, i: usize) -> (r: &String)
        requires
            i < self.elems().len(),
        ensures
            r@ == self.elems()[i as int],
    {
        &self.items[i]
    }

    fn position(&self, s: &str) -> (r: Option<usize>)
        ensures
            match r {
                Some(i) => i < self.elems().len() && self.elems()[i as int] == s@,
                None => !self.has(s@),
            },
    {
        let mut i: usize = 0;
        while i < self.items.len()
            invariant
                i <= self.items.len(),
                forall|j: int| 0 <= j < i ==> self.elems()[j] != s@,
            decreases self.items.len() - i,
        {
            if str_eq(self.items[i].as_str(), s) {
                return Some(i);
            }
            i += 1;
        }
        None
    }

    pub fn contains(&self, s: &str) -> (r: bool)
        ensures
            r == self.has(s@),
    {
        self.position(s).is_some()
    }

    /// Adds `s`; returns whether it was new.
    pub fn insert(&mut self, s: String) -> (added: bool)
        requires
            old(self).wf(),
        ensures
            final(self).wf(),
            added == !old(self).has(s@),
            final(self).elems() == if added {
                old(self).elems().push(s@)
            } else {
                old(self).elems()
            },
            final(self)@ == old(self)@.insert(s@),
    {
        if self.position(s.as_str()).is_some() {
            assert(self@.insert(s@) =~= self@);
            return false;
        }
        let ghost before = self.elems();
        self.items.push(s);
        assert(self.elems() =~= before.push(s@));
        proof {
            before.lemma_push_to_set_commute(s@);
        }
        true
    }

    /// Removes `s`; returns whether it was a member.
    pub fn remove(&mut self, s: &str) -> (removed: bool)
        requires
            old(self).wf(),
        ensures
            final(self).wf(),
            removed == old(self).has(s@),
            final(self).elems() == if removed {
                old(self).elems().remove(old(self).elems().index_of(s@))
            } else {
                old(self).elems()
            },
            final(self)@ == old(self)@.remove(s@),
    {
        match self.position(s) {
            None => {
                assert(self@.remove(s@) =~= self@);
                false
            },
            Some(i) => {
                let ghost before = self.elems();
                self.items.remove(i);
                assert(self.elems() =~= before.remove(i as int));
                assert(before.index_of(s@) == i as int);
                assert forall|t: Seq<char>| t != s@ implies (self.has(t) <==> before.contains(t)) by {
                    if before.contains(t) {
                        let j = before.index_of(t);
                        if j < i {
                            assert(self.elems()[j] == t);
                        } else {
                            assert(self.elems()[j - 1] == t);
                        }
                    }
                }
                assert(!self.has(s@));
                assert(self@ =~= before.to_set().remove(s@));
                true
            },
        }
    }
}

impl View for StrSet {
    type V = Set<Seq<char>>;

    open spec fn view(&self) -> Set<Seq<char>> {
        self.elems().to_set()
    }
}

/// A finite map from strings to values of `V`.
pub struct Table<V> {
    keys: Vec<String>,
    vals: Vec<V>,
}

impl<V> Table<V> {
    /// The keys, in the order in which they were first inserted.
    pub closed spec fn keys(&self) -> Seq<Seq<char>> {
        Seq::new(self.keys@.len(), |i: int| self.keys@[i]@)
    }

    /// The values, each at the position of its key.
    pub closed spec fn vals(&self) -> Seq<V> {
        self.vals@
    }

    /// Every key has one value and no key occurs twice.
    pub open spec fn wf(&self) -> bool {
        &&& self.keys().len() == self.vals().len()
        &&& self.keys().no_duplicates()
    }

    pub open spec fn has(&self, k: Seq<char>) -> bool {
        self.keys().contains(k)
    }

    /// The value stored under `k`, where `k` is a key.
    pub open spec fn at(&self, k: Seq<char>) -> V {
        self.vals()[self.keys().index_of(k)]
    }

    /// The table as a mathematical map.
    pub open spec fn map(&self) -> Map<Seq<char>, V> {
        Map::new(|k: Seq<char>| self.has(k), |k: Seq<char>| self.at(k))
    }

    /// In a well-formed table the key at position `i` leads to the value at position `i`.
    pub proof fn lemma_at_position(&self, i: int)
        requires
            self.wf(),
            0 <= i < self.keys().len(),
        ensures
            self.has(self.keys()[i]),
            self.keys().index_of(self.keys()[i]) == i,
            self.at(self.keys()[i]) == self.vals()[i],
    {
        let k = self.keys()[i];
        assert(self.keys().contains(k));
        let j = self.keys().index_of(k);
        assert(self.keys()[j] == k);
    }

    /// A table that differs from a well-formed one in the value at position
    /// `i` only is the same map with that one value replaced.
    pub proof fn lemma_changed_at(&self, before: Table<V>, i: int)
        requires
            before.wf(),
            0 <= i < before.keys().len(),
            self.keys() == before.keys(),
            self.vals() == before.vals().update(i, self.vals()[i]),
        ensures
            self.wf(),
            self.map() == before.map().insert(before.keys()[i], self.vals()[i]),
    {
        let k = before.keys()[i];
        before.lemma_at_position(i);
        assert forall|q: Seq<char>| self.has(q) implies #[trigger] self.at(q) == before.map().insert(
            k,
            self.vals()[i],
        )[q] by {
            let j = self.keys().index_of(q);
            before.lemma_at_position(j);
        }
        assert(self.map() =~= before.map().insert(k, self.vals()[i]));
    }

    /// The keys of a well-formed table are those of its map, and they are finitely many.
    pub proof fn lemma_keys_are_domain(&self)
        ensures
            self.keys().to_set() == self.map().dom(),
            self.map().dom().finite(),
    {
        assert(self.keys().to_set() =~= self.map().dom());
        vstd::seq_lib::seq_to_set_is_finite(self.keys());
    }

    pub fn new() -> (r: Table<V>)
        ensures
            r.wf(),
            r.keys() == Seq::<Seq<char>>::empty(),
            r.vals() == Seq::<V>::empty(),
            r.map() == Map::<Seq<char>, V>::empty(),
    {
        let r = Table { keys: Vec::new(), vals: Vec::new() };
        assert(r.keys() =~= Seq::<Seq<char>>::empty());
        assert(r.map() =~= Map::<Seq<char>, V>::empty());
        r
    }

    pub fn len(&self) -> (n: usize)
        ensures
            n == self.keys().len(),
    {
        self.keys.len()
    }

    /// The key at position `i`.
    pub fn key_at(&self, i: usize) -> (r: &String)
        requires
            i < self.keys().len(),
        ensures
            r@ == self.keys()[i as int],
    {
        &self.keys[i]
    }

    /// The value at position `i`.
    pub fn value_at(&self, i: usize) -> (r: &V)
        requires
            self.wf(),
            i < self.keys().len(),
        ensures
            *r == self.vals()[i as int],
    {
        &self.vals[i]
    }

    /// The value at position `i`, to be changed in place.
    pub fn value_at_mut(&mut self, i: usize) -> (r: &mut V)
        requires
            old(self).wf(),
            i < old(self).keys().len(),
        ensures
            *r == old(self).vals()[i as int],
            final(self).wf(),
            final(self).keys() == old(self).keys(),
            final(self).vals() == old(self).vals().update(i as int, *final(r)),
    {
        &mut self.vals[i]
    }

    /// Replaces the value at position `i`.
    pub fn set_value_at(&mut self, i: usize, v: V)
        requires
            old(self).wf(),
            i < old(self).keys().len(),
        ensures
            final(self).wf(),
            final(self).keys() == old(self).keys(),
            final(self).vals() == old(self).vals().update(i as int, v),
            final(self).map() == old(self).map().insert(old(self).keys()[i as int], v),
    {
        let ghost before = *self;
        self.vals[i] = v;
        assert(self.keys() =~= before.keys());
        proof {
            let k = before.keys()[i as int];
            before.lemma_at_position(i as int);
            assert forall|q: Seq<char>| self.has(q) implies #[trigger] self.at(q) == before.map().insert(
                k,
                v,
            )[q] by {
                let j = self.keys().index_of(q);
                before.lemma_at_position(j);
            }
            assert(self.map() =~= before.map().insert(k, v));
        }
    }

    /// The position of `k` among the keys.
    pub fn position(&self, k: &str) -> (r: Option<usize>)
        ensures
            match r {
                Some(i) => i < self.keys().len() && self.keys()[i as int] == k@,
                None => !self.has(k@),
            },
    {
        let mut i: usize = 0;
        while i < self.keys.len()
            invariant
                i <= self.keys.len(),
                forall|j: int| 0 <= j < i ==> self.keys()[j] != k@,
            decreases self.keys.len() - i,
        {
            if str_eq(self.keys[i].as_str(), k) {
                return Some(i);
            }
            i += 1;
        }
        None
    }

    pub fn contains_key(&self, k: &str) -> (r: bool)
        ensures
            r == self.has(k@),
    {
        self.position(k).is_some()
    }

    /// The value stored under `k`, if any.
    pub fn get(&self, k: &str) -> (r: Option<&V>)
        requires
            self.wf(),
        ensures
            match r {
                Some(v) => self.has(k@) && *v == self.at(k@),
                None => !self.has(k@),
            },
    {
        match self.position(k) {
            Some(i) => {
                proof {
                    self.lemma_at_position(i as int);
                }
                Some(&self.vals[i])
            },
            None => None,
        }
    }

    /// Stores `v` under `k`. A key already present keeps its position and
    /// hands back its former value; a new key goes to the end.
    pub fn insert(&mut self, k: String, v: V) -> (prev: Option<V>)
        requires
            old(self).wf(),
        ensures
            final(self).wf(),
            final(self).map() == old(self).map().insert(k@, v),
            prev == if old(self).has(k@) {
                Some(old(self).at(k@))
            } else {
                None
            },
            final(self).keys() == if old(self).has(k@) {
                old(self).keys()
            } else {
                old(self).keys().push(k@)
            },
            final(self).vals() == if old(self).has(k@) {
                old(self).vals().update(old(self).keys().index_of(k@), v)
            } else {
                old(self).vals().push(v)
            },
    {
        let ghost before = *self;
        match self.position(k.as_str()) {
            Some(i) => {
                proof {
                    before.lemma_at_position(i as int);
                }
                let mut held = v;
                std::mem::swap(&mut self.vals[i], &mut held);
                assert(self.keys() =~= before.keys());
                assert(self.vals() =~= before.vals().update(i as int, v));
                proof {
                    assert forall|q: Seq<char>| self.has(q) implies #[trigger] self.at(q)
                        == before.map().insert(k@, v)[q] by {
                        let j = self.keys().index_of(q);
                        before.lemma_at_position(j);
                    }
                    assert(self.map() =~= before.map().insert(k@, v));
                }
                Some(held)
            },
            None => {
                self.keys.push(k);
                self.vals.push(v);
                assert(self.keys() =~= before.keys().push(k@));
                proof {
                    let n = before.keys().len() as int;
                    assert(self.keys()[n] == k@);
                    assert forall|q: Seq<char>| #[trigger] self.has(q) <==> (q == k@ || before.has(q)) by {
                        if before.has(q) {
                            let j = before.keys().index_of(q);
                            assert(self.keys()[j] == q);
                        }
                    }
                    assert forall|q: Seq<char>| self.has(q) implies #[trigger] self.at(q)
                        == before.map().insert(k@, v)[q] by {
                        let j = self.keys().index_of(q);
                        if j < n {
                            before.lemma_at_position(j);
                        }
                    }
                    assert(self.map() =~= before.map().insert(k@, v));
                }
                None
            },
        }
    }

    /// Takes out the entry at position `i`; the entries behind it move up.
    pub fn remove_at(&mut self, i: usize) -> (v: V)
        requires
            old(self).wf(),
            i < old(self).keys().len(),
        ensures
            final(self).wf(),
            v == old(self).vals()[i as int],
            final(self).keys() == old(self).keys().remove(i as int),
            final(self).vals() == old(self).vals().remove(i as int),
            final(self).map() == old(self).map().remove(old(self).keys()[i as int]),
    {
        let ghost before = *self;
        self.keys.remove(i);
        let v = self.vals.remove(i);
        assert(self.keys() =~= before.keys().remove(i as int));
        proof {
            let k = before.keys()[i as int];
            before.lemma_at_position(i as int);
            assert forall|q: Seq<char>| #[trigger] self.has(q) <==> (q != k && before.has(q)) by {
                if q != k && before.has(q) {
                    let j = before.keys().index_of(q);
                    if j < i {
                        assert(self.keys()[j] == q);
                    } else {
                        assert(self.keys()[j - 1] == q);
                    }
                }
            }
            assert forall|q: Seq<char>| self.has(q) implies #[trigger] self.at(q) == before.at(q) by {
                let j = self.keys().index_of(q);
                if j < i {
                    before.lemma_at_position(j);
                } else {
                    before.lemma_at_position(j + 1);
                }
            }
            assert(self.map() =~= before.map().remove(k));
        }
        v
    }

    /// Takes out the entry under `k`, if there is one.
    pub fn remove(&mut self, k: &str) -> (prev: Option<V>)
        requires
            old(self).wf(),
        ensures
            final(self).wf(),
            final(self).map() == old(self).map().remove(k@),
            prev == if old(self).has(k@) {
                Some(old(self).at(k@))
            } else {
                None
            },
            final(self).keys() == if old(self).has(k@) {
                old(self).keys().remove(old(self).keys().index_of(k@))
            } else {
                old(self).keys()
            },
            final(self).vals() == if old(self).has(k@) {
                old(self).vals().remove(old(self).keys().index_of(k@))
            } else {
                old(self).vals()
            },
    {
        match self.position(k) {
            Some(i) => {
                proof {
                    self.lemma_at_position(i as int);
                }
                Some(self.remove_at(i))
            },
            None => {
                assert(self.map() =~= self.map().remove(k@));
                None
            },
        }
    }
}

} // verus!
