use vstd::prelude::*;

verus! {

/// A mapping from names to values that keeps names unique and remembers the
/// order in which names were first inserted.
pub struct Registry<V> {
    entries: Vec<(String, V)>,
}

impl<V> Registry<V> {
    /// The names, in insertion order.
    pub closed spec fn keys(&self) -> Seq<Seq<char>> {
        self.entries@.map_values(|e: (String, V)| e.0@)
    }

    /// The values, in the order of their names.
    pub closed spec fn values(&self) -> Seq<V> {
        self.entries@.map_values(|e: (String, V)| e.1)
    }

    /// Names are unique.
    pub closed spec fn wf(&self) -> bool {
        self.keys().no_duplicates()
    }

    /// The mapping from each name to its value.
    pub closed spec fn view(&self) -> Map<Seq<char>, V> {
        Map::new(
            |k: Seq<char>| self.keys().contains(k),
            |k: Seq<char>| self.values()[self.keys().index_of(k)],
        )
    }

    /// Under well-formedness the name at each position maps to the value at
    /// that position, and the mapping holds the listed names and no others.
    pub proof fn lemma_view(&self)
        requires
            self.wf(),
        ensures
            self.keys().len() == self.values().len(),
            forall|i: int|
                0 <= i < self.keys().len() ==> self@.contains_key(#[trigger] self.keys()[i])
                    && self@[self.keys()[i]] == self.values()[i],
            forall|k: Seq<char>| #[trigger] self@.contains_key(k) <==> self.keys().contains(k),
    {
        assert forall|i: int| 0 <= i < self.keys().len() implies self@.contains_key(
            #[trigger] self.keys()[i],
        ) && self@[self.keys()[i]] == self.values()[i] by {
            let k = self.keys()[i];
            assert(self.keys().contains(k));
            let j = self.keys().index_of(k);
            assert(0 <= j < self.keys().len() && self.keys()[j] == k);
        }
    }

    /// An empty registry.
    pub fn new() -> (r: Self)
        ensures
            r.wf(),
            r@ == Map::<Seq<char>, V>::empty(),
            r.keys().len() == 0,
    {
        let r = Registry { entries: Vec::new() };
        assert(r@ =~= Map::<Seq<char>, V>::empty());
        r
    }

    /// The number of names.
    pub fn len(&self) -> (r: usize)
        ensures
            r == self.keys().len(),
            r == self.values().len(),
    {
        self.entries.len()
    }

    /// The name at position `i`.
    pub fn key_at(&self, i: usize) -> (r: &String)
        requires
            i < self.keys().len(),
        ensures
            r@ == self.keys()[i as int],
    {
        &self.entries[i].0
    }

    /// The value at position `i`.
    pub fn value_at(&self, i: usize) -> (r: &V)
        requires
            i < self.values().len(),
        ensures
            *r == self.values()[i as int],
    {
        &self.entries[i].1
    }

    /// The position of `name`, if it is present.
    fn position(&self, name: &str) -> (r: Option<usize>)
        requires
            self.wf(),
        ensures
            match r {
                Some(i) => i < self.keys().len() && self.keys()[i as int] == name@,
                None => !self.keys().contains(name@),
            },
    {
        let wanted = name.to_owned();
        let mut i: usize = 0;
        while i < self.entries.len()
            invariant
                wanted@ == name@,
                i <= self.entries@.len(),
                forall|j: int| 0 <= j < i ==> self.keys()[j] != name@,
            decreases self.entries@.len() - i,
        {
            if self.entries[i].0 == wanted {
                return Some(i);
            }
            i = i + 1;
        }
        None
    }

    /// The value stored under `name`.
    pub fn get(&self, name: &str) -> (r: Option<&V>)
        requires
            self.wf(),
        ensures
            match r {
                Some(v) => self@.contains_key(name@) && *v == self@[name@],
                None => !self@.contains_key(name@),
            },
    {
        proof {
            self.lemma_view();
        }
        match self.position(name) {
            Some(i) => Some(&self.entries[i].1),
            None => None,
        }
    }

    /// Whether `name` is present.
    pub fn contains_key(&self, name: &str) -> (r: bool)
        requires
            self.wf(),
        ensures
            r == self@.contains_key(name@),
    {
        proof {
            self.lemma_view();
        }
        self.position(name).is_some()
    }

    /// Stores `value` under `name`, replacing any value stored there before.
    /// A new name goes last; a known name keeps its place.
    pub fn insert(&mut self, name: String, value: V)
        requires
            old(self).wf(),
        ensures
            final(self).wf(),
            final(self)@ == old(self)@.insert(name@, value),
            old(self).keys().contains(name@) ==> final(self).keys() == old(self).keys(),
            !old(self).keys().contains(name@) ==> final(self).keys() == old(self).keys().push(
                name@,
            ),
    {
        proof {
            self.lemma_view();
        }
        let ghost k = name@;
        match self.position(name.as_str()) {
            Some(i) => {
                self.entries.set(i, (name, value));
                assert(self.keys() =~= old(self).keys());
                assert(self.keys()[i as int] == k);
                assert(self.values() =~= old(self).values().update(i as int, value));
            },
            None => {
                self.entries.push((name, value));
                assert(self.keys() =~= old(self).keys().push(k));
                assert(self.keys()[self.keys().len() - 1] == k);
                assert(self.values() =~= old(self).values().push(value));
            },
        }
        proof {
            self.lemma_view();
            old(self).lemma_view();
            assert forall|kk: Seq<char>| #[trigger] self@.contains_key(kk) implies self@[kk]
                == old(self)@.insert(k, value)[kk] && (kk == k || old(self)@.contains_key(kk)) by {
                let j = choose|j: int| 0 <= j < self.keys().len() && self.keys()[j] == kk;
                if kk != k {
                    assert(old(self).keys()[j] == kk);
                }
            }
            assert forall|kk: Seq<char>| #[trigger] old(self)@.contains_key(kk) implies self@.contains_key(kk) by {
                let j = choose|j: int| 0 <= j < old(self).keys().len() && old(self).keys()[j] == kk;
                assert(self.keys()[j] == kk);
            }
            assert(self@ =~= old(self)@.insert(k, value));
        }
    }

    /// Removes `name` and its value, if present; the other names keep their order.
    pub fn remove(&mut self, name: &str)
        requires
            old(self).wf(),
        ensures
            final(self).wf(),
            final(self)@ == old(self)@.remove(name@),
    {
        proof {
            self.lemma_view();
        }
        match self.position(name) {
            Some(i) => {
                let _ = self.entries.remove(i);
                assert(self.keys() =~= old(self).keys().remove(i as int));
                assert(self.values() =~= old(self).values().remove(i as int));
                proof {
                    self.lemma_view();
                    old(self).lemma_view();
                    assert forall|kk: Seq<char>| #[trigger] self@.contains_key(kk) implies old(
                        self,
                    )@.contains_key(kk) && kk != name@ && self@[kk] == old(self)@[kk] by {
                        let j = choose|j: int| 0 <= j < self.keys().len() && self.keys()[j] == kk;
                        if j < i {
                            assert(old(self).keys()[j] == kk);
                        } else {
                            assert(old(self).keys()[j + 1] == kk);
                        }
                    }
                    assert forall|kk: Seq<char>| #[trigger] old(self)@.contains_key(kk) && kk
                        != name@ implies self@.contains_key(kk) by {
                        let j = choose|j: int|
                            0 <= j < old(self).keys().len() && old(self).keys()[j] == kk;
                        if j < i {
                            assert(self.keys()[j] == kk);
                        } else {
                            assert(self.keys()[j - 1] == kk);
                        }
                    }
                    assert(self@ =~= old(self)@.remove(name@));
                }
            },
            None => {
                assert(self@ =~= old(self)@.remove(name@));
            },
        }
    }
}

} // verus!
