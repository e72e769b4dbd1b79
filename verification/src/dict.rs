use vstd::prelude::*;

verus! {

/// A map from text keys to values that remembers the order in which keys were
/// first inserted. No key occurs twice.
#[derive(Debug, PartialEq)]
pub struct Dict<V> {
    entries: Vec<(String, V)>,
}

impl<V> Dict<V> {
    /// The keys, in insertion order.
    pub closed spec fn key_seq(self) -> Seq<Seq<char>> {
        self.entries@.map_values(|e: (String, V)| e.0@)
    }

    /// The values, in the order of their keys.
    pub closed spec fn value_seq(self) -> Seq<V> {
        self.entries@.map_values(|e: (String, V)| e.1)
    }

    /// No key occurs twice.
    #[verifier::type_invariant]
    pub closed spec fn wf(self) -> bool {
        forall|i: int, j: int|
            0 <= i < j < self.entries@.len() ==> #[trigger] self.entries@[i].0@
                != #[trigger] self.entries@[j].0@
    }

    pub closed spec fn has_key(self, k: Seq<char>) -> bool {
        exists|i: int| 0 <= i < self.entries@.len() && #[trigger] self.entries@[i].0@ == k
    }

    closed spec fn index_of(self, k: Seq<char>) -> int {
        choose|i: int| 0 <= i < self.entries@.len() && #[trigger] self.entries@[i].0@ == k
    }

    /// The dictionary as a mathematical map.
    pub closed spec fn as_map(self) -> Map<Seq<char>, V> {
        Map::new(|k: Seq<char>| self.has_key(k), |k: Seq<char>| self.entries@[self.index_of(k)].1)
    }

    proof fn lemma_index(self, i: int)
        requires
            self.wf(),
            0 <= i < self.entries@.len(),
        ensures
            self.as_map().contains_key(self.entries@[i].0@),
            self.index_of(self.entries@[i].0@) == i,
            self.as_map()[self.entries@[i].0@] == self.entries@[i].1,
    {
        let k = self.entries@[i].0@;
        assert(self.has_key(k));
        let j = self.index_of(k);
        if j != i {
            if j < i {
                assert(self.entries@[j].0@ != self.entries@[i].0@);
            } else {
                assert(self.entries@[i].0@ != self.entries@[j].0@);
            }
        }
    }

    /// Each value is smaller than the dictionary that holds it.
    pub proof fn lemma_value_decreases(self, i: int)
        requires
            0 <= i < self.value_seq().len(),
        ensures
            decreases_to!(self => self.value_seq()[i]),
    {
        assert(decreases_to!(self => self.entries));
        assert(decreases_to!(self.entries => self.entries@));
        assert(decreases_to!(self.entries@ => self.entries@[i]));
        assert(decreases_to!(self.entries@[i] => self.entries@[i].1));
    }

    /// The `i`-th key maps to the `i`-th value; the keys are exactly the map's keys.
    pub proof fn lemma_map_at(self, i: int)
        requires
            self.wf(),
            0 <= i < self.key_seq().len(),
        ensures
            self.key_seq().len() == self.value_seq().len(),
            self.as_map().contains_key(self.key_seq()[i]),
            self.as_map()[self.key_seq()[i]] == self.value_seq()[i],
    {
        self.lemma_index(i);
    }

    /// A key is in the map exactly when it is one of the keys.
    pub proof fn lemma_keys(self, k: Seq<char>)
        ensures
            self.as_map().contains_key(k) == self.key_seq().contains(k),
            self.key_seq().len() == self.value_seq().len(),
    {
        if self.as_map().contains_key(k) {
            let j = self.index_of(k);
            assert(self.key_seq()[j] == k);
        }
        if self.key_seq().contains(k) {
            let j = choose|j: int| 0 <= j < self.key_seq().len() && self.key_seq()[j] == k;
            assert(self.entries@[j].0@ == k);
        }
    }

    /// A read gives back the last write: after storing `value` under `key`,
    /// `key` holds `value` and every other key holds what it held before.
    pub proof fn law_read_after_write(before: Self, after: Self, key: Seq<char>, value: V, other: Seq<char>)
        requires
            after.as_map() == before.as_map().insert(key, value),
            other != key,
        ensures
            after.as_map().contains_key(key),
            after.as_map()[key] == value,
            after.as_map().contains_key(other) == before.as_map().contains_key(other),
            before.as_map().contains_key(other) ==> after.as_map()[other] == before.as_map()[other],
    {
    }

    /// An empty dictionary.
    pub fn new() -> (d: Self)
        ensures
            d.as_map() == Map::<Seq<char>, V>::empty(),
            d.key_seq() == Seq::<Seq<char>>::empty(),
    {
        let d = Dict { entries: Vec::new() };
        assert(d.as_map() =~= Map::<Seq<char>, V>::empty());
        assert(d.key_seq() =~= Seq::<Seq<char>>::empty());
        d
    }

    /// The number of keys.
    pub fn len(&self) -> (n: usize)
        ensures
            n == self.key_seq().len(),
    {
        self.entries.len()
    }

    /// Position of `key` among the keys, if present.
    fn position(&self, key: &String) -> (r: Option<usize>)
        ensures
            match r {
                Some(i) => i < self.entries@.len() && self.entries@[i as int].0@ == key@,
                None => !self.has_key(key@),
            },
    {
        let mut i: usize = 0;
        while i < self.entries.len()
            invariant
                i <= self.entries@.len(),
                forall|j: int| 0 <= j < i ==> #[trigger] self.entries@[j].0@ != key@,
            decreases self.entries@.len() - i,
        {
            if self.entries[i].0 == *key {
                return Some(i);
            }
            i = i + 1;
        }
        None
    }

    /// There are as many values as keys.
    pub proof fn lemma_lens(self)
        ensures
            self.key_seq().len() == self.value_seq().len(),
    {
    }

    /// The `i`-th key in insertion order.
    pub fn key_at(&self, i: usize) -> (k: &String)
        requires
            i < self.key_seq().len(),
        ensures
            k@ == self.key_seq()[i as int],
    {
        &self.entries[i].0
    }

    /// The value of the `i`-th key.
    pub fn value_at(&self, i: usize) -> (v: &V)
        requires
            i < self.key_seq().len(),
        ensures
            self.key_seq().len() == self.value_seq().len(),
            *v == self.value_seq()[i as int],
    {
        &self.entries[i].1
    }

    /// No key occurs twice in the key sequence.
    pub proof fn lemma_distinct(self)
        requires
            self.wf(),
        ensures
            forall|i: int, j: int|
                0 <= i < j < self.key_seq().len() ==> #[trigger] self.key_seq()[i]
                    != #[trigger] self.key_seq()[j],
    {
        assert forall|i: int, j: int|
            0 <= i < j < self.key_seq().len() implies #[trigger] self.key_seq()[i]
            != #[trigger] self.key_seq()[j] by {
            assert(self.entries@[i].0@ != self.entries@[j].0@);
        }
    }

    /// The value stored under `key`, if any.
    pub fn get(&self, key: &str) -> (r: Option<&V>)
        ensures
            match r {
                Some(v) => self.as_map().contains_key(key@) && *v == self.as_map()[key@],
                None => !self.as_map().contains_key(key@),
            },
    {
        proof {
            use_type_invariant(self);
        }
        let k = String::from_str(key);
        match self.position(&k) {
            Some(i) => {
                proof {
                    self.lemma_index(i as int);
                }
                Some(&self.entries[i].1)
            },
            None => None,
        }
    }

    /// Stores `value` under `key`, replacing an earlier value of that key.
    /// A new key goes after all others; an existing key keeps its place.
    pub fn insert(&mut self, key: String, value: V)
        ensures
            final(self).as_map() == old(self).as_map().insert(key@, value),
            old(self).as_map().contains_key(key@) ==> final(self).key_seq() == old(self).key_seq(),
            !old(self).as_map().contains_key(key@) ==> final(self).key_seq() == old(
                self,
            ).key_seq().push(key@),
            !old(self).as_map().contains_key(key@) ==> final(self).value_seq() == old(
                self,
            ).value_seq().push(value),
    {
        proof {
            use_type_invariant(&*self);
        }
        let ghost k = key@;
        match self.position(&key) {
            Some(i) => {
                let ghost pre = *self;
                let mut entries = Vec::new();
                std::mem::swap(&mut entries, &mut self.entries);
                entries.set(i, (key, value));
                let ghost post = Dict { entries };
                assert(post.wf()) by {
                    assert forall|a: int, b: int|
                        0 <= a < b < post.entries@.len() implies #[trigger] post.entries@[a].0@
                        != #[trigger] post.entries@[b].0@ by {
                        assert(pre.entries@[a].0@ != pre.entries@[b].0@);
                    }
                }
                proof {
                    pre.lemma_index(i as int);
                    assert forall|kk: Seq<char>| post.has_key(kk) == pre.has_key(kk) by {
                        if pre.has_key(kk) {
                            let j = pre.index_of(kk);
                            assert(post.entries@[j].0@ == kk);
                        }
                        if post.has_key(kk) {
                            let j = post.index_of(kk);
                            assert(pre.entries@[j].0@ == kk);
                        }
                    }
                    assert forall|kk: Seq<char>| #[trigger] post.has_key(kk) implies post.as_map()[kk]
                        == pre.as_map().insert(k, value)[kk] by {
                        let j = post.index_of(kk);
                        post.lemma_index(j);
                        if kk != k {
                            pre.lemma_index(j);
                        }
                    }
                    assert(post.as_map() =~= pre.as_map().insert(k, value));
                    assert(post.key_seq() =~= pre.key_seq());
                }
                self.entries = entries;
            },
            None => {
                let ghost pre = *self;
                let mut entries = Vec::new();
                std::mem::swap(&mut entries, &mut self.entries);
                entries.push((key, value));
                let ghost post = Dict { entries };
                let ghost n = pre.entries@.len() as int;
                assert(post.wf()) by {
                    assert forall|a: int, b: int|
                        0 <= a < b < post.entries@.len() implies #[trigger] post.entries@[a].0@
                        != #[trigger] post.entries@[b].0@ by {
                        if b < n {
                            assert(pre.entries@[a].0@ != pre.entries@[b].0@);
                        } else {
                            assert(pre.entries@[a] == post.entries@[a]);
                        }
                    }
                }
                proof {
                    post.lemma_index(n);
                    assert forall|kk: Seq<char>| #[trigger] post.has_key(kk) == (pre.has_key(kk) || kk == k) by {
                        if pre.has_key(kk) {
                            let j = pre.index_of(kk);
                            assert(post.entries@[j].0@ == kk);
                        }
                        if post.has_key(kk) && kk != k {
                            let j = post.index_of(kk);
                            assert(pre.entries@[j].0@ == kk);
                        }
                    }
                    assert forall|kk: Seq<char>| #[trigger] post.has_key(kk) implies post.as_map()[kk]
                        == pre.as_map().insert(k, value)[kk] by {
                        if kk != k {
                            let j = pre.index_of(kk);
                            pre.lemma_index(j);
                            post.lemma_index(j);
                        }
                    }
                    assert(post.as_map() =~= pre.as_map().insert(k, value));
                    assert(post.key_seq() =~= pre.key_seq().push(k));
                    assert(post.value_seq() =~= pre.value_seq().push(value));
                }
                self.entries = entries;
            },
        }
    }
}

} // verus!
