//! A small map that keeps its keys in the order of their first insertion.

use vstd::prelude::*;

verus! {

/// A key of an [`OrderedMap`]: a value that stands for its model.
pub trait Key: Sized {
    type Model;

    spec fn model(&self) -> Self::Model;

    /// Whether the two keys stand for the same model.
    fn matches(&self, other: &Self) -> (r: bool)
        ensures
            r == (self.model() == other.model()),
    ;

    /// Another key for the same model.
    fn duplicate(&self) -> (r: Self)
        ensures
            r.model() == self.model(),
    ;
}

impl Key for String {
    type Model = Seq<char>;

    open spec fn model(&self) -> Seq<char> {
        self@
    }

    fn matches(&self, other: &Self) -> (r: bool) {
        *self == *other
    }

    fn duplicate(&self) -> (r: Self) {
        self.clone()
    }
}

/// Position `i` of `entries` holds the key `k`.
pub open spec fn holds_at<K: Key, V>(entries: Seq<(K, V)>, k: K::Model, i: int) -> bool {
    0 <= i < entries.len() && entries[i].0.model() == k
}

/// No two positions hold the same key.
pub open spec fn distinct_keys<K: Key, V>(entries: Seq<(K, V)>) -> bool {
    forall|i: int, j: int|
        #![trigger entries[i], entries[j]]
        0 <= i < j < entries.len() ==> entries[i].0.model() != entries[j].0.model()
}

/// What a list of entries with distinct keys maps each key to.
pub open spec fn map_of<K: Key, V>(entries: Seq<(K, V)>) -> Map<K::Model, V> {
    Map::new(
        |k: K::Model| exists|i: int| holds_at(entries, k, i),
        |k: K::Model| entries[choose|i: int| holds_at(entries, k, i)].1,
    )
}

/// The entry at `i` is what the map holds under its key.
pub proof fn lemma_entry<K: Key, V>(entries: Seq<(K, V)>, i: int)
    requires
        distinct_keys(entries),
        0 <= i < entries.len(),
    ensures
        map_of(entries).dom().contains(entries[i].0.model()),
        map_of(entries)[entries[i].0.model()] == entries[i].1,
{
    let k = entries[i].0.model();
    assert(holds_at(entries, k, i));
    let j = choose|j: int| holds_at(entries, k, j);
    assert(holds_at(entries, k, j));
    if j < i {
        assert(entries[j].0.model() != entries[i].0.model());
    } else if i < j {
        assert(entries[i].0.model() != entries[j].0.model());
    }
}

/// Map from keys to values that keeps the order of first insertion.
#[derive(Debug)]
pub struct OrderedMap<K: Key, V> {
    entries: Vec<(K, V)>,
}

impl<K: Key, V> View for OrderedMap<K, V> {
    type V = Map<K::Model, V>;

    open spec fn view(&self) -> Map<K::Model, V> {
        map_of(self.entries())
    }
}

impl<K: Key, V: Clone> Clone for OrderedMap<K, V> {
    fn clone(&self) -> (r: Self)
        ensures
            r.entries().len() == self.entries().len(),
            forall|i: int|
                #![trigger r.entries()[i]]
                0 <= i < r.entries().len() ==> {
                    &&& r.entries()[i].0.model() == self.entries()[i].0.model()
                    &&& cloned::<V>(self.entries()[i].1, r.entries()[i].1)
                },
    {
        proof {
            use_type_invariant(self);
        }
        let mut entries: Vec<(K, V)> = Vec::new();
        let mut i: usize = 0;
        while i < self.entries.len()
            invariant
                i <= self.entries@.len(),
                entries@.len() == i,
                distinct_keys(self.entries@),
                forall|j: int|
                    #![trigger entries@[j]]
                    0 <= j < i ==> {
                        &&& entries@[j].0.model() == self.entries@[j].0.model()
                        &&& cloned::<V>(self.entries@[j].1, entries@[j].1)
                    },
            decreases self.entries.len() - i,
        {
            let key = self.entries[i].0.duplicate();
            let value = self.entries[i].1.clone();
            entries.push((key, value));
            i = i + 1;
        }
        assert(distinct_keys(entries@)) by {
            assert forall|a: int, b: int|
                #![trigger entries@[a], entries@[b]]
                0 <= a < b < entries@.len() implies entries@[a].0.model() != entries@[b].0.model() by {
                assert(self.entries@[a].0.model() != self.entries@[b].0.model());
            }
        }
        OrderedMap { entries }
    }
}

impl<K: Key, V> OrderedMap<K, V> {
    #[verifier::type_invariant]
    spec fn keys_differ(self) -> bool {
        distinct_keys(self.entries@)
    }

    /// The entries in the order of the first insertion of their keys.
    pub closed spec fn entries(&self) -> Seq<(K, V)> {
        self.entries@
    }

    pub fn new() -> (m: Self)
        ensures
            m.entries() == Seq::<(K, V)>::empty(),
            m@ == Map::<K::Model, V>::empty(),
    {
        let m = OrderedMap { entries: Vec::new() };
        assert(m@ =~= Map::<K::Model, V>::empty());
        m
    }

    /// The number of keys. No key occurs twice among the entries.
    pub fn len(&self) -> (n: usize)
        ensures
            n == self.entries().len(),
            distinct_keys(self.entries()),
    {
        proof {
            use_type_invariant(self);
        }
        self.entries.len()
    }

    pub fn is_empty(&self) -> (r: bool)
        ensures
            r == (self.entries().len() == 0),
            r == (self@ == Map::<K::Model, V>::empty()),
    {
        proof {
            if self.entries@.len() > 0 {
                use_type_invariant(self);
                lemma_entry(self.entries@, 0);
            } else {
                assert(self@ =~= Map::<K::Model, V>::empty());
            }
        }
        self.entries.len() == 0
    }

    fn position(&self, key: &K) -> (r: Option<usize>)
        ensures
            match r {
                Some(i) => holds_at(self.entries(), key.model(), i as int),
                None => forall|i: int| !holds_at(self.entries(), key.model(), i),
            },
    {
        let mut i: usize = 0;
        while i < self.entries.len()
            invariant
                i <= self.entries@.len(),
                forall|j: int| 0 <= j < i ==> !holds_at(self.entries@, key.model(), j),
            decreases self.entries.len() - i,
        {
            if self.entries[i].0.matches(key) {
                return Some(i);
            }
            i = i + 1;
        }
        None
    }

    /// The value under `key`.
    pub fn get(&self, key: &K) -> (r: Option<&V>)
        ensures
            match r {
                Some(v) => self@.dom().contains(key.model()) && self@[key.model()] == *v,
                None => !self@.dom().contains(key.model()),
            },
    {
        proof {
            use_type_invariant(self);
        }
        match self.position(key) {
            Some(i) => {
                proof {
                    lemma_entry(self.entries@, i as int);
                }
                Some(&self.entries[i].1)
            },
            None => None,
        }
    }

    pub fn contains_key(&self, key: &K) -> (r: bool)
        ensures
            r == self@.dom().contains(key.model()),
    {
        self.get(key).is_some()
    }

    /// Puts `value` under `key`: in place if the key is there, at the end if not.
    pub fn insert(&mut self, key: K, value: V)
        ensures
            final(self)@ == old(self)@.insert(key.model(), value),
            match choose_position(old(self).entries(), key.model()) {
                Some(i) => final(self).entries() == old(self).entries().update(i, (key, value)),
                None => final(self).entries() == old(self).entries().push((key, value)),
            },
    {
        proof {
            use_type_invariant(&*self);
        }
        let ghost k = key.model();
        let ghost before = self.entries@;
        match self.position(&key) {
            Some(i) => {
                proof {
                    lemma_position(before, k, i as int);
                }
                let mut entries: Vec<(K, V)> = Vec::new();
                core::mem::swap(&mut entries, &mut self.entries);
                let ghost pair = (key, value);
                entries.set(i, (key, value));
                proof {
                    let after = before.update(i as int, pair);
                    assert(entries@ == after);
                    assert(distinct_keys(after)) by {
                        assert forall|a: int, b: int|
                            #![trigger after[a], after[b]]
                            0 <= a < b < after.len() implies after[a].0.model() != after[b].0.model() by {
                            assert(before[a].0.model() != before[b].0.model());
                        }
                    }
                    lemma_update(before, i as int, pair);
                }
                self.entries = entries;
            },
            None => {
                proof {
                    lemma_no_position(before, k);
                }
                let mut entries: Vec<(K, V)> = Vec::new();
                core::mem::swap(&mut entries, &mut self.entries);
                let ghost pair = (key, value);
                entries.push((key, value));
                proof {
                    let after = before.push(pair);
                    assert(entries@ == after);
                    assert(distinct_keys(after)) by {
                        assert forall|a: int, b: int|
                            #![trigger after[a], after[b]]
                            0 <= a < b < after.len() implies after[a].0.model() != after[b].0.model() by {
                            if b == before.len() {
                                assert(!holds_at(before, k, a));
                            } else {
                                assert(before[a].0.model() != before[b].0.model());
                            }
                        }
                    }
                    lemma_push(before, pair);
                }
                self.entries = entries;
            },
        }
    }

    /// Takes the entry under `key` out.
    pub fn remove(&mut self, key: &K)
        ensures
            final(self)@ == old(self)@.remove(key.model()),
            match choose_position(old(self).entries(), key.model()) {
                Some(i) => final(self).entries() == old(self).entries().remove(i),
                None => final(self).entries() == old(self).entries(),
            },
    {
        proof {
            use_type_invariant(&*self);
        }
        let ghost k = key.model();
        let ghost before = self.entries@;
        match self.position(key) {
            Some(i) => {
                proof {
                    lemma_position(before, k, i as int);
                }
                let mut entries: Vec<(K, V)> = Vec::new();
                core::mem::swap(&mut entries, &mut self.entries);
                entries.remove(i);
                proof {
                    let after = before.remove(i as int);
                    assert(entries@ == after);
                    assert(distinct_keys(after)) by {
                        assert forall|a: int, b: int|
                            #![trigger after[a], after[b]]
                            0 <= a < b < after.len() implies after[a].0.model() != after[b].0.model() by {
                            let a2 = if a < i { a } else { a + 1 };
                            let b2 = if b < i { b } else { b + 1 };
                            assert(before[a2].0.model() != before[b2].0.model());
                        }
                    }
                    lemma_remove(before, i as int);
                }
                self.entries = entries;
            },
            None => {
                proof {
                    lemma_no_position(before, k);
                }
                assert(self@ =~= old(self)@.remove(k));
            },
        }
    }

    /// The key of the entry at `i`.
    pub fn key_at(&self, i: usize) -> (r: &K)
        requires
            i < self.entries().len(),
        ensures
            *r == self.entries()[i as int].0,
    {
        &self.entries[i].0
    }

    /// The value of the entry at `i`.
    pub fn value_at(&self, i: usize) -> (r: &V)
        requires
            i < self.entries().len(),
        ensures
            *r == self.entries()[i as int].1,
    {
        &self.entries[i].1
    }
}

/// The keys of some entries.
pub open spec fn keys_of<K: Key, V>(entries: Seq<(K, V)>) -> Seq<K::Model> {
    entries.map_values(|e: (K, V)| e.0.model())
}

/// `k` stands at position `i` of `keys`.
pub open spec fn stands_at<M>(keys: Seq<M>, k: M, i: int) -> bool {
    0 <= i < keys.len() && keys[i] == k
}

/// Where `k` stands among distinct keys.
pub open spec fn position_in<M>(keys: Seq<M>, k: M) -> Option<int> {
    if exists|i: int| stands_at(keys, k, i) {
        Some(choose|i: int| stands_at(keys, k, i))
    } else {
        None
    }
}

/// Where the key `k` stands among entries with distinct keys.
pub open spec fn choose_position<K: Key, V>(entries: Seq<(K, V)>, k: K::Model) -> Option<int> {
    position_in(keys_of(entries), k)
}

/// Without the key among the entries, it has no position.
proof fn lemma_no_position<K: Key, V>(entries: Seq<(K, V)>, k: K::Model)
    requires
        forall|i: int| !holds_at(entries, k, i),
    ensures
        choose_position(entries, k) is None,
{
    assert forall|i: int| !stands_at(keys_of(entries), k, i) by {
        assert(!holds_at(entries, k, i));
    }
}

pub proof fn lemma_position<K: Key, V>(entries: Seq<(K, V)>, k: K::Model, i: int)
    requires
        distinct_keys(entries),
        holds_at(entries, k, i),
    ensures
        choose_position(entries, k) == Some(i),
{
    assert(stands_at(keys_of(entries), k, i));
    let j = choose|j: int| stands_at(keys_of(entries), k, j);
    assert(stands_at(keys_of(entries), k, j));
    if j < i {
        assert(entries[j].0.model() != entries[i].0.model());
    } else if i < j {
        assert(entries[i].0.model() != entries[j].0.model());
    }
}

proof fn lemma_update<K: Key, V>(entries: Seq<(K, V)>, i: int, pair: (K, V))
    requires
        distinct_keys(entries),
        distinct_keys(entries.update(i, pair)),
        holds_at(entries, pair.0.model(), i),
    ensures
        map_of(entries.update(i, pair)) == map_of(entries).insert(pair.0.model(), pair.1),
{
    let after = entries.update(i, pair);
    let k = pair.0.model();
    assert forall|x: K::Model| map_of(after).dom().contains(x) == map_of(entries).insert(
        k,
        pair.1,
    ).dom().contains(x) by {
        if map_of(after).dom().contains(x) {
            let j = choose|j: int| holds_at(after, x, j);
            assert(holds_at(after, x, j));
            assert(holds_at(entries, x, j));
        }
        if map_of(entries).dom().contains(x) {
            let j = choose|j: int| holds_at(entries, x, j);
            assert(holds_at(entries, x, j));
            assert(holds_at(after, x, j));
        }
        if x == k {
            assert(holds_at(after, x, i));
        }
    }
    assert forall|x: K::Model| map_of(after).dom().contains(x) implies map_of(after)[x] == map_of(
        entries,
    ).insert(k, pair.1)[x] by {
        let j = choose|j: int| holds_at(after, x, j);
        assert(holds_at(after, x, j));
        lemma_entry(after, j);
        lemma_entry(entries, j);
        lemma_entry(after, i);
        if x == k {
            lemma_position(after, x, i);
            lemma_position(after, x, j);
        } else {
            assert(j != i);
            assert(entries[j] == after[j]);
        }
    }
    assert(map_of(after) =~= map_of(entries).insert(k, pair.1));
}

proof fn lemma_push<K: Key, V>(entries: Seq<(K, V)>, pair: (K, V))
    requires
        distinct_keys(entries),
        distinct_keys(entries.push(pair)),
    ensures
        map_of(entries.push(pair)) == map_of(entries).insert(pair.0.model(), pair.1),
{
    let after = entries.push(pair);
    let k = pair.0.model();
    let n = entries.len() as int;
    assert forall|x: K::Model| map_of(after).dom().contains(x) == map_of(entries).insert(
        k,
        pair.1,
    ).dom().contains(x) by {
        if map_of(after).dom().contains(x) {
            let j = choose|j: int| holds_at(after, x, j);
            assert(holds_at(after, x, j));
            if j < n {
                assert(holds_at(entries, x, j));
            }
        }
        if map_of(entries).dom().contains(x) {
            let j = choose|j: int| holds_at(entries, x, j);
            assert(holds_at(entries, x, j));
            assert(holds_at(after, x, j));
        }
        if x == k {
            assert(holds_at(after, x, n));
        }
    }
    assert forall|x: K::Model| map_of(after).dom().contains(x) implies map_of(after)[x] == map_of(
        entries,
    ).insert(k, pair.1)[x] by {
        let j = choose|j: int| holds_at(after, x, j);
        assert(holds_at(after, x, j));
        lemma_entry(after, j);
        lemma_entry(after, n);
        if j < n {
            lemma_entry(entries, j);
            assert(entries[j] == after[j]);
            assert(after[j].0.model() != after[n].0.model());
        }
    }
    assert(map_of(after) =~= map_of(entries).insert(k, pair.1));
}

proof fn lemma_remove<K: Key, V>(entries: Seq<(K, V)>, i: int)
    requires
        distinct_keys(entries),
        distinct_keys(entries.remove(i)),
        0 <= i < entries.len(),
    ensures
        map_of(entries.remove(i)) == map_of(entries).remove(entries[i].0.model()),
{
    let after = entries.remove(i);
    let k = entries[i].0.model();
    assert forall|x: K::Model| map_of(after).dom().contains(x) == map_of(entries).remove(
        k,
    ).dom().contains(x) by {
        if map_of(after).dom().contains(x) {
            let j = choose|j: int| holds_at(after, x, j);
            assert(holds_at(after, x, j));
            let j2 = if j < i { j } else { j + 1 };
            assert(holds_at(entries, x, j2));
            if x == k {
                lemma_position(entries, x, i);
                lemma_position(entries, x, j2);
            }
        }
        if map_of(entries).dom().contains(x) && x != k {
            let j = choose|j: int| holds_at(entries, x, j);
            assert(holds_at(entries, x, j));
            let j2 = if j < i { j } else { j - 1 };
            assert(holds_at(after, x, j2));
        }
    }
    assert forall|x: K::Model| map_of(after).dom().contains(x) implies map_of(after)[x] == map_of(
        entries,
    ).remove(k)[x] by {
        let j = choose|j: int| holds_at(after, x, j);
        assert(holds_at(after, x, j));
        lemma_entry(after, j);
        let j2 = if j < i { j } else { j + 1 };
        lemma_entry(entries, j2);
        assert(entries[j2] == after[j]);
    }
    assert(map_of(after) =~= map_of(entries).remove(k));
}

} // verus!
