//! A key-value map from byte strings to byte strings, with unique keys.
use vstd::prelude::*;

use crate::bytes::{bytes_eq, bytes_of};

verus! {

/// One key and its value.
pub struct Entry {
    pub key: Vec<u8>,
    pub value: Vec<u8>,
}

/// A sequence of key/value pairs.
pub type Pairs = Seq<(Seq<u8>, Seq<u8>)>;

pub open spec fn keys_unique(es: Pairs) -> bool {
    forall|i: int, j: int|
        0 <= i < es.len() && 0 <= j < es.len() && i != j ==> (#[trigger] es[i]).0 != (#[trigger] es[j]).0
}

pub open spec fn has_key(es: Pairs, k: Seq<u8>) -> bool {
    exists|i: int| 0 <= i < es.len() && (#[trigger] es[i]).0 == k
}

/// The map that a sequence of pairs with unique keys stands for.
pub open spec fn map_of(es: Pairs) -> Map<Seq<u8>, Seq<u8>> {
    Map::new(
        |k: Seq<u8>| has_key(es, k),
        |k: Seq<u8>| es[choose|i: int| 0 <= i < es.len() && (#[trigger] es[i]).0 == k].1,
    )
}

proof fn lemma_map_of_at(es: Pairs, i: int)
    requires
        keys_unique(es),
        0 <= i < es.len(),
    ensures
        map_of(es).contains_key(es[i].0),
        map_of(es)[es[i].0] == es[i].1,
{
    let k = es[i].0;
    assert(has_key(es, k));
    let j = choose|j: int| 0 <= j < es.len() && (#[trigger] es[j]).0 == k;
    assert(j == i);
}

proof fn lemma_map_of_absent(es: Pairs, k: Seq<u8>)
    requires
        forall|i: int| 0 <= i < es.len() ==> (#[trigger] es[i]).0 != k,
    ensures
        !map_of(es).contains_key(k),
{
}

/// Every key of `es` is found at some index, with its value.
proof fn lemma_map_of_all(es: Pairs)
    requires
        keys_unique(es),
    ensures
        forall|i: int| 0 <= i < es.len() ==> map_of(es).contains_key(#[trigger] es[i].0) && map_of(es)[es[i].0] == es[i].1,
        forall|k: Seq<u8>| #[trigger] map_of(es).contains_key(k) ==> exists|i: int| 0 <= i < es.len() && (#[trigger] es[i]).0 == k,
{
    assert forall|i: int| 0 <= i < es.len() implies map_of(es).contains_key(#[trigger] es[i].0) && map_of(es)[es[i].0] == es[i].1 by {
        lemma_map_of_at(es, i);
    }
}

/// A store of string keys and values.
pub struct Storage {
    entries: Vec<Entry>,
}

impl Storage {
    /// The pairs in the order in which they are held.
    pub closed spec fn pairs(&self) -> Pairs {
        self.entries@.map_values(|e: Entry| (e.key@, e.value@))
    }

    pub closed spec fn wf(&self) -> bool {
        keys_unique(self.pairs())
    }

    /// An empty store.
    pub fn new() -> (r: Storage)
        ensures
            r.wf(),
            r@ == Map::<Seq<u8>, Seq<u8>>::empty(),
            r.pairs() == Seq::<(Seq<u8>, Seq<u8>)>::empty(),
    {
        let r = Storage { entries: Vec::new() };
        assert(r.pairs() =~= Seq::<(Seq<u8>, Seq<u8>)>::empty());
        assert(r@ =~= Map::<Seq<u8>, Seq<u8>>::empty());
        r
    }

    /// Number of pairs held.
    pub fn len(&self) -> (r: usize)
        ensures
            r == self.pairs().len(),
    {
        self.entries.len()
    }

    /// The key of the pair at `i`.
    pub fn key_at(&self, i: usize) -> (r: &Vec<u8>)
        requires
            i < self.pairs().len(),
        ensures
            r@ == self.pairs()[i as int].0,
    {
        &self.entries[i].key
    }

    /// The value of the pair at `i`.
    pub fn value_at(&self, i: usize) -> (r: &Vec<u8>)
        requires
            i < self.pairs().len(),
        ensures
            r@ == self.pairs()[i as int].1,
    {
        &self.entries[i].value
    }

    /// Where `key` is held, if it is.
    fn find(&self, key: &[u8]) -> (r: Option<usize>)
        requires
            self.wf(),
        ensures
            r matches Some(i) ==> i < self.pairs().len() && self.pairs()[i as int].0 == key@,
            r is None ==> !self@.contains_key(key@),
    {
        let mut i: usize = 0;
        while i < self.entries.len()
            invariant
                0 <= i <= self.pairs().len(),
                self.pairs().len() == self.entries@.len(),
                forall|j: int| 0 <= j < i ==> (#[trigger] self.pairs()[j]).0 != key@,
            decreases self.entries.len() - i,
        {
            if bytes_eq(self.entries[i].key.as_slice(), key) {
                return Some(i);
            }
            i = i + 1;
        }
        proof { lemma_map_of_absent(self.pairs(), key@); }
        None
    }

    /// The value held under `key`, if any.
    pub fn get(&self, key: &[u8]) -> (r: Option<&Vec<u8>>)
        requires
            self.wf(),
        ensures
            r is Some <==> self@.contains_key(key@),
            r matches Some(v) ==> v@ == self@[key@],
    {
        match self.find(key) {
            Some(i) => {
                proof { lemma_map_of_at(self.pairs(), i as int); }
                Some(&self.entries[i].value)
            },
            None => None,
        }
    }

    /// Holds `value` under `key`, replacing what was held there.
    pub fn insert(&mut self, key: &[u8], value: &[u8])
        requires
            old(self).wf(),
        ensures
            final(self).wf(),
            final(self)@ == old(self)@.insert(key@, value@),
            !old(self)@.contains_key(key@) ==> final(self).pairs() == old(self).pairs().push((key@, value@)),
    {
        let ghost before = self.pairs();
        let entry = Entry { key: bytes_of(key), value: bytes_of(value) };
        match self.find(key) {
            Some(i) => {
                self.entries.set(i, entry);
                let ghost after = self.pairs();
                assert(after =~= before.update(i as int, (key@, value@)));
                assert(keys_unique(after)) by {
                    assert forall|a: int, b: int|
                        0 <= a < after.len() && 0 <= b < after.len() && a != b implies
                        (#[trigger] after[a]).0 != (#[trigger] after[b]).0 by {
                        if a != i && b != i {
                            assert(after[a] == before[a] && after[b] == before[b]);
                        } else if a == i {
                            assert(before[i as int].0 == key@);
                        } else {
                            assert(before[i as int].0 == key@);
                        }
                    }
                }
                proof {
                    lemma_map_of_all(before);
                    lemma_map_of_all(after);
                }
                assert(self@ =~= old(self)@.insert(key@, value@)) by {
                    assert forall|k: Seq<u8>| #[trigger] self@.contains_key(k) <==> old(self)@.insert(key@, value@).contains_key(k) by {
                        if old(self)@.contains_key(k) && k != key@ {
                            let j = choose|j: int| 0 <= j < before.len() && (#[trigger] before[j]).0 == k;
                            assert(after[j].0 == k);
                        }
                        if k == key@ {
                            assert(after[i as int].0 == k);
                        }
                        if self@.contains_key(k) {
                            let j = choose|j: int| 0 <= j < after.len() && (#[trigger] after[j]).0 == k;
                            if j != i {
                                assert(before[j].0 == k);
                            }
                        }
                    }
                    assert forall|k: Seq<u8>| #[trigger] self@.contains_key(k) implies self@[k] == old(self)@.insert(key@, value@)[k] by {
                        let j = choose|j: int| 0 <= j < after.len() && (#[trigger] after[j]).0 == k;
                        if j != i {
                            assert(before[j] == after[j]);
                        }
                    }
                }
            },
            None => {
                self.entries.push(entry);
                let ghost after = self.pairs();
                assert(after =~= before.push((key@, value@)));
                assert(keys_unique(after)) by {
                    assert forall|a: int, b: int|
                        0 <= a < after.len() && 0 <= b < after.len() && a != b implies
                        (#[trigger] after[a]).0 != (#[trigger] after[b]).0 by {
                        if a < before.len() && b < before.len() {
                            assert(after[a] == before[a] && after[b] == before[b]);
                        } else if a < before.len() {
                            lemma_map_of_at(before, a);
                        } else {
                            lemma_map_of_at(before, b);
                        }
                    }
                }
                proof {
                    lemma_map_of_all(before);
                    lemma_map_of_all(after);
                }
                assert(self@ =~= old(self)@.insert(key@, value@)) by {
                    assert forall|k: Seq<u8>| #[trigger] self@.contains_key(k) <==> old(self)@.insert(key@, value@).contains_key(k) by {
                        if old(self)@.contains_key(k) {
                            let j = choose|j: int| 0 <= j < before.len() && (#[trigger] before[j]).0 == k;
                            assert(after[j].0 == k);
                        }
                        if k == key@ {
                            assert(after[before.len() as int].0 == k);
                        }
                        if self@.contains_key(k) {
                            let j = choose|j: int| 0 <= j < after.len() && (#[trigger] after[j]).0 == k;
                            if j < before.len() {
                                assert(before[j].0 == k);
                            }
                        }
                    }
                    assert forall|k: Seq<u8>| #[trigger] self@.contains_key(k) implies self@[k] == old(self)@.insert(key@, value@)[k] by {
                        let j = choose|j: int| 0 <= j < after.len() && (#[trigger] after[j]).0 == k;
                        if j < before.len() {
                            assert(before[j] == after[j]);
                        }
                    }
                }
            },
        }
    }

    /// Drops `key` and its value; a key that is not held is left alone.
    pub fn remove(&mut self, key: &[u8])
        requires
            old(self).wf(),
        ensures
            final(self).wf(),
            final(self)@ == old(self)@.remove(key@),
    {
        let ghost before = self.pairs();
        match self.find(key) {
            Some(i) => {
                let _ = self.entries.remove(i);
                let ghost after = self.pairs();
                assert(after =~= before.remove(i as int));
                assert(forall|a: int| 0 <= a < after.len() ==> (#[trigger] after[a]) == before[if a < i { a } else { a + 1 }]);
                assert(keys_unique(after)) by {
                    assert forall|a: int, b: int|
                        0 <= a < after.len() && 0 <= b < after.len() && a != b implies
                        (#[trigger] after[a]).0 != (#[trigger] after[b]).0 by {
                        let a2 = if a < i { a } else { a + 1 };
                        let b2 = if b < i { b } else { b + 1 };
                        assert(before[a2].0 != before[b2].0);
                    }
                }
                proof {
                    lemma_map_of_all(before);
                    lemma_map_of_all(after);
                }
                assert(self@ =~= old(self)@.remove(key@)) by {
                    assert forall|k: Seq<u8>| #[trigger] self@.contains_key(k) <==> old(self)@.remove(key@).contains_key(k) by {
                        if old(self)@.contains_key(k) && k != key@ {
                            let j = choose|j: int| 0 <= j < before.len() && (#[trigger] before[j]).0 == k;
                            assert(j != i);
                            let j2 = if j < i { j } else { j - 1 };
                            assert(after[j2].0 == k);
                        }
                        if self@.contains_key(k) {
                            let j = choose|j: int| 0 <= j < after.len() && (#[trigger] after[j]).0 == k;
                            let j2 = if j < i { j } else { j + 1 };
                            assert(before[j2].0 == k);
                            assert(j2 != i);
                        }
                    }
                    assert forall|k: Seq<u8>| #[trigger] self@.contains_key(k) implies self@[k] == old(self)@.remove(key@)[k] by {
                        let j = choose|j: int| 0 <= j < after.len() && (#[trigger] after[j]).0 == k;
                        let j2 = if j < i { j } else { j + 1 };
                        assert(before[j2] == after[j]);
                    }
                }
            },
            None => {
                assert(self@ =~= old(self)@.remove(key@));
            },
        }
    }
}

impl View for Storage {
    type V = Map<Seq<u8>, Seq<u8>>;

    closed spec fn view(&self) -> Map<Seq<u8>, Seq<u8>> {
        map_of(self.pairs())
    }
}

} // verus!
