//! A small map keyed by strings, kept as an association list whose keys are
//! pairwise distinct. Its view is a `Map` from the keys' characters to the
//! values. It stands where a hash map keyed by `String` would: vstd gives
//! such a map no model of its keys, so nothing could be proved of its lookups.

use vstd::prelude::*;
use vstd::string::*;
use crate::text::str_eq;

verus! {

/// A finite map from strings to values of type `V`.
pub struct StringMap<V> {
    keys: Vec<String>,
    vals: Vec<V>,
}

impl<V> StringMap<V> {
    /// The position at which `key` is stored, if it is stored.
    pub closed spec fn slot(&self, key: Seq<char>) -> int {
        choose|i: int| 0 <= i < self.keys.len() && self.keys[i]@ == key
    }

    /// Whether `key` is stored.
    pub closed spec fn has(&self, key: Seq<char>) -> bool {
        exists|i: int| 0 <= i < self.keys.len() && self.keys[i]@ == key
    }

    /// Keys and values line up, and no key occurs twice.
    pub closed spec fn wf(&self) -> bool {
        &&& self.keys.len() == self.vals.len()
        &&& forall|i: int, j: int|
            0 <= i < j < self.keys.len() ==> self.keys[i]@ != self.keys[j]@
    }

    /// The map this value stands for.
    pub closed spec fn view(&self) -> Map<Seq<char>, V> {
        Map::new(|k: Seq<char>| self.has(k), |k: Seq<char>| self.vals[self.slot(k)])
    }

    /// The number of entries.
    pub closed spec fn spec_len(&self) -> nat {
        self.keys.len() as nat
    }

    proof fn lemma_slot(&self, i: int)
        requires
            self.wf(),
            0 <= i < self.keys.len(),
        ensures
            self.has(self.keys[i]@),
            self.slot(self.keys[i]@) == i,
            self@.dom().contains(self.keys[i]@),
            self@[self.keys[i]@] == self.vals[i],
    {
        let k = self.keys[i]@;
        assert(0 <= i < self.keys.len() && self.keys[i]@ == k);
        let j = self.slot(k);
        assert(0 <= j < self.keys.len() && self.keys[j]@ == k);
        if j < i {
            assert(self.keys[j]@ != self.keys[i]@);
        } else if i < j {
            assert(self.keys[i]@ != self.keys[j]@);
        }
    }

    /// An empty map.
    pub fn new() -> (m: Self)
        ensures
            m.wf(),
            m@ == Map::<Seq<char>, V>::empty(),
    {
        let m = StringMap { keys: Vec::new(), vals: Vec::new() };
        assert(m@ =~= Map::<Seq<char>, V>::empty());
        m
    }

    /// How many keys are stored.
    pub fn len(&self) -> (n: usize)
        requires
            self.wf(),
        ensures
            n == self.spec_len(),
    {
        self.keys.len()
    }

    fn position(&self, key: &str) -> (r: Option<usize>)
        requires
            self.wf(),
        ensures
            match r {
                Some(i) => i < self.keys.len() && self.keys[i as int]@ == key@,
                None => !self.has(key@),
            },
    {
        let mut i: usize = 0;
        while i < self.keys.len()
            invariant
                i <= self.keys.len(),
                forall|j: int| 0 <= j < i ==> self.keys[j]@ != key@,
            decreases self.keys.len() - i,
        {
            if str_eq(self.keys[i].as_str(), key) {
                return Some(i);
            }
            i += 1;
        }
        None
    }

    /// Whether `key` is in the map.
    pub fn contains_key(&self, key: &str) -> (r: bool)
        requires
            self.wf(),
        ensures
            r == self@.dom().contains(key@),
    {
        self.position(key).is_some()
    }

    /// The value stored under `key`.
    pub fn get(&self, key: &str) -> (r: Option<&V>)
        requires
            self.wf(),
        ensures
            match r {
                Some(v) => self@.dom().contains(key@) && *v == self@[key@],
                None => !self@.dom().contains(key@),
            },
    {
        match self.position(key) {
            Some(i) => {
                proof {
                    self.lemma_slot(i as int);
                }
                Some(&self.vals[i])
            },
            None => None,
        }
    }

    /// Stores `val` under `key`, in place of what was stored there before.
    pub fn insert(&mut self, key: String, val: V)
        requires
            old(self).wf(),
        ensures
            final(self).wf(),
            final(self)@ == old(self)@.insert(key@, val),
    {
        match self.position(key.as_str()) {
            Some(i) => {
                let ghost before = *self;
                self.vals.remove(i);
                self.vals.insert(i, val);
                proof {
                    assert(self.keys == before.keys);
                    assert(self.wf());
                    assert forall|k: Seq<char>| self.has(k) == before.has(k) by {}
                    assert forall|k: Seq<char>| #[trigger]
                        self@.dom().contains(k) implies self@[k] == before@.insert(key@, val)[k] by {
                        let j = self.slot(k);
                        assert(j == before.slot(k));
                        if k == key@ {
                            self.lemma_slot(i as int);
                        } else {
                            assert(j != i);
                        }
                    }
                    before.lemma_slot(i as int);
                    assert(self@ =~= before@.insert(key@, val));
                }
            },
            None => {
                let ghost before = *self;
                self.keys.push(key);
                self.vals.push(val);
                proof {
                    let n = before.keys.len() as int;
                    assert(self.wf()) by {
                        assert forall|i: int, j: int|
                            0 <= i < j < self.keys.len() implies self.keys[i]@
                            != self.keys[j]@ by {
                            if j == n {
                                assert(before.keys[i]@ != key@);
                            } else {
                                assert(before.keys[i]@ != before.keys[j]@);
                            }
                        }
                    }
                    self.lemma_slot(n);
                    assert forall|k: Seq<char>| self.has(k) == (before.has(k) || k == key@) by {
                        if before.has(k) {
                            let j = before.slot(k);
                            assert(self.keys[j]@ == k);
                        }
                        if self.has(k) && k != key@ {
                            let j = self.slot(k);
                            assert(j != n);
                            assert(before.keys[j]@ == k);
                        }
                    }
                    assert forall|k: Seq<char>| #[trigger]
                        self@.dom().contains(k) implies self@[k] == before@.insert(key@, val)[k] by {
                        if k != key@ {
                            let j = before.slot(k);
                            before.lemma_slot(j);
                            self.lemma_slot(j);
                        }
                    }
                    assert(self@ =~= before@.insert(key@, val));
                }
            },
        }
    }

    /// Takes `key` out of the map and hands back the stored key with its value.
    pub fn take(&mut self, key: &str) -> (r: Option<(String, V)>)
        requires
            old(self).wf(),
        ensures
            final(self).wf(),
            final(self)@ == old(self)@.remove(key@),
            match r {
                Some(kv) => old(self)@.dom().contains(key@) && kv.0@ == key@ && kv.1 == old(
                    self,
                )@[key@],
                None => !old(self)@.dom().contains(key@),
            },
    {
        match self.position(key) {
            Some(i) => {
                let ghost before = *self;
                let k = self.keys.remove(i);
                let v = self.vals.remove(i);
                proof {
                    before.lemma_slot(i as int);
                    assert(self.wf()) by {
                        assert forall|a: int, b: int|
                            0 <= a < b < self.keys.len() implies self.keys[a]@
                            != self.keys[b]@ by {
                            let a0 = if a < i { a } else { a + 1 };
                            let b0 = if b < i { b } else { b + 1 };
                            assert(self.keys[a] == before.keys[a0]);
                            assert(self.keys[b] == before.keys[b0]);
                        }
                    }
                    assert forall|k: Seq<char>| self.has(k) == (before.has(k) && k != key@) by {
                        if before.has(k) && k != key@ {
                            let j = before.slot(k);
                            let j1 = if j < i { j } else { j - 1 };
                            assert(self.keys[j1] == before.keys[j]);
                        }
                        if self.has(k) {
                            let j = self.slot(k);
                            let j0 = if j < i { j } else { j + 1 };
                            assert(self.keys[j] == before.keys[j0]);
                            assert(before.keys[j0]@ == k);
                            assert(j0 != i);
                        }
                    }
                    assert forall|k: Seq<char>| #[trigger]
                        self@.dom().contains(k) implies self@[k] == before@[k] by {
                        let j = self.slot(k);
                        let j0 = if j < i { j } else { j + 1 };
                        assert(self.keys[j] == before.keys[j0]);
                        assert(self.vals[j] == before.vals[j0]);
                        before.lemma_slot(j0);
                    }
                    assert(self@ =~= before@.remove(key@));
                }
                Some((k, v))
            },
            None => {
                assert(self@ =~= self@.remove(key@));
                None
            },
        }
    }

    /// The keys of the map, each once.
    pub fn keys(&self) -> (r: Vec<String>)
        requires
            self.wf(),
        ensures
            r@.len() == self.spec_len(),
            forall|i: int| 0 <= i < r@.len() ==> self@.dom().contains(#[trigger] r@[i]@),
            forall|k: Seq<char>|
                self@.dom().contains(k) ==> exists|i: int| 0 <= i < r@.len() && #[trigger] r@[i]@ == k,
            forall|i: int, j: int| 0 <= i < j < r@.len() ==> r@[i]@ != r@[j]@,
    {
        let mut r: Vec<String> = Vec::new();
        let mut i: usize = 0;
        while i < self.keys.len()
            invariant
                i <= self.keys.len(),
                r@.len() == i,
                forall|j: int| 0 <= j < i ==> (#[trigger] r@[j])@ == self.keys[j]@,
            decreases self.keys.len() - i,
        {
            r.push(self.keys[i].clone());
            i += 1;
        }
        proof {
            assert forall|j: int| 0 <= j < r@.len() implies self@.dom().contains(
                #[trigger] r@[j]@,
            ) by {
                self.lemma_slot(j);
            }
            assert forall|k: Seq<char>| self@.dom().contains(k) implies exists|j: int|
                0 <= j < r@.len() && #[trigger] r@[j]@ == k by {
                let j = self.slot(k);
                assert(r@[j]@ == k);
            }
        }
        r
    }
}

} // verus!
