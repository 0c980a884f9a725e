//! A map from names to values, kept as two vectors: the names, each once,
//! and the value of each name at the same place.
use vstd::prelude::*;
use crate::text::str_eq;

verus! {

pub struct NameMap<V> {
    pub names: Vec<String>,
    pub values: Vec<V>,
}

/// Whether `k` is the name at some place below `n` in `names`.
pub open spec fn has_name(names: Seq<String>, n: int, k: Seq<char>) -> bool {
    exists|i: int| 0 <= i < n && #[trigger] names[i]@ == k
}

impl<V> NameMap<V> {
    /// As many values as names, and no name twice.
    pub open spec fn wf(&self) -> bool {
        &&& self.names@.len() == self.values@.len()
        &&& forall|i: int, j: int|
            0 <= i < self.names@.len() && 0 <= j < self.names@.len() && i != j ==> #[trigger] self.names@[i]@
                != #[trigger] self.names@[j]@
    }

    /// The place of name `k`.
    pub open spec fn place(&self, k: Seq<char>) -> int {
        choose|i: int| 0 <= i < self.names@.len() && #[trigger] self.names@[i]@ == k
    }

    /// Each name with its value.
    pub open spec fn view(&self) -> Map<Seq<char>, V> {
        Map::new(|k: Seq<char>| has_name(self.names@, self.names@.len() as int, k), |k: Seq<char>| self.values@[self.place(k)])
    }

    /// The place of a name is the one place that holds it.
    pub proof fn lemma_place(&self, i: int)
        requires
            self.wf(),
            0 <= i < self.names@.len(),
        ensures
            self.place(self.names@[i]@) == i,
            self.view().contains_key(self.names@[i]@),
            self.view()[self.names@[i]@] == self.values@[i],
    {
        let k = self.names@[i]@;
        assert(has_name(self.names@, self.names@.len() as int, k));
        let j = self.place(k);
        assert(self.names@[j]@ == k);
    }

    /// An empty map.
    pub fn new() -> (r: Self)
        ensures
            r.wf(),
            r.view() == Map::<Seq<char>, V>::empty(),
    {
        let r = NameMap { names: Vec::new(), values: Vec::new() };
        assert(r.view() =~= Map::<Seq<char>, V>::empty());
        r
    }

    pub fn len(&self) -> (r: usize)
        requires
            self.wf(),
        ensures
            r == self.view().dom().len(),
    {
        proof {
            self.lemma_dom_len();
        }
        self.names.len()
    }

    pub fn is_empty(&self) -> (r: bool)
        requires
            self.wf(),
        ensures
            r == (self.view().dom().len() == 0),
            r == (self.view() == Map::<Seq<char>, V>::empty()),
    {
        proof {
            self.lemma_dom_len();
            if self.names@.len() > 0 {
                self.lemma_place(0);
                assert(self.view().contains_key(self.names@[0]@));
            } else {
                assert(self.view() =~= Map::<Seq<char>, V>::empty());
            }
        }
        self.names.len() == 0
    }

    proof fn lemma_dom_len(&self)
        requires
            self.wf(),
        ensures
            self.view().dom().len() == self.names@.len(),
            self.view().dom().finite(),
    {
        let names = self.names@.map_values(|s: String| s@);
        assert forall|i: int, j: int| 0 <= i < names.len() && 0 <= j < names.len() && i != j implies names[i]
            != names[j] by {
            assert(self.names@[i]@ != self.names@[j]@);
        }
        assert(names.no_duplicates());
        names.unique_seq_to_set();
        assert(self.view().dom() =~= names.to_set()) by {
            assert forall|k: Seq<char>| self.view().dom().contains(k) implies names.to_set().contains(k) by {
                let i = choose|i: int| 0 <= i < self.names@.len() && #[trigger] self.names@[i]@ == k;
                assert(names[i] == k);
            }
            assert forall|k: Seq<char>| names.to_set().contains(k) implies self.view().dom().contains(k) by {
                let i = choose|i: int| 0 <= i < names.len() && names[i] == k;
                assert(self.names@[i]@ == k);
            }
        }
    }

    /// The place of `key`, if it is there.
    fn find(&self, key: &str) -> (r: Option<usize>)
        requires
            self.wf(),
        ensures
            match r {
                Some(i) => i < self.names@.len() && self.names@[i as int]@ == key@,
                None => !self.view().contains_key(key@),
            },
    {
        let mut i: usize = 0;
        while i < self.names.len()
            invariant
                i <= self.names@.len(),
                forall|j: int| 0 <= j < i ==> #[trigger] self.names@[j]@ != key@,
            decreases self.names.len() - i,
        {
            if str_eq(self.names[i].as_str(), key) {
                return Some(i);
            }
            i = i + 1;
        }
        None
    }

    /// The value of `key`, if it has one.
    pub fn get(&self, key: &str) -> (r: Option<&V>)
        requires
            self.wf(),
        ensures
            r == if self.view().contains_key(key@) {
                Some(&self.view()[key@])
            } else {
                None::<&V>
            },
    {
        match self.find(key) {
            Some(i) => {
                proof {
                    self.lemma_place(i as int);
                }
                Some(&self.values[i])
            },
            None => None,
        }
    }

    /// Takes `key` and its value out, giving the value, if it was there.
    pub fn take(&mut self, key: &str) -> (r: Option<V>)
        requires
            old(self).wf(),
        ensures
            final(self).wf(),
            final(self).view() == old(self).view().remove(key@),
            r == if old(self).view().contains_key(key@) {
                Some(old(self).view()[key@])
            } else {
                None::<V>
            },
    {
        match self.find(key) {
            Some(i) => {
                proof {
                    self.lemma_place(i as int);
                }
                let ghost k = key@;
                self.names.remove(i);
                let v = self.values.remove(i);
                proof {
                    let on = old(self).names@;
                    assert forall|a: int| 0 <= a < self.names@.len() implies #[trigger] self.names@[a] == (if a < i {
                        on[a]
                    } else {
                        on[a + 1]
                    }) by {}
                    assert forall|a: int, b: int|
                        0 <= a < self.names@.len() && 0 <= b < self.names@.len() && a != b implies #[trigger] self.names@[a]@
                        != #[trigger] self.names@[b]@ by {
                        let a1 = if a < i { a } else { a + 1 };
                        let b1 = if b < i { b } else { b + 1 };
                        assert(self.names@[a] == on[a1]);
                        assert(self.names@[b] == on[b1]);
                        assert(on[a1]@ != on[b1]@);
                    }
                    assert forall|kk: Seq<char>| #[trigger] self.view().contains_key(kk) implies self.view()[kk] == old(
                        self,
                    ).view().remove(k)[kk] && old(self).view().remove(k).contains_key(kk) by {
                        let j = self.place(kk);
                        self.lemma_place(j);
                        let j1 = if j < i { j } else { j + 1 };
                        assert(self.names@[j] == on[j1]);
                        old(self).lemma_place(j1);
                        assert(j1 != i as int);
                        assert(on[j1]@ != on[i as int]@);
                    }
                    assert forall|kk: Seq<char>| #[trigger] old(self).view().remove(k).contains_key(kk) implies self.view().contains_key(kk) by {
                        let j1 = old(self).place(kk);
                        old(self).lemma_place(j1);
                        assert(j1 != i as int);
                        let j = if j1 < i { j1 } else { j1 - 1 };
                        assert(self.names@[j] == on[j1]);
                    }
                    assert(self.view().dom() =~= old(self).view().remove(k).dom());
                    assert(self.view() =~= old(self).view().remove(k));
                }
                Some(v)
            },
            None => {
                assert(self.view() =~= old(self).view().remove(key@));
                None
            },
        }
    }

    /// Gives `key` the value `value`, in place of any it had.
    pub fn insert(&mut self, key: String, value: V)
        requires
            old(self).wf(),
        ensures
            final(self).wf(),
            final(self).view() == old(self).view().insert(key@, value),
    {
        let ghost k = key@;
        let ghost v = value;
        match self.find(key.as_str()) {
            Some(i) => {
                proof {
                    self.lemma_place(i as int);
                }
                self.values.set(i, value);
                proof {
                    assert(self.names@ == old(self).names@);
                    assert forall|kk: Seq<char>| #[trigger] self.view().contains_key(kk) implies self.view()[kk] == old(
                        self,
                    ).view().insert(k, v)[kk] by {
                        let j = self.place(kk);
                        assert(self.names@[j]@ == kk);
                        old(self).lemma_place(j);
                        if j == i as int {
                        } else {
                            assert(kk != k);
                        }
                    }
                    assert(self.view().dom() =~= old(self).view().insert(k, v).dom());
                    assert(self.view() =~= old(self).view().insert(k, v));
                }
            },
            None => {
                self.names.push(key);
                self.values.push(value);
                proof {
                    let n = old(self).names@.len() as int;
                    assert(self.names@[n]@ == k);
                    assert forall|a: int, b: int|
                        0 <= a < self.names@.len() && 0 <= b < self.names@.len() && a != b implies #[trigger] self.names@[a]@
                        != #[trigger] self.names@[b]@ by {
                        if a == n {
                            assert(!has_name(old(self).names@, n, self.names@[b]@) || self.names@[b]@ != k);
                            assert(old(self).names@[b]@ == self.names@[b]@);
                        } else if b == n {
                            assert(old(self).names@[a]@ == self.names@[a]@);
                        } else {
                            assert(old(self).names@[a]@ != old(self).names@[b]@);
                        }
                    }
                    assert forall|kk: Seq<char>| #[trigger] self.view().contains_key(kk) implies self.view()[kk] == old(
                        self,
                    ).view().insert(k, v)[kk] by {
                        let j = self.place(kk);
                        self.lemma_place(j);
                        if j == n {
                        } else {
                            assert(old(self).names@[j] == self.names@[j]);
                            old(self).lemma_place(j);
                        }
                    }
                    assert forall|kk: Seq<char>| old(self).view().insert(k, v).contains_key(kk) implies #[trigger] self.view().contains_key(kk) by {
                        if kk == k {
                            assert(self.names@[n]@ == kk);
                        } else {
                            let j = old(self).place(kk);
                            assert(old(self).names@[j]@ == kk);
                            assert(self.names@[j]@ == kk);
                        }
                    }
                    assert(self.view().dom() =~= old(self).view().insert(k, v).dom());
                    assert(self.view() =~= old(self).view().insert(k, v));
                }
            },
        }
    }
}

} // verus!
