use vstd::prelude::*;

verus! {

/// A map from text keys to values, keeping the order in which keys were first
/// inserted.
pub struct Registry<V> {
    keys: Vec<String>,
    vals: Vec<V>,
    model: Ghost<Map<Seq<char>, V>>,
}

impl<V> View for Registry<V> {
    type V = Map<Seq<char>, V>;

    closed spec fn view(&self) -> Map<Seq<char>, V> {
        self.model@
    }
}

impl<V> Registry<V> {
    pub closed spec fn wf(&self) -> bool {
        &&& self.keys@.len() == self.vals@.len()
        &&& forall|i: int, j: int|
            0 <= i < j < self.keys@.len() ==> self.keys@[i]@ != self.keys@[j]@
        &&& forall|i: int|
            0 <= i < self.keys@.len() ==> #[trigger] self.model@.contains_key(self.keys@[i]@)
                && self.model@[self.keys@[i]@] == self.vals@[i]
        &&& forall|k: Seq<char>|
            #[trigger] self.model@.contains_key(k) ==> exists|i: int|
                0 <= i < self.keys@.len() && self.keys@[i]@ == k
    }

    pub fn new() -> (r: Registry<V>)
        ensures
            r.wf(),
            r@ == Map::<Seq<char>, V>::empty(),
    {
        Registry { keys: Vec::new(), vals: Vec::new(), model: Ghost(Map::empty()) }
    }

    /// A well-formed registry has finitely many keys.
    pub proof fn lemma_finite(&self)
        requires
            self.wf(),
        ensures
            self@.dom().finite(),
    {
        self.lemma_len();
    }

    proof fn lemma_len(&self)
        requires
            self.wf(),
        ensures
            self@.dom().len() == self.keys@.len(),
            self@.dom().finite(),
        decreases self.keys@.len(),
    {
        let ks = self.keys@.map_values(|k: String| k@);
        assert forall|i: int, j: int| 0 <= i < j < ks.len() implies ks[i] != ks[j] by {}
        ks.unique_seq_to_set();
        assert(ks.to_set() =~= self@.dom()) by {
            assert forall|k: Seq<char>| ks.to_set().contains(k) implies self@.dom().contains(k) by {
                let i = choose|i: int| 0 <= i < ks.len() && ks[i] == k;
                assert(self@.contains_key(self.keys@[i]@));
            }
            assert forall|k: Seq<char>| self@.dom().contains(k) implies ks.to_set().contains(k) by {
                let i = choose|i: int| 0 <= i < self.keys@.len() && self.keys@[i]@ == k;
                assert(ks[i] == k);
            }
        }
    }

    /// Number of keys.
    pub fn len(&self) -> (r: usize)
        requires
            self.wf(),
        ensures
            r == self@.dom().len(),
    {
        proof {
            self.lemma_len();
        }
        self.keys.len()
    }

    fn find(&self, key: &String) -> (r: Option<usize>)
        requires
            self.wf(),
        ensures
            match r {
                Some(i) => i < self.keys@.len() && self.keys@[i as int]@ == key@,
                None => !self@.contains_key(key@),
            },
    {
        let mut i: usize = 0;
        while i < self.keys.len()
            invariant
                self.wf(),
                i <= self.keys@.len(),
                forall|j: int| 0 <= j < i ==> self.keys@[j]@ != key@,
            decreases self.keys@.len() - i,
        {
            if self.keys[i] == *key {
                return Some(i);
            }
            i = i + 1;
        }
        None
    }

    /// Whether `key` has a value.
    pub fn contains_key(&self, key: &String) -> (r: bool)
        requires
            self.wf(),
        ensures
            r == self@.contains_key(key@),
    {
        self.find(key).is_some()
    }

    /// The value under `key`, if any.
    pub fn get(&self, key: &String) -> (r: Option<&V>)
        requires
            self.wf(),
        ensures
            r is Some == self@.contains_key(key@),
            r is Some ==> *r->0 == self@[key@],
    {
        match self.find(key) {
            Some(i) => {
                proof {
                    assert(self.model@.contains_key(self.keys@[i as int]@));
                }
                Some(&self.vals[i])
            },
            None => None,
        }
    }

    /// Sets the value under `key`, replacing any earlier one.
    pub fn insert(&mut self, key: String, value: V)
        requires
            old(self).wf(),
        ensures
            final(self).wf(),
            final(self)@ == old(self)@.insert(key@, value),
    {
        match self.find(&key) {
            Some(i) => {
                self.vals.set(i, value);
                self.model = Ghost(self.model@.insert(key@, value));
                proof {
                    let m = self.model@;
                    assert forall|j: int| 0 <= j < self.keys@.len() implies #[trigger] m.contains_key(
                        self.keys@[j]@,
                    ) && m[self.keys@[j]@] == self.vals@[j] by {
                        if j != i {
                            assert(old(self).model@.contains_key(old(self).keys@[j]@));
                        }
                    }
                    assert forall|k: Seq<char>| #[trigger] m.contains_key(k) implies exists|j: int|
                        0 <= j < self.keys@.len() && self.keys@[j]@ == k by {
                        if k != key@ {
                            assert(old(self).model@.contains_key(k));
                            let j = choose|j: int|
                                0 <= j < old(self).keys@.len() && old(self).keys@[j]@ == k;
                            assert(self.keys@[j]@ == k);
                        } else {
                            assert(self.keys@[i as int]@ == k);
                        }
                    }
                }
            },
            None => {
                let ghost m0 = self.model@;
                let ghost kv = key@;
                self.keys.push(key);
                self.vals.push(value);
                self.model = Ghost(m0.insert(kv, value));
                proof {
                    let n = self.keys@.len();
                    assert(self.keys@[n - 1]@ == kv);
                    assert forall|j: int| 0 <= j < n - 1 implies self.keys@[j]@ != kv by {
                        assert(m0.contains_key(old(self).keys@[j]@));
                    }
                    let m = self.model@;
                    assert forall|k: Seq<char>| #[trigger] m.contains_key(k) implies exists|j: int|
                        0 <= j < self.keys@.len() && self.keys@[j]@ == k by {
                        if k != kv {
                            assert(m0.contains_key(k));
                            let j = choose|j: int|
                                0 <= j < old(self).keys@.len() && old(self).keys@[j]@ == k;
                            assert(self.keys@[j]@ == k);
                        } else {
                            assert(self.keys@[n - 1]@ == k);
                        }
                    }
                }
            },
        }
    }

    /// Removes `key`, handing back its value if it had one.
    pub fn remove(&mut self, key: &String) -> (r: Option<V>)
        requires
            old(self).wf(),
        ensures
            final(self).wf(),
            final(self)@ == old(self)@.remove(key@),
            r is Some == old(self)@.contains_key(key@),
            r is Some ==> r->0 == old(self)@[key@],
    {
        match self.find(key) {
            Some(i) => {
                let ghost m0 = self.model@;
                let ghost ks0 = self.keys@;
                let ghost vs0 = self.vals@;
                proof {
                    assert(m0.contains_key(ks0[i as int]@));
                }
                let _k = self.keys.remove(i);
                let v = self.vals.remove(i);
                self.model = Ghost(m0.remove(key@));
                proof {
                    let m = self.model@;
                    assert(self.keys@ =~= ks0.remove(i as int));
                    assert(self.vals@ =~= vs0.remove(i as int));
                    assert(self.keys@.len() == self.vals@.len());
                    assert forall|a: int, b: int| 0 <= a < b < self.keys@.len() implies self.keys@[a]@
                        != self.keys@[b]@ by {
                        let a0 = if a < i { a } else { a + 1 };
                        let b0 = if b < i { b } else { b + 1 };
                        assert(self.keys@[a] == ks0[a0]);
                        assert(self.keys@[b] == ks0[b0]);
                    }
                    assert forall|j: int| 0 <= j < self.keys@.len() implies #[trigger] m.contains_key(
                        self.keys@[j]@,
                    ) && m[self.keys@[j]@] == self.vals@[j] by {
                        let j0 = if j < i { j } else { j + 1 };
                        assert(self.keys@[j] == ks0[j0]);
                        assert(self.vals@[j] == vs0[j0]);
                        assert(m0.contains_key(ks0[j0]@));
                    }
                    assert forall|k: Seq<char>| #[trigger] m.contains_key(k) implies exists|j: int|
                        0 <= j < self.keys@.len() && self.keys@[j]@ == k by {
                        assert(m0.contains_key(k));
                        let j0 = choose|j: int| 0 <= j < ks0.len() && ks0[j]@ == k;
                        if j0 < i {
                            assert(self.keys@[j0]@ == k);
                        } else {
                            assert(self.keys@[j0 - 1]@ == k);
                        }
                    }
                    assert(self.wf());
                }
                Some(v)
            },
            None => {
                proof {
                    assert(self.model@.remove(key@) =~= self.model@);
                }
                None
            },
        }
    }

    /// Removes every key.
    pub fn clear(&mut self)
        requires
            old(self).wf(),
        ensures
            final(self).wf(),
            final(self)@ == Map::<Seq<char>, V>::empty(),
    {
        self.keys.clear();
        self.vals.clear();
        self.model = Ghost(Map::empty());
    }

    /// Copies of the keys, in insertion order, each once.
    pub fn keys(&self) -> (r: Vec<String>)
        requires
            self.wf(),
        ensures
            forall|i: int| 0 <= i < r@.len() ==> self@.contains_key(#[trigger] r@[i]@),
            forall|i: int, j: int| 0 <= i < j < r@.len() ==> r@[i]@ != r@[j]@,
            forall|k: Seq<char>|
                #[trigger] self@.contains_key(k) ==> exists|i: int| 0 <= i < r@.len() && r@[i]@ == k,
    {
        let mut out: Vec<String> = Vec::new();
        let mut i: usize = 0;
        while i < self.keys.len()
            invariant
                self.wf(),
                i <= self.keys@.len(),
                out@.len() == i,
                forall|j: int| 0 <= j < i ==> (#[trigger] out@[j])@ == self.keys@[j]@,
            decreases self.keys@.len() - i,
        {
            out.push(self.keys[i].clone());
            i = i + 1;
        }
        proof {
            assert forall|k: Seq<char>| #[trigger] self@.contains_key(k) implies exists|i: int|
                0 <= i < out@.len() && out@[i]@ == k by {
                let j = choose|j: int| 0 <= j < self.keys@.len() && self.keys@[j]@ == k;
                assert(out@[j]@ == k);
            }
        }
        out
    }
}

impl<V: Copy> Registry<V> {
    /// Every key with its value, in insertion order.
    pub fn entries(&self) -> (r: Vec<(String, V)>)
        requires
            self.wf(),
        ensures
            forall|i: int|
                0 <= i < r@.len() ==> self@.contains_key(#[trigger] r@[i].0@) && self@[r@[i].0@]
                    == r@[i].1,
            forall|i: int, j: int| 0 <= i < j < r@.len() ==> r@[i].0@ != r@[j].0@,
            forall|k: Seq<char>|
                #[trigger] self@.contains_key(k) ==> exists|i: int| 0 <= i < r@.len() && r@[i].0@ == k,
    {
        let mut out: Vec<(String, V)> = Vec::new();
        let mut i: usize = 0;
        while i < self.keys.len()
            invariant
                self.wf(),
                i <= self.keys@.len(),
                out@.len() == i,
                forall|j: int|
                    0 <= j < i ==> (#[trigger] out@[j]).0@ == self.keys@[j]@ && out@[j].1
                        == self.vals@[j],
            decreases self.keys@.len() - i,
        {
            out.push((self.keys[i].clone(), self.vals[i]));
            i = i + 1;
        }
        proof {
            assert forall|k: Seq<char>| #[trigger] self@.contains_key(k) implies exists|i: int|
                0 <= i < out@.len() && out@[i].0@ == k by {
                let j = choose|j: int| 0 <= j < self.keys@.len() && self.keys@[j]@ == k;
                assert(out@[j].0@ == k);
            }
        }
        out
    }
}

} // verus!
