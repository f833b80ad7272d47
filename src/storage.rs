use vstd::prelude::*;
use crate::address::{parse_peer_id, peer_id_accepts};
use crate::crypto::bytes_equal;
use crate::error::NodeError;
use crate::text::copy_bytes;

verus! {

/// What is stored under one key: the value, who published it, and a time to
/// live in seconds.
pub struct StoredRecord {
    pub value: Vec<u8>,
    pub publisher: Option<String>,
    pub ttl: Option<u64>,
}

/// A stored record as plain values.
pub type RecordView = (Seq<u8>, Option<Seq<char>>, Option<u64>);

/// The plain values of a stored record.
pub open spec fn record_view(r: StoredRecord) -> RecordView {
    (
        r.value@,
        match r.publisher {
            Some(p) => Some(p@),
            None => None,
        },
        r.ttl,
    )
}

impl StoredRecord {
    /// A field-by-field copy.
    pub fn copy(&self) -> (r: StoredRecord)
        ensures
            record_view(r) == record_view(*self),
    {
        StoredRecord {
            value: copy_bytes(&self.value),
            publisher: match &self.publisher {
                Some(p) => Some(p.clone()),
                None => None,
            },
            ttl: self.ttl,
        }
    }
}

/// Whether `es` lists each record of `m` exactly once.
pub open spec fn lists_records(es: Seq<(Seq<u8>, RecordView)>, m: Map<Seq<u8>, RecordView>) -> bool {
    &&& es.len() == m.dom().len()
    &&& forall|i: int| 0 <= i < es.len() ==> m.contains_key(#[trigger] es[i].0) && m[es[i].0] == es[i].1
    &&& forall|k: Seq<u8>| #[trigger] m.contains_key(k) ==> exists|i: int| 0 <= i < es.len() && es[i].0 == k
}

/// The key bytes and the value bytes of `es` added up, each wrapping around
/// past the largest `usize`.
pub open spec fn byte_sums(es: Seq<(Seq<u8>, RecordView)>) -> (usize, usize)
    decreases es.len(),
{
    if es.len() == 0 {
        (0, 0)
    } else {
        let (k, v) = byte_sums(es.drop_last());
        (
            k.wrapping_add(es.last().0.len() as usize),
            v.wrapping_add(es.last().1.0.len() as usize),
        )
    }
}

/// Records keyed by byte strings, in the order their keys were first stored.
pub struct RecordTable {
    keys: Vec<Vec<u8>>,
    vals: Vec<StoredRecord>,
    model: Ghost<Map<Seq<u8>, RecordView>>,
}

impl View for RecordTable {
    type V = Map<Seq<u8>, RecordView>;

    closed spec fn view(&self) -> Map<Seq<u8>, RecordView> {
        self.model@
    }
}

/// Whether a record was published by `publisher`.
pub open spec fn published_by(r: RecordView, publisher: Seq<char>) -> bool {
    r.1 == Some(publisher)
}

/// Whether a record's time to live, read as an expiry time in seconds since
/// the Unix epoch, has passed at `now`.
pub open spec fn expired_at(r: RecordView, now: u64) -> bool {
    match r.2 {
        Some(t) => now > t,
        None => false,
    }
}

impl RecordTable {
    pub closed spec fn wf(&self) -> bool {
        &&& self.keys@.len() == self.vals@.len()
        &&& forall|i: int, j: int|
            0 <= i < j < self.keys@.len() ==> self.keys@[i]@ != self.keys@[j]@
        &&& forall|i: int|
            0 <= i < self.keys@.len() ==> #[trigger] self.model@.contains_key(self.keys@[i]@)
                && self.model@[self.keys@[i]@] == record_view(self.vals@[i])
        &&& forall|k: Seq<u8>|
            #[trigger] self.model@.contains_key(k) ==> exists|i: int|
                0 <= i < self.keys@.len() && self.keys@[i]@ == k
    }

    pub fn new() -> (r: RecordTable)
        ensures
            r.wf(),
            r@ == Map::<Seq<u8>, RecordView>::empty(),
    {
        RecordTable { keys: Vec::new(), vals: Vec::new(), model: Ghost(Map::empty()) }
    }

    /// A well-formed table has finitely many keys.
    pub proof fn lemma_finite(&self)
        requires
            self.wf(),
        ensures
            self@.dom().finite(),
    {
        self.lemma_len();
    }

    proof fn lemma_len(&self)
        requires
            self.wf(),
        ensures
            self@.dom().len() == self.keys@.len(),
            self@.dom().finite(),
    {
        let ks = self.keys@.map_values(|k: Vec<u8>| k@);
        ks.unique_seq_to_set();
        assert(ks.to_set() =~= self@.dom()) by {
            assert forall|k: Seq<u8>| ks.to_set().contains(k) implies self@.dom().contains(k) by {
                let i = choose|i: int| 0 <= i < ks.len() && ks[i] == k;
                assert(self@.contains_key(self.keys@[i]@));
            }
            assert forall|k: Seq<u8>| self@.dom().contains(k) implies ks.to_set().contains(k) by {
                let i = choose|i: int| 0 <= i < self.keys@.len() && self.keys@[i]@ == k;
                assert(ks[i] == k);
            }
        }
    }

    fn find(&self, key: &[u8]) -> (r: Option<usize>)
        requires
            self.wf(),
        ensures
            match r {
                Some(i) => i < self.keys@.len() && self.keys@[i as int]@ == key@,
                None => !self@.contains_key(key@),
            },
    {
        let mut i: usize = 0;
        while i < self.keys.len()
            invariant
                self.wf(),
                i <= self.keys@.len(),
                forall|j: int| 0 <= j < i ==> self.keys@[j]@ != key@,
            decreases self.keys@.len() - i,
        {
            if bytes_equal(self.keys[i].as_slice(), key) {
                return Some(i);
            }
            i = i + 1;
        }
        None
    }

    /// Number of records.
    pub fn record_count(&self) -> (r: usize)
        requires
            self.wf(),
        ensures
            r == self@.dom().len(),
    {
        proof {
            self.lemma_len();
        }
        self.keys.len()
    }

    pub fn has_record(&self, key: &[u8]) -> (r: bool)
        requires
            self.wf(),
        ensures
            r == self@.contains_key(key@),
    {
        self.find(key).is_some()
    }

    /// A copy of the record under `key`, if any.
    pub fn get_record_info(&self, key: &[u8]) -> (r: Option<StoredRecord>)
        requires
            self.wf(),
        ensures
            r is Some == self@.contains_key(key@),
            r is Some ==> record_view(r->0) == self@[key@],
    {
        match self.find(key) {
            Some(i) => {
                proof {
                    assert(self.model@.contains_key(self.keys@[i as int]@));
                }
                Some(self.vals[i].copy())
            },
            None => None,
        }
    }

    /// A copy of the value under `key`, if any.
    pub fn get_record(&self, key: &[u8]) -> (r: Option<Vec<u8>>)
        requires
            self.wf(),
        ensures
            r is Some == self@.contains_key(key@),
            r is Some ==> r->0@ == self@[key@].0,
    {
        match self.find(key) {
            Some(i) => {
                proof {
                    assert(self.model@.contains_key(self.keys@[i as int]@));
                }
                Some(copy_bytes(&self.vals[i].value))
            },
            None => None,
        }
    }

    /// Stores `record` under `key`, replacing an earlier one.
    pub fn put(&mut self, key: Vec<u8>, record: StoredRecord)
        requires
            old(self).wf(),
        ensures
            final(self).wf(),
            final(self)@ == old(self)@.insert(key@, record_view(record)),
    {
        let ghost rv = record_view(record);
        match self.find(key.as_slice()) {
            Some(i) => {
                self.vals.set(i, record);
                self.model = Ghost(self.model@.insert(key@, rv));
                proof {
                    let m = self.model@;
                    assert forall|j: int| 0 <= j < self.keys@.len() implies #[trigger] m.contains_key(
                        self.keys@[j]@,
                    ) && m[self.keys@[j]@] == record_view(self.vals@[j]) by {
                        if j != i {
                            assert(old(self).model@.contains_key(old(self).keys@[j]@));
                        }
                    }
                    assert forall|k: Seq<u8>| #[trigger] m.contains_key(k) implies exists|j: int|
                        0 <= j < self.keys@.len() && self.keys@[j]@ == k by {
                        if k != key@ {
                            assert(old(self).model@.contains_key(k));
                            let j = choose|j: int|
                                0 <= j < old(self).keys@.len() && old(self).keys@[j]@ == k;
                            assert(self.keys@[j]@ == k);
                        } else {
                            assert(self.keys@[i as int]@ == k);
                        }
                    }
                }
            },
            None => {
                let ghost m0 = self.model@;
                let ghost kv = key@;
                self.keys.push(key);
                self.vals.push(record);
                self.model = Ghost(m0.insert(kv, rv));
                proof {
                    let n = self.keys@.len();
                    assert(self.keys@[n - 1]@ == kv);
                    assert forall|j: int| 0 <= j < n - 1 implies self.keys@[j]@ != kv by {
                        assert(m0.contains_key(old(self).keys@[j]@));
                    }
                    let m = self.model@;
                    assert forall|k: Seq<u8>| #[trigger] m.contains_key(k) implies exists|j: int|
                        0 <= j < self.keys@.len() && self.keys@[j]@ == k by {
                        if k != kv {
                            assert(m0.contains_key(k));
                            let j = choose|j: int|
                                0 <= j < old(self).keys@.len() && old(self).keys@[j]@ == k;
                            assert(self.keys@[j]@ == k);
                        } else {
                            assert(self.keys@[n - 1]@ == k);
                        }
                    }
                }
            },
        }
    }

    /// Stores `value` under `key` with its publisher and time to live.
    pub fn put_record(&mut self, key: Vec<u8>, value: Vec<u8>, publisher: Option<String>, ttl: Option<u64>)
        requires
            old(self).wf(),
        ensures
            final(self).wf(),
            final(self)@ == old(self)@.insert(
                key@,
                (
                    value@,
                    match publisher {
                        Some(p) => Some(p@),
                        None => None,
                    },
                    ttl,
                ),
            ),
    {
        self.put(key, StoredRecord { value, publisher, ttl });
    }

    /// Removes the record under `key`; says whether there was one.
    pub fn remove_record(&mut self, key: &[u8]) -> (r: bool)
        requires
            old(self).wf(),
        ensures
            final(self).wf(),
            r == old(self)@.contains_key(key@),
            final(self)@ == old(self)@.remove(key@),
    {
        match self.find(key) {
            Some(i) => {
                let ghost m0 = self.model@;
                let ghost ks0 = self.keys@;
                let ghost vs0 = self.vals@;
                proof {
                    assert(m0.contains_key(ks0[i as int]@));
                }
                let _k = self.keys.remove(i);
                let _v = self.vals.remove(i);
                self.model = Ghost(m0.remove(key@));
                proof {
                    let m = self.model@;
                    assert(self.keys@ =~= ks0.remove(i as int));
                    assert(self.vals@ =~= vs0.remove(i as int));
                    assert forall|a: int, b: int| 0 <= a < b < self.keys@.len() implies self.keys@[a]@
                        != self.keys@[b]@ by {
                        let a0 = if a < i { a } else { a + 1 };
                        let b0 = if b < i { b } else { b + 1 };
                        assert(self.keys@[a] == ks0[a0]);
                        assert(self.keys@[b] == ks0[b0]);
                    }
                    assert forall|j: int| 0 <= j < self.keys@.len() implies #[trigger] m.contains_key(
                        self.keys@[j]@,
                    ) && m[self.keys@[j]@] == record_view(self.vals@[j]) by {
                        let j0 = if j < i { j } else { j + 1 };
                        assert(self.keys@[j] == ks0[j0]);
                        assert(self.vals@[j] == vs0[j0]);
                        assert(m0.contains_key(ks0[j0]@));
                    }
                    assert forall|k: Seq<u8>| #[trigger] m.contains_key(k) implies exists|j: int|
                        0 <= j < self.keys@.len() && self.keys@[j]@ == k by {
                        assert(m0.contains_key(k));
                        let j0 = choose|j: int| 0 <= j < ks0.len() && ks0[j]@ == k;
                        if j0 < i {
                            assert(self.keys@[j0]@ == k);
                        } else {
                            assert(self.keys@[j0 - 1]@ == k);
                        }
                    }
                    assert(self.wf());
                }
                true
            },
            None => {
                proof {
                    assert(self.model@.remove(key@) =~= self.model@);
                }
                false
            },
        }
    }

    /// Copies of the keys, each once.
    pub fn list_keys(&self) -> (r: Vec<Vec<u8>>)
        requires
            self.wf(),
        ensures
            forall|i: int| 0 <= i < r@.len() ==> self@.contains_key(#[trigger] r@[i]@),
            forall|i: int, j: int| 0 <= i < j < r@.len() ==> r@[i]@ != r@[j]@,
            forall|k: Seq<u8>|
                #[trigger] self@.contains_key(k) ==> exists|i: int| 0 <= i < r@.len() && r@[i]@ == k,
    {
        let mut out: Vec<Vec<u8>> = Vec::new();
        let mut i: usize = 0;
        while i < self.keys.len()
            invariant
                self.wf(),
                i <= self.keys@.len(),
                out@.len() == i,
                forall|j: int| 0 <= j < i ==> (#[trigger] out@[j])@ == self.keys@[j]@,
            decreases self.keys@.len() - i,
        {
            out.push(copy_bytes(&self.keys[i]));
            i = i + 1;
        }
        proof {
            assert forall|k: Seq<u8>| #[trigger] self@.contains_key(k) implies exists|i: int|
                0 <= i < out@.len() && out@[i]@ == k by {
                let j = choose|j: int| 0 <= j < self.keys@.len() && self.keys@[j]@ == k;
                assert(out@[j]@ == k);
            }
        }
        out
    }

    pub fn clear(&mut self)
        ensures
            final(self).wf(),
            final(self)@ == Map::<Seq<u8>, RecordView>::empty(),
    {
        self.keys.clear();
        self.vals.clear();
        self.model = Ghost(Map::empty());
    }

    /// Replaces the value under `key`, keeping its publisher and time to
    /// live; says whether there was a record to update.
    pub fn update_record(&mut self, key: Vec<u8>, value: Vec<u8>) -> (r: bool)
        requires
            old(self).wf(),
        ensures
            final(self).wf(),
            r == old(self)@.contains_key(key@),
            r ==> final(self)@ == old(self)@.insert(
                key@,
                (value@, old(self)@[key@].1, old(self)@[key@].2),
            ),
            !r ==> final(self)@ == old(self)@,
    {
        match self.get_record_info(key.as_slice()) {
            Some(info) => {
                self.put_record(key, value, info.publisher, info.ttl);
                true
            },
            None => false,
        }
    }

    /// (key, value) pairs of the records published by `publisher`.
    pub fn get_records_by_publisher(&self, publisher: &String) -> (r: Vec<(Vec<u8>, Vec<u8>)>)
        requires
            self.wf(),
        ensures
            forall|i: int|
                0 <= i < r@.len() ==> self@.contains_key(#[trigger] r@[i].0@) && self@[r@[i].0@].0
                    == r@[i].1@ && published_by(self@[r@[i].0@], publisher@),
            forall|i: int, j: int| 0 <= i < j < r@.len() ==> r@[i].0@ != r@[j].0@,
            forall|k: Seq<u8>|
                #[trigger] self@.contains_key(k) && published_by(self@[k], publisher@) ==> exists|i: int|
                    0 <= i < r@.len() && r@[i].0@ == k,
    {
        let mut out: Vec<(Vec<u8>, Vec<u8>)> = Vec::new();
        let mut i: usize = 0;
        while i < self.keys.len()
            invariant
                self.wf(),
                i <= self.keys@.len(),
                forall|a: int|
                    0 <= a < out@.len() ==> exists|b: int|
                        0 <= b < i && #[trigger] out@[a].0@ == self.keys@[b]@,
                forall|a: int|
                    0 <= a < out@.len() ==> self@.contains_key(#[trigger] out@[a].0@)
                        && self@[out@[a].0@].0 == out@[a].1@ && published_by(
                        self@[out@[a].0@],
                        publisher@,
                    ),
                forall|a: int, b: int| 0 <= a < b < out@.len() ==> out@[a].0@ != out@[b].0@,
                forall|b: int|
                    0 <= b < i && published_by(#[trigger] self@[self.keys@[b]@], publisher@) ==> exists|a: int|
                        0 <= a < out@.len() && out@[a].0@ == self.keys@[b]@,
            decreases self.keys@.len() - i,
        {
            proof {
                assert(self@.contains_key(self.keys@[i as int]@));
            }
            let rec = &self.vals[i];
            let matches = match &rec.publisher {
                Some(p) => *p == *publisher,
                None => false,
            };
            let ghost out0 = out@;
            if matches {
                out.push((copy_bytes(&self.keys[i]), copy_bytes(&rec.value)));
                proof {
                    assert forall|a: int, b: int| 0 <= a < b < out@.len() implies out@[a].0@
                        != out@[b].0@ by {
                        if b == out@.len() - 1 {
                            let c = choose|c: int| 0 <= c < i && #[trigger] out0[a].0@ == self.keys@[c]@;
                            assert(out@[a] == out0[a]);
                        }
                    }
                    assert forall|a: int| 0 <= a < out@.len() implies exists|b: int|
                        0 <= b < i + 1 && #[trigger] out@[a].0@ == self.keys@[b]@ by {
                        if a < out@.len() - 1 {
                            assert(out@[a] == out0[a]);
                            let c = choose|c: int| 0 <= c < i && #[trigger] out0[a].0@ == self.keys@[c]@;
                        } else {
                            assert(out@[a].0@ == self.keys@[i as int]@);
                        }
                    }
                }
            }
            proof {
                assert(matches == published_by(self@[self.keys@[i as int]@], publisher@));
                assert forall|b: int|
                    0 <= b < i + 1 && published_by(#[trigger] self@[self.keys@[b]@], publisher@) implies exists|a: int|
                    0 <= a < out@.len() && out@[a].0@ == self.keys@[b]@ by {
                    if b == i {
                        assert(out@[out@.len() - 1].0@ == self.keys@[b]@);
                    } else {
                        let a = choose|a: int| 0 <= a < out0.len() && out0[a].0@ == self.keys@[b]@;
                        assert(out@[a] == out0[a]);
                    }
                }
            }
            i = i + 1;
        }
        proof {
            assert forall|k: Seq<u8>| #[trigger] self@.contains_key(k) && published_by(self@[k], publisher@) implies exists|a: int|
                0 <= a < out@.len() && out@[a].0@ == k by {
                let b = choose|b: int| 0 <= b < self.keys@.len() && self.keys@[b]@ == k;
                assert(published_by(self@[self.keys@[b]@], publisher@));
            }
        }
        out
    }
    /// The number of records and the total bytes of their keys and of their
    /// values (each sum wrapping past the largest `usize`), added up in the
    /// table's own order.
    pub fn get_storage_stats(&self) -> (r: (usize, usize, usize))
        requires
            self.wf(),
        ensures
            r.0 == self@.dom().len(),
            exists|es: Seq<(Seq<u8>, RecordView)>|
                #![trigger byte_sums(es)]
                lists_records(es, self@) && r.1 == byte_sums(es).0 && r.2 == byte_sums(es).1,
    {
        let ghost es = Seq::new(self.keys@.len(), |i: int| (self.keys@[i]@, record_view(self.vals@[i])));
        let mut key_bytes: usize = 0;
        let mut value_bytes: usize = 0;
        let mut i: usize = 0;
        while i < self.keys.len()
            invariant
                self.wf(),
                i <= self.keys@.len(),
                es == Seq::new(self.keys@.len(), |i: int| (self.keys@[i]@, record_view(self.vals@[i]))),
                (key_bytes, value_bytes) == byte_sums(es.take(i as int)),
            decreases self.keys@.len() - i,
        {
            proof {
                assert(es.take(i + 1).drop_last() =~= es.take(i as int));
            }
            key_bytes = key_bytes.wrapping_add(self.keys[i].len());
            value_bytes = value_bytes.wrapping_add(self.vals[i].value.len());
            i = i + 1;
        }
        proof {
            assert(es.take(es.len() as int) =~= es);
            self.lemma_len();
            assert forall|a: int| 0 <= a < es.len() implies self@.contains_key(#[trigger] es[a].0)
                && self@[es[a].0] == es[a].1 by {
                assert(self@.contains_key(self.keys@[a]@));
            }
            assert forall|k: Seq<u8>| #[trigger] self@.contains_key(k) implies exists|a: int|
                0 <= a < es.len() && es[a].0 == k by {
                let a = choose|a: int| 0 <= a < self.keys@.len() && self.keys@[a]@ == k;
                assert(es[a].0 == k);
            }
            assert(lists_records(es, self@));
            assert(byte_sums(es) == (key_bytes, value_bytes));
        }
        (self.keys.len(), key_bytes, value_bytes)
    }

    /// Removes the records whose expiry time has passed at `now` (seconds
    /// since the Unix epoch) and says how many were removed.
    pub fn cleanup_expired(&mut self, now: u64) -> (r: usize)
        requires
            old(self).wf(),
        ensures
            final(self).wf(),
            final(self)@ == old(self)@.restrict(
                old(self)@.dom().filter(|k: Seq<u8>| !expired_at(old(self)@[k], now)),
            ),
            r == old(self)@.dom().len() - final(self)@.dom().len(),
    {
        let ghost m0 = self@;
        let ghost keep = m0.dom().filter(|k: Seq<u8>| !expired_at(m0[k], now));
        let keys = self.list_keys();
        let initial = self.record_count();
        let mut i: usize = 0;
        while i < keys.len()
            invariant
                self.wf(),
                m0 == old(self)@,
                keep == m0.dom().filter(|k: Seq<u8>| !expired_at(m0[k], now)),
                initial == m0.dom().len(),
                i <= keys@.len(),
                forall|a: int| 0 <= a < keys@.len() ==> m0.contains_key(#[trigger] keys@[a]@),
                forall|a: int, b: int| 0 <= a < b < keys@.len() ==> keys@[a]@ != keys@[b]@,
                forall|k: Seq<u8>|
                    #[trigger] m0.contains_key(k) ==> exists|a: int| 0 <= a < keys@.len() && keys@[a]@ == k,
                forall|k: Seq<u8>|
                    #[trigger] self@.contains_key(k) ==> m0.contains_key(k) && self@[k] == m0[k],
                forall|a: int|
                    0 <= a < i ==> (self@.contains_key(#[trigger] keys@[a]@) <==> keep.contains(keys@[a]@)),
                forall|a: int| i <= a < keys@.len() ==> self@.contains_key(#[trigger] keys@[a]@),
            decreases keys@.len() - i,
        {
            let key = &keys[i];
            let info = self.get_record_info(key.as_slice()).unwrap();
            let expired = match info.ttl {
                Some(t) => now > t,
                None => false,
            };
            if expired {
                self.remove_record(key.as_slice());
            }
            proof {
                assert(keep.contains(keys@[i as int]@) == !expired_at(m0[keys@[i as int]@], now));
            }
            i = i + 1;
        }
        proof {
            assert(self@ =~= m0.restrict(keep)) by {
                assert forall|k: Seq<u8>| #[trigger] self@.contains_key(k) <==> m0.restrict(keep).contains_key(k) by {
                    if m0.contains_key(k) {
                        let a = choose|a: int| 0 <= a < keys@.len() && keys@[a]@ == k;
                    }
                }
            }
        }
        let remaining = self.record_count();
        proof {
            assert(self@.dom().subset_of(m0.dom()));
            old(self).lemma_len();
            vstd::set_lib::lemma_len_subset(self@.dom(), m0.dom());
        }
        initial - remaining
    }
}

/// The records held by a hash-table record store, value by key.
pub uninterp spec fn kad_store_records(s: libp2p::kad::store::MemoryStore) -> Map<Seq<u8>, Seq<u8>>;

/// The limits a hash-table record store was made with: the largest number of
/// records, and the value size from which values are refused.
pub uninterp spec fn kad_store_limits(s: libp2p::kad::store::MemoryStore) -> (nat, nat);

#[verifier::external_type_specification]
#[verifier::external_body]
pub struct ExMemoryStore(libp2p::kad::store::MemoryStore);

#[verifier::external_type_specification]
#[verifier::external_body]
pub struct ExStoreError(libp2p::kad::store::Error);

/// Largest number of records a default record store takes.
pub const KAD_MAX_RECORDS: usize = 1024;

/// A default record store refuses values of this many bytes or more.
pub const KAD_MAX_VALUE_BYTES: usize = 65 * 1024;

/// Relies on `MemoryStore::new`: an empty store with the default limits of
/// 1024 records and values under 65 KiB.
#[verifier::external_body]
fn kad_store_new(local_id: libp2p::PeerId) -> (r: libp2p::kad::store::MemoryStore)
    ensures
        kad_store_records(r).dom() == Set::<Seq<u8>>::empty(),
        kad_store_limits(r) == (KAD_MAX_RECORDS as nat, KAD_MAX_VALUE_BYTES as nat),
{
    libp2p::kad::store::MemoryStore::new(local_id)
}

/// Relies on `<MemoryStore as RecordStore>::put` with a record built by
/// `Record::new`: a value of the store's size limit or more is refused, a new
/// key is refused once the store holds its limit of records, and otherwise
/// the value is stored under the key; the limits stay as they were.
#[verifier::external_body]
fn kad_store_put(
    store: &mut libp2p::kad::store::MemoryStore,
    key: &[u8],
    value: Vec<u8>,
    publisher: Option<libp2p::PeerId>,
) -> (r: Result<(), libp2p::kad::store::Error>)
    ensures
        r is Ok <==> value@.len() < kad_store_limits(*old(store)).1 && (kad_store_records(
            *old(store),
        ).contains_key(key@) || kad_store_records(*old(store)).dom().len() < kad_store_limits(
            *old(store),
        ).0),
        kad_store_limits(*final(store)) == kad_store_limits(*old(store)),
        r is Ok ==> kad_store_records(*final(store)) == kad_store_records(*old(store)).insert(
            key@,
            value@,
        ),
        r is Err ==> kad_store_records(*final(store)) == kad_store_records(*old(store)),
{
    let mut record = libp2p::kad::Record::new(libp2p::kad::RecordKey::new(&key), value);
    record.publisher = publisher;
    libp2p::kad::store::RecordStore::put(store, record)
}

/// Relies on `<MemoryStore as RecordStore>::get`: the value stored under the
/// key, if any.
#[verifier::external_body]
fn kad_store_get(store: &libp2p::kad::store::MemoryStore, key: &[u8]) -> (r: Option<Vec<u8>>)
    ensures
        r is Some == kad_store_records(*store).contains_key(key@),
        r is Some ==> r->0@ == kad_store_records(*store)[key@],
{
    libp2p::kad::store::RecordStore::get(store, &libp2p::kad::RecordKey::new(&key)).map(|r| r.value.clone())
}

/// Relies on `<MemoryStore as RecordStore>::remove`: the key no longer has a
/// value.
#[verifier::external_body]
fn kad_store_remove(store: &mut libp2p::kad::store::MemoryStore, key: &[u8])
    ensures
        kad_store_records(*final(store)) == kad_store_records(*old(store)).remove(key@),
        kad_store_limits(*final(store)) == kad_store_limits(*old(store)),
{
    libp2p::kad::store::RecordStore::remove(store, &libp2p::kad::RecordKey::new(&key))
}

/// Records kept in a hash-table record store, with their publisher and time
/// to live kept beside it.
pub struct MemoryStorage {
    store: libp2p::kad::store::MemoryStore,
    records: RecordTable,
}

impl MemoryStorage {
    pub closed spec fn wf(&self) -> bool {
        &&& self.records.wf()
        &&& kad_store_limits(self.store) == (KAD_MAX_RECORDS as nat, KAD_MAX_VALUE_BYTES as nat)
    }

    /// The records with their publisher and time to live.
    pub closed spec fn table(&self) -> Map<Seq<u8>, RecordView> {
        self.records@
    }

    /// The values held by the record store.
    pub closed spec fn stored(&self) -> Map<Seq<u8>, Seq<u8>> {
        kad_store_records(self.store)
    }

    /// A well-formed storage has finitely many records in its table.
    pub proof fn lemma_finite(&self)
        requires
            self.wf(),
        ensures
            self.table().dom().finite(),
    {
        self.records.lemma_finite();
    }

    /// An empty store for the node `peer_id`; a malformed identifier is
    /// `InvalidPeerId`.
    pub fn new(peer_id: &str) -> (r: Result<MemoryStorage, NodeError>)
        ensures
            r is Ok <==> peer_id_accepts(peer_id@),
            r is Err ==> r == Err::<MemoryStorage, NodeError>(NodeError::InvalidPeerId),
            r is Ok ==> r->Ok_0.wf() && r->Ok_0.table() == Map::<Seq<u8>, RecordView>::empty()
                && r->Ok_0.stored() == Map::<Seq<u8>, Seq<u8>>::empty(),
    {
        match parse_peer_id(peer_id) {
            Ok(id) => {
                let store = kad_store_new(id);
                proof {
                    assert(kad_store_records(store) =~= Map::<Seq<u8>, Seq<u8>>::empty());
                }
                Ok(MemoryStorage { store, records: RecordTable::new() })
            },
            Err(e) => Err(e),
        }
    }

    /// Stores `value` under `key`. A malformed publisher is
    /// `InvalidPeerId`; a record the store refuses (too large, or a new key
    /// in a full store) is `DhtFailure`; both leave everything unchanged.
    pub fn put_record(
        &mut self,
        key: Vec<u8>,
        value: Vec<u8>,
        publisher: Option<String>,
        ttl: Option<u64>,
    ) -> (r: Result<(), NodeError>)
        requires
            old(self).wf(),
        ensures
            final(self).wf(),
            publisher is Some && !peer_id_accepts(publisher->0@) ==> r == Err::<(), NodeError>(
                NodeError::InvalidPeerId,
            ),
            (publisher is None || peer_id_accepts(publisher->0@)) ==> (r is Ok <==> value@.len()
                < KAD_MAX_VALUE_BYTES && (old(self).stored().contains_key(key@)
                || old(self).stored().dom().len() < KAD_MAX_RECORDS)),
            r is Err ==> final(self).stored() == old(self).stored() && final(self).table() == old(
                self,
            ).table(),
            r is Err && !(publisher is Some && !peer_id_accepts(publisher->0@)) ==> r == Err::<
                (),
                NodeError,
            >(NodeError::DhtFailure),
            r is Ok ==> final(self).stored() == old(self).stored().insert(key@, value@)
                && final(self).table() == old(self).table().insert(
                key@,
                (
                    value@,
                    match publisher {
                        Some(p) => Some(p@),
                        None => None,
                    },
                    ttl,
                ),
            ),
    {
        let publisher_id = match &publisher {
            Some(p) => match parse_peer_id(p.as_str()) {
                Ok(id) => Some(id),
                Err(e) => {
                    return Err(e);
                },
            },
            None => None,
        };
        match kad_store_put(&mut self.store, key.as_slice(), copy_bytes(&value), publisher_id) {
            Ok(()) => {
                self.records.put_record(key, value, publisher, ttl);
                Ok(())
            },
            Err(_) => Err(NodeError::DhtFailure),
        }
    }

    /// The value the record store holds under `key`, if any.
    pub fn get_record(&self, key: &[u8]) -> (r: Option<Vec<u8>>)
        ensures
            r is Some == self.stored().contains_key(key@),
            r is Some ==> r->0@ == self.stored()[key@],
    {
        kad_store_get(&self.store, key)
    }

    /// Removes `key` from the store and the table; says whether the table
    /// had it.
    pub fn remove_record(&mut self, key: &[u8]) -> (r: bool)
        requires
            old(self).wf(),
        ensures
            final(self).wf(),
            r == old(self).table().contains_key(key@),
            final(self).table() == old(self).table().remove(key@),
            final(self).stored() == old(self).stored().remove(key@),
    {
        kad_store_remove(&mut self.store, key);
        self.records.remove_record(key)
    }

    pub fn list_keys(&self) -> (r: Vec<Vec<u8>>)
        requires
            self.wf(),
        ensures
            forall|i: int| 0 <= i < r@.len() ==> self.table().contains_key(#[trigger] r@[i]@),
            forall|i: int, j: int| 0 <= i < j < r@.len() ==> r@[i]@ != r@[j]@,
            forall|k: Seq<u8>|
                #[trigger] self.table().contains_key(k) ==> exists|i: int| 0 <= i < r@.len() && r@[i]@ == k,
    {
        self.records.list_keys()
    }

    pub fn record_count(&self) -> (r: usize)
        requires
            self.wf(),
        ensures
            r == self.table().dom().len(),
    {
        self.records.record_count()
    }

    /// Empties the table; the record store keeps what it holds.
    pub fn clear(&mut self)
        requires
            old(self).wf(),
        ensures
            final(self).wf(),
            final(self).table() == Map::<Seq<u8>, RecordView>::empty(),
            final(self).stored() == old(self).stored(),
    {
        self.records.clear();
    }

    pub fn has_record(&self, key: &[u8]) -> (r: bool)
        requires
            self.wf(),
        ensures
            r == self.table().contains_key(key@),
    {
        self.records.has_record(key)
    }

    pub fn get_record_info(&self, key: &[u8]) -> (r: Option<StoredRecord>)
        requires
            self.wf(),
        ensures
            r is Some == self.table().contains_key(key@),
            r is Some ==> record_view(r->0) == self.table()[key@],
    {
        self.records.get_record_info(key)
    }

    /// Replaces the value under `key`, keeping its publisher and time to
    /// live; `Ok(false)` when there is no such record.
    pub fn update_record(&mut self, key: Vec<u8>, value: Vec<u8>) -> (r: Result<bool, NodeError>)
        requires
            old(self).wf(),
        ensures
            final(self).wf(),
            !old(self).table().contains_key(key@) ==> r == Ok::<bool, NodeError>(false)
                && final(self).table() == old(self).table() && final(self).stored() == old(self).stored(),
            r == Ok::<bool, NodeError>(true) ==> old(self).table().contains_key(key@)
                && final(self).table() == old(self).table().insert(
                key@,
                (value@, old(self).table()[key@].1, old(self).table()[key@].2),
            ) && final(self).stored() == old(self).stored().insert(key@, value@),
            r is Err ==> final(self).table() == old(self).table() && final(self).stored() == old(
                self,
            ).stored(),
    {
        match self.records.get_record_info(key.as_slice()) {
            Some(info) => match self.put_record(key, value, info.publisher, info.ttl) {
                Ok(()) => Ok(true),
                Err(e) => Err(e),
            },
            None => Ok(false),
        }
    }

    /// The number of records and the total bytes of their keys and values.
    pub fn get_storage_stats(&self) -> (r: (usize, usize, usize))
        requires
            self.wf(),
        ensures
            r.0 == self.table().dom().len(),
            exists|es: Seq<(Seq<u8>, RecordView)>|
                #![trigger byte_sums(es)]
                lists_records(es, self.table()) && r.1 == byte_sums(es).0 && r.2 == byte_sums(es).1,
    {
        self.records.get_storage_stats()
    }

    /// Removes every record that carries a time to live, from the table and
    /// from the record store, and says how many were removed.
    pub fn cleanup_expired(&mut self) -> (r: usize)
        requires
            old(self).wf(),
        ensures
            final(self).wf(),
            final(self).table() == old(self).table().restrict(
                old(self).table().dom().filter(|k: Seq<u8>| old(self).table()[k].2 is None),
            ),
            final(self).stored() == old(self).stored().remove_keys(
                old(self).table().dom().filter(|k: Seq<u8>| old(self).table()[k].2 is Some),
            ),
            r == old(self).table().dom().len() - final(self).table().dom().len(),
    {
        let ghost m0 = self.records@;
        let ghost s0 = kad_store_records(self.store);
        let ghost keep = m0.dom().filter(|k: Seq<u8>| m0[k].2 is None);
        let ghost gone = m0.dom().filter(|k: Seq<u8>| m0[k].2 is Some);
        let keys = self.records.list_keys();
        let initial = self.records.record_count();
        let mut i: usize = 0;
        while i < keys.len()
            invariant
                self.records.wf(),
                kad_store_limits(self.store) == (KAD_MAX_RECORDS as nat, KAD_MAX_VALUE_BYTES as nat),
                m0 == old(self).records@,
                s0 == kad_store_records(old(self).store),
                keep == m0.dom().filter(|k: Seq<u8>| m0[k].2 is None),
                gone == m0.dom().filter(|k: Seq<u8>| m0[k].2 is Some),
                initial == m0.dom().len(),
                i <= keys@.len(),
                forall|a: int| 0 <= a < keys@.len() ==> m0.contains_key(#[trigger] keys@[a]@),
                forall|a: int, b: int| 0 <= a < b < keys@.len() ==> keys@[a]@ != keys@[b]@,
                forall|k: Seq<u8>|
                    #[trigger] m0.contains_key(k) ==> exists|a: int| 0 <= a < keys@.len() && keys@[a]@ == k,
                forall|k: Seq<u8>|
                    #[trigger] self.records@.contains_key(k) ==> m0.contains_key(k) && self.records@[k] == m0[k],
                forall|a: int|
                    0 <= a < i ==> (self.records@.contains_key(#[trigger] keys@[a]@) <==> keep.contains(keys@[a]@)),
                forall|a: int| i <= a < keys@.len() ==> self.records@.contains_key(#[trigger] keys@[a]@),
                kad_store_records(self.store) == s0.remove_keys(
                    Set::new(|k: Seq<u8>| exists|a: int| 0 <= a < i && keys@[a]@ == k && gone.contains(k)),
                ),
            decreases keys@.len() - i,
        {
            let key = &keys[i];
            let info = self.records.get_record_info(key.as_slice()).unwrap();
            let ghost before = kad_store_records(self.store);
            if info.ttl.is_some() {
                kad_store_remove(&mut self.store, key.as_slice());
                self.records.remove_record(key.as_slice());
            }
            proof {
                assert(keep.contains(keys@[i as int]@) == (m0[keys@[i as int]@].2 is None));
                assert(gone.contains(keys@[i as int]@) == (m0[keys@[i as int]@].2 is Some));
                assert(kad_store_records(self.store) =~= s0.remove_keys(
                    Set::new(|k: Seq<u8>| exists|a: int| 0 <= a < i + 1 && keys@[a]@ == k && gone.contains(k)),
                )) by {
                    let s_old = Set::new(|k: Seq<u8>| exists|a: int| 0 <= a < i && keys@[a]@ == k && gone.contains(k));
                    let s_new = Set::new(|k: Seq<u8>| exists|a: int| 0 <= a < i + 1 && keys@[a]@ == k && gone.contains(k));
                    assert forall|k: Seq<u8>| s_new.contains(k) == (s_old.contains(k) || (k == keys@[i as int]@ && gone.contains(k))) by {
                        if s_new.contains(k) {
                            let a = choose|a: int| 0 <= a < i + 1 && keys@[a]@ == k && gone.contains(k);
                            if a < i {
                                assert(s_old.contains(k));
                            }
                        }
                    }
                }
            }
            i = i + 1;
        }
        proof {
            assert(self.records@ =~= m0.restrict(keep)) by {
                assert forall|k: Seq<u8>| #[trigger] self.records@.contains_key(k) <==> m0.restrict(keep).contains_key(k) by {
                    if m0.contains_key(k) {
                        let a = choose|a: int| 0 <= a < keys@.len() && keys@[a]@ == k;
                    }
                }
            }
            let s_all = Set::new(|k: Seq<u8>| exists|a: int| 0 <= a < keys@.len() && keys@[a]@ == k && gone.contains(k));
            assert(s_all =~= gone) by {
                assert forall|k: Seq<u8>| gone.contains(k) implies s_all.contains(k) by {
                    let a = choose|a: int| 0 <= a < keys@.len() && keys@[a]@ == k;
                }
            }
        }
        let remaining = self.records.record_count();
        proof {
            assert(self.records@.dom().subset_of(m0.dom()));
            old(self).records.lemma_finite();
            vstd::set_lib::lemma_len_subset(self.records@.dom(), m0.dom());
        }
        initial - remaining
    }

    /// (key, value) pairs of the records published by `publisher`.
    pub fn get_records_by_publisher(&self, publisher: &String) -> (r: Vec<(Vec<u8>, Vec<u8>)>)
        requires
            self.wf(),
        ensures
            forall|i: int|
                0 <= i < r@.len() ==> self.table().contains_key(#[trigger] r@[i].0@)
                    && self.table()[r@[i].0@].0 == r@[i].1@ && published_by(
                    self.table()[r@[i].0@],
                    publisher@,
                ),
            forall|i: int, j: int| 0 <= i < j < r@.len() ==> r@[i].0@ != r@[j].0@,
            forall|k: Seq<u8>|
                #[trigger] self.table().contains_key(k) && published_by(self.table()[k], publisher@)
                    ==> exists|i: int| 0 <= i < r@.len() && r@[i].0@ == k,
    {
        self.records.get_records_by_publisher(publisher)
    }
}

} // verus!
