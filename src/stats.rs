use vstd::prelude::*;
use crate::occurrence::Occurrence;

verus! {

/// Per-peer count of established connections, keyed by the peer identifier's
/// text. Entries keep the order in which each peer was first seen.
pub struct ConnectionStats {
    peers: Vec<String>,
    counts: Vec<u64>,
    model: Ghost<Map<Seq<char>, u64>>,
}

impl View for ConnectionStats {
    type V = Map<Seq<char>, u64>;

    closed spec fn view(&self) -> Map<Seq<char>, u64> {
        self.model@
    }
}

/// The count recorded for `peer`, zero when it has none.
pub open spec fn count_in(m: Map<Seq<char>, u64>, peer: Seq<char>) -> u64 {
    if m.contains_key(peer) {
        m[peer]
    } else {
        0
    }
}

/// The counter map after one more established connection with `peer`; a
/// counter stops at the largest `u64`.
pub open spec fn recorded(m: Map<Seq<char>, u64>, peer: Seq<char>) -> Map<Seq<char>, u64> {
    let c = count_in(m, peer);
    m.insert(peer, if c == u64::MAX { c } else { (c + 1) as u64 })
}

/// The counter map after `n` established connections with `peer`.
pub open spec fn recorded_times(m: Map<Seq<char>, u64>, peer: Seq<char>, n: nat) -> Map<
    Seq<char>,
    u64,
>
    decreases n,
{
    if n == 0 {
        m
    } else {
        recorded(recorded_times(m, peer, (n - 1) as nat), peer)
    }
}

/// After `n` established connections with a peer that had no entry, its count
/// is `n` (while `n` fits a `u64`).
pub proof fn lemma_count_after_connections(m: Map<Seq<char>, u64>, peer: Seq<char>, n: nat)
    requires
        !m.contains_key(peer),
        n <= u64::MAX,
    ensures
        count_in(recorded_times(m, peer, n), peer) == n,
    decreases n,
{
    if n > 0 {
        lemma_count_after_connections(m, peer, (n - 1) as nat);
    }
}

/// The counter map after the scheduler has seen each occurrence of `os` in
/// turn: only established connections count.
pub open spec fn recorded_occurrences(m: Map<Seq<char>, u64>, os: Seq<Occurrence>) -> Map<Seq<char>, u64>
    decreases os.len(),
{
    if os.len() == 0 {
        m
    } else {
        let m1 = recorded_occurrences(m, os.drop_last());
        match os.last().established_with() {
            Some(p) => recorded(m1, p),
            None => m1,
        }
    }
}

/// Whether occurrence `o` is an established connection with `peer`.
pub open spec fn established_with_peer(peer: Seq<char>) -> spec_fn(Occurrence) -> bool {
    |o: Occurrence| o.established_with() == Some(peer)
}

/// Whatever occurrences the scheduler sees, in whatever order and for
/// whatever peers, a peer's count is the number of established connections
/// with it among them (while that number fits a `u64`).
pub proof fn lemma_count_is_established_connections(os: Seq<Occurrence>, peer: Seq<char>)
    requires
        os.filter(established_with_peer(peer)).len() <= u64::MAX,
    ensures
        count_in(recorded_occurrences(Map::empty(), os), peer) == os.filter(established_with_peer(peer)).len(),
    decreases os.len(),
{
    reveal(Seq::filter);
    if os.len() > 0 {
        let rest = os.drop_last();
        rest.lemma_filter_len(established_with_peer(peer));
        assert(rest.filter(established_with_peer(peer)).len() <= os.filter(established_with_peer(peer)).len());
        lemma_count_is_established_connections(rest, peer);
    }
}

/// A connection with one peer leaves every other peer's count as it was.
pub proof fn lemma_other_peer_unchanged(m: Map<Seq<char>, u64>, peer: Seq<char>, other: Seq<char>)
    requires
        peer != other,
    ensures
        count_in(recorded(m, peer), other) == count_in(m, other),
{
}

impl ConnectionStats {
    pub closed spec fn wf(&self) -> bool {
        &&& self.peers@.len() == self.counts@.len()
        &&& forall|i: int, j: int|
            0 <= i < j < self.peers@.len() ==> self.peers@[i]@ != self.peers@[j]@
        &&& forall|i: int|
            0 <= i < self.peers@.len() ==> #[trigger] self.model@.contains_key(self.peers@[i]@)
                && self.model@[self.peers@[i]@] == self.counts@[i]
        &&& forall|k: Seq<char>|
            #[trigger] self.model@.contains_key(k) ==> exists|i: int|
                0 <= i < self.peers@.len() && self.peers@[i]@ == k
    }

    pub fn new() -> (r: ConnectionStats)
        ensures
            r.wf(),
            r@ == Map::<Seq<char>, u64>::empty(),
    {
        ConnectionStats { peers: Vec::new(), counts: Vec::new(), model: Ghost(Map::empty()) }
    }

    /// Position of `peer` among the entries, if it has one.
    fn find(&self, peer: &String) -> (r: Option<usize>)
        requires
            self.wf(),
        ensures
            match r {
                Some(i) => i < self.peers@.len() && self.peers@[i as int]@ == peer@,
                None => !self@.contains_key(peer@),
            },
    {
        let mut i: usize = 0;
        while i < self.peers.len()
            invariant
                self.wf(),
                i <= self.peers@.len(),
                forall|j: int| 0 <= j < i ==> self.peers@[j]@ != peer@,
            decreases self.peers@.len() - i,
        {
            if self.peers[i] == *peer {
                return Some(i);
            }
            i = i + 1;
        }
        None
    }

    /// Counts one more established connection with `peer`, creating its entry
    /// at one when it has none.
    pub fn record_connection_established(&mut self, peer: &String)
        requires
            old(self).wf(),
        ensures
            final(self).wf(),
            final(self)@ == recorded(old(self)@, peer@),
    {
        match self.find(peer) {
            Some(i) => {
                let c = self.counts[i];
                self.counts[i] = c.saturating_add(1);
                self.model = Ghost(recorded(self.model@, peer@));
                proof {
                    let m = self.model@;
                    assert(old(self).model@.contains_key(peer@));
                    assert forall|j: int| 0 <= j < self.peers@.len() implies #[trigger] m.contains_key(self.peers@[j]@)
                        && m[self.peers@[j]@] == self.counts@[j] by {
                        if j != i {
                            assert(old(self).model@.contains_key(old(self).peers@[j]@));
                        }
                    }
                    assert forall|k: Seq<char>| #[trigger] m.contains_key(k) implies exists|j: int|
                        0 <= j < self.peers@.len() && self.peers@[j]@ == k by {
                        if k != peer@ {
                            assert(old(self).model@.contains_key(k));
                            let j = choose|j: int| 0 <= j < old(self).peers@.len() && old(self).peers@[j]@ == k;
                            assert(self.peers@[j]@ == k);
                        } else {
                            assert(self.peers@[i as int]@ == k);
                        }
                    }
                }
            },
            None => {
                let ghost m0 = self.model@;
                self.peers.push(peer.clone());
                self.counts.push(1);
                self.model = Ghost(recorded(self.model@, peer@));
                proof {
                    let n = self.peers@.len();
                    assert(self.peers@[n - 1]@ == peer@);
                    assert forall|j: int| 0 <= j < n - 1 implies self.peers@[j]@ != peer@ by {
                        assert(m0.contains_key(old(self).peers@[j]@));
                    }
                    let m = self.model@;
                    assert forall|k: Seq<char>| #[trigger] m.contains_key(k) implies exists|j: int|
                        0 <= j < self.peers@.len() && self.peers@[j]@ == k by {
                        if k != peer@ {
                            assert(m0.contains_key(k));
                            let j = choose|j: int| 0 <= j < old(self).peers@.len() && old(self).peers@[j]@ == k;
                            assert(self.peers@[j]@ == k);
                        } else {
                            assert(self.peers@[n - 1]@ == k);
                        }
                    }
                }
            },
        }
    }

    /// The count recorded for `peer`, zero when it has none.
    pub fn count(&self, peer: &String) -> (r: u64)
        requires
            self.wf(),
        ensures
            r == count_in(self@, peer@),
    {
        match self.find(peer) {
            Some(i) => self.counts[i],
            None => 0,
        }
    }

    /// A copy of every entry, as (peer, count) pairs.
    pub fn snapshot(&self) -> (r: Vec<(String, u64)>)
        requires
            self.wf(),
        ensures
            forall|i: int|
                0 <= i < r@.len() ==> self@.contains_key(#[trigger] r@[i].0@) && self@[r@[i].0@]
                    == r@[i].1,
            forall|i: int, j: int| 0 <= i < j < r@.len() ==> r@[i].0@ != r@[j].0@,
            forall|k: Seq<char>|
                #[trigger] self@.contains_key(k) ==> exists|i: int| 0 <= i < r@.len() && r@[i].0@ == k,
    {
        let mut out: Vec<(String, u64)> = Vec::new();
        let mut i: usize = 0;
        while i < self.peers.len()
            invariant
                self.wf(),
                i <= self.peers@.len(),
                out@.len() == i,
                forall|j: int|
                    0 <= j < i ==> (#[trigger] out@[j]).0@ == self.peers@[j]@ && out@[j].1
                        == self.counts@[j],
            decreases self.peers@.len() - i,
        {
            out.push((self.peers[i].clone(), self.counts[i]));
            i = i + 1;
        }
        proof {
            assert forall|k: Seq<char>| #[trigger] self@.contains_key(k) implies exists|i: int|
                0 <= i < out@.len() && out@[i].0@ == k by {
                let j = choose|j: int| 0 <= j < self.peers@.len() && self.peers@[j]@ == k;
                assert(out@[j].0@ == k);
            }
        }
        out
    }
}

} // verus!
