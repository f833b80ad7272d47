use vstd::prelude::*;
use crate::address::{multiaddr_accepts, parse_address, parse_peer_id, peer_id_accepts};
use crate::error::NodeError;
use crate::registry::Registry;
use crate::text::{copy_bytes, copy_texts, has_infix, join, join_spec, joined, text_contains};
use crate::text_set::{TextSet, texts, without};

verus! {

/// A peer learned of by a discovery mechanism.
pub struct DiscoveredPeer {
    pub peer_id: String,
    pub addresses: Vec<String>,
    pub discovery_method: String,
    pub discovered_at: u64,
    pub protocols: Vec<String>,
}

/// Whether `a` and `b` hold the same texts and values.
pub open spec fn same_peer(a: DiscoveredPeer, b: DiscoveredPeer) -> bool {
    &&& a.peer_id@ == b.peer_id@
    &&& a.addresses@ == b.addresses@
    &&& a.discovery_method@ == b.discovery_method@
    &&& a.discovered_at == b.discovered_at
    &&& a.protocols@ == b.protocols@
}

/// Whether each peer of `m` is filed under its own identifier.
pub open spec fn filed_by_id(m: Map<Seq<char>, DiscoveredPeer>) -> bool {
    forall|k: Seq<char>| #[trigger] m.contains_key(k) ==> m[k].peer_id@ == k
}

/// Whether `r` lists, once each, copies of the peers of `m` that `keep` selects.
pub open spec fn lists_peers(
    r: Seq<DiscoveredPeer>,
    m: Map<Seq<char>, DiscoveredPeer>,
    keep: spec_fn(DiscoveredPeer) -> bool,
) -> bool {
    &&& forall|i: int|
        0 <= i < r.len() ==> m.contains_key(#[trigger] r[i].peer_id@) && same_peer(
            r[i],
            m[r[i].peer_id@],
        ) && keep(m[r[i].peer_id@])
    &&& forall|i: int, j: int| 0 <= i < j < r.len() ==> r[i].peer_id@ != r[j].peer_id@
    &&& forall|k: Seq<char>|
        #[trigger] m.contains_key(k) && keep(m[k]) ==> exists|i: int|
            0 <= i < r.len() && r[i].peer_id@ == k
}

/// Every peer.
pub open spec fn any_peer() -> spec_fn(DiscoveredPeer) -> bool {
    |p: DiscoveredPeer| true
}

/// The peers whose discovery method mentions `namespace`.
pub open spec fn in_namespace(namespace: Seq<char>) -> spec_fn(DiscoveredPeer) -> bool {
    |p: DiscoveredPeer| has_infix(p.discovery_method@, namespace)
}

impl DiscoveredPeer {
    /// A field-by-field copy.
    pub fn copy(&self) -> (r: DiscoveredPeer)
        ensures
            same_peer(r, *self),
    {
        DiscoveredPeer {
            peer_id: self.peer_id.clone(),
            addresses: copy_texts(&self.addresses),
            discovery_method: self.discovery_method.clone(),
            discovered_at: self.discovered_at,
            protocols: copy_texts(&self.protocols),
        }
    }
}

/// Copies of the peers of `peers` that `keep` selects, where `keep` is the
/// namespace filter when `namespace` is given and accepts all otherwise.
fn collect_peers(peers: &Registry<DiscoveredPeer>, namespace: Option<&String>) -> (r: Vec<
    DiscoveredPeer,
>)
    requires
        peers.wf(),
        filed_by_id(peers@),
    ensures
        lists_peers(
            r@,
            peers@,
            match namespace {
                Some(ns) => in_namespace(ns@),
                None => any_peer(),
            },
        ),
{
    let ghost keep = match namespace {
        Some(ns) => in_namespace(ns@),
        None => any_peer(),
    };
    let keys = peers.keys();
    let mut out: Vec<DiscoveredPeer> = Vec::new();
    let mut i: usize = 0;
    while i < keys.len()
        invariant
            peers.wf(),
            filed_by_id(peers@),
            keep == (match namespace {
                Some(ns) => in_namespace(ns@),
                None => any_peer(),
            }),
            i <= keys@.len(),
            forall|a: int| 0 <= a < keys@.len() ==> peers@.contains_key(#[trigger] keys@[a]@),
            forall|a: int, b: int| 0 <= a < b < keys@.len() ==> keys@[a]@ != keys@[b]@,
            forall|a: int|
                0 <= a < out@.len() ==> exists|b: int|
                    0 <= b < i && #[trigger] out@[a].peer_id@ == keys@[b]@,
            forall|a: int|
                0 <= a < out@.len() ==> peers@.contains_key(#[trigger] out@[a].peer_id@)
                    && same_peer(out@[a], peers@[out@[a].peer_id@]) && keep(
                    peers@[out@[a].peer_id@],
                ),
            forall|a: int, b: int| 0 <= a < b < out@.len() ==> out@[a].peer_id@ != out@[b].peer_id@,
            forall|b: int|
                0 <= b < i && #[trigger] keep(peers@[keys@[b]@]) ==> exists|a: int|
                    0 <= a < out@.len() && out@[a].peer_id@ == keys@[b]@,
        decreases keys@.len() - i,
    {
        let key = &keys[i];
        let p = peers.get(key).unwrap();
        let selected = match namespace {
            Some(ns) => text_contains(p.discovery_method.as_str(), ns.as_str()),
            None => true,
        };
        proof {
            assert(selected == keep(peers@[keys@[i as int]@]));
        }
        let ghost out0 = out@;
        if selected {
            out.push(p.copy());
            proof {
                assert(out@[out@.len() - 1].peer_id@ == keys@[i as int]@);
                assert forall|a: int, b: int| 0 <= a < b < out@.len() implies out@[a].peer_id@
                    != out@[b].peer_id@ by {
                    if b == out@.len() - 1 {
                        let c = choose|c: int| 0 <= c < i && #[trigger] out0[a].peer_id@ == keys@[c]@;
                        assert(out@[a] == out0[a]);
                    }
                }
                assert forall|a: int| 0 <= a < out@.len() implies exists|b: int|
                    0 <= b < i + 1 && #[trigger] out@[a].peer_id@ == keys@[b]@ by {
                    if a < out@.len() - 1 {
                        assert(out@[a] == out0[a]);
                        let c = choose|c: int| 0 <= c < i && #[trigger] out0[a].peer_id@ == keys@[c]@;
                    }
                }
            }
        }
        proof {
            assert forall|b: int|
                0 <= b < i + 1 && #[trigger] keep(peers@[keys@[b]@]) implies exists|a: int|
                0 <= a < out@.len() && out@[a].peer_id@ == keys@[b]@ by {
                if b == i {
                    assert(out@[out@.len() - 1].peer_id@ == keys@[b]@);
                } else {
                    let a = choose|a: int| 0 <= a < out0.len() && out0[a].peer_id@ == keys@[b]@;
                    assert(out@[a] == out0[a]);
                }
            }
        }
        i = i + 1;
    }
    proof {
        assert forall|k: Seq<char>| #[trigger] peers@.contains_key(k) && keep(peers@[k]) implies exists|a: int|
            0 <= a < out@.len() && out@[a].peer_id@ == k by {
            let b = choose|b: int| 0 <= b < keys@.len() && keys@[b]@ == k;
            assert(keep(peers@[keys@[b]@]));
        }
    }
    out
}

/// Peers found on the local network, and the query schedule.
pub struct MdnsManager {
    enabled: bool,
    discovered_peers: Registry<DiscoveredPeer>,
    query_interval: u64,
}

impl MdnsManager {
    pub closed spec fn wf(&self) -> bool {
        self.discovered_peers.wf() && filed_by_id(self.discovered_peers@)
    }

    /// The discovered peers, by identifier.
    pub closed spec fn peers(&self) -> Map<Seq<char>, DiscoveredPeer> {
        self.discovered_peers@
    }

    pub closed spec fn spec_enabled(&self) -> bool {
        self.enabled
    }

    pub closed spec fn spec_query_interval(&self) -> u64 {
        self.query_interval
    }

    /// Enabled, no peers, a query every thirty seconds.
    pub fn new() -> (r: MdnsManager)
        ensures
            r.wf(),
            r.spec_enabled(),
            r.peers() == Map::<Seq<char>, DiscoveredPeer>::empty(),
            r.spec_query_interval() == 30,
    {
        MdnsManager { enabled: true, discovered_peers: Registry::new(), query_interval: 30 }
    }

    pub fn enable(&mut self)
        ensures
            final(self).spec_enabled(),
            final(self).peers() == old(self).peers(),
            final(self).spec_query_interval() == old(self).spec_query_interval(),
            final(self).wf() == old(self).wf(),
    {
        self.enabled = true;
    }

    pub fn disable(&mut self)
        ensures
            !final(self).spec_enabled(),
            final(self).peers() == old(self).peers(),
            final(self).spec_query_interval() == old(self).spec_query_interval(),
            final(self).wf() == old(self).wf(),
    {
        self.enabled = false;
    }

    pub fn is_enabled(&self) -> (r: bool)
        ensures
            r == self.spec_enabled(),
    {
        self.enabled
    }

    pub fn set_query_interval(&mut self, seconds: u64)
        ensures
            final(self).spec_query_interval() == seconds,
            final(self).spec_enabled() == old(self).spec_enabled(),
            final(self).peers() == old(self).peers(),
            final(self).wf() == old(self).wf(),
    {
        self.query_interval = seconds;
    }

    pub fn get_query_interval(&self) -> (r: u64)
        ensures
            r == self.spec_query_interval(),
    {
        self.query_interval
    }

    /// Files `peer_id` with its addresses, found by mDNS at time `now`
    /// (seconds since the Unix epoch), replacing an earlier entry.
    pub fn add_discovered_peer(&mut self, peer_id: String, addresses: Vec<String>, now: u64)
        requires
            old(self).wf(),
        ensures
            final(self).wf(),
            final(self).peers().dom() == old(self).peers().dom().insert(peer_id@),
            forall|k: Seq<char>| k != peer_id@ && #[trigger] old(self).peers().contains_key(k)
                ==> final(self).peers()[k] == old(self).peers()[k],
            ({
                let p = final(self).peers()[peer_id@];
                &&& p.peer_id@ == peer_id@
                &&& p.addresses@ == addresses@
                &&& p.discovery_method@ == "mdns"@
                &&& p.discovered_at == now
                &&& p.protocols@.len() == 0
            }),
            final(self).spec_enabled() == old(self).spec_enabled(),
            final(self).spec_query_interval() == old(self).spec_query_interval(),
    {
        let peer = DiscoveredPeer {
            peer_id: peer_id.clone(),
            addresses,
            discovery_method: "mdns".to_owned(),
            discovered_at: now,
            protocols: Vec::new(),
        };
        self.discovered_peers.insert(peer_id, peer);
    }

    /// Copies of every discovered peer.
    pub fn get_discovered_peers(&self) -> (r: Vec<DiscoveredPeer>)
        requires
            self.wf(),
        ensures
            lists_peers(r@, self.peers(), any_peer()),
    {
        collect_peers(&self.discovered_peers, None)
    }

    pub fn clear_discovered_peers(&mut self)
        requires
            old(self).wf(),
        ensures
            final(self).wf(),
            final(self).peers() == Map::<Seq<char>, DiscoveredPeer>::empty(),
            final(self).spec_enabled() == old(self).spec_enabled(),
            final(self).spec_query_interval() == old(self).spec_query_interval(),
    {
        self.discovered_peers.clear();
    }

    /// Forgets `peer_id`; says whether it was known.
    pub fn remove_peer(&mut self, peer_id: String) -> (r: bool)
        requires
            old(self).wf(),
        ensures
            final(self).wf(),
            r == old(self).peers().contains_key(peer_id@),
            final(self).peers() == old(self).peers().remove(peer_id@),
            final(self).spec_enabled() == old(self).spec_enabled(),
            final(self).spec_query_interval() == old(self).spec_query_interval(),
    {
        self.discovered_peers.remove(&peer_id).is_some()
    }
}

/// Bootstrap addresses and locally cached records of the distributed hash
/// table, with its query settings.
pub struct KademliaManager {
    bootstrap_peers: TextSet,
    stored_records: Registry<Vec<u8>>,
    query_timeout: u64,
    replication_factor: usize,
}

impl KademliaManager {
    pub closed spec fn wf(&self) -> bool {
        self.bootstrap_peers.wf() && self.stored_records.wf()
    }

    /// The bootstrap addresses, in the order they were added.
    pub closed spec fn bootstrap(&self) -> Seq<Seq<char>> {
        self.bootstrap_peers@
    }

    /// The cached records, by key.
    pub closed spec fn records(&self) -> Map<Seq<char>, Vec<u8>> {
        self.stored_records@
    }

    pub closed spec fn spec_query_timeout(&self) -> u64 {
        self.query_timeout
    }

    pub closed spec fn spec_replication_factor(&self) -> usize {
        self.replication_factor
    }

    /// No bootstrap addresses, no records, a ten-second query timeout and a
    /// replication factor of twenty.
    pub fn new() -> (r: KademliaManager)
        ensures
            r.wf(),
            r.bootstrap() == Seq::<Seq<char>>::empty(),
            r.records() == Map::<Seq<char>, Vec<u8>>::empty(),
            r.spec_query_timeout() == 10,
            r.spec_replication_factor() == 20,
    {
        KademliaManager {
            bootstrap_peers: TextSet::new(),
            stored_records: Registry::new(),
            query_timeout: 10,
            replication_factor: 20,
        }
    }

    /// Adds a bootstrap address once; a malformed one is refused.
    pub fn add_bootstrap_peer(&mut self, peer_addr: String) -> (r: Result<(), NodeError>)
        requires
            old(self).wf(),
        ensures
            final(self).wf(),
            r is Ok <==> multiaddr_accepts(peer_addr@),
            r is Err ==> r == Err::<(), NodeError>(NodeError::InvalidAddress) && final(self).bootstrap()
                == old(self).bootstrap(),
            r is Ok ==> final(self).bootstrap() == if old(self).bootstrap().contains(peer_addr@) {
                old(self).bootstrap()
            } else {
                old(self).bootstrap().push(peer_addr@)
            },
            final(self).records() == old(self).records(),
            final(self).spec_query_timeout() == old(self).spec_query_timeout(),
            final(self).spec_replication_factor() == old(self).spec_replication_factor(),
    {
        match parse_address(peer_addr.as_str()) {
            Ok(_) => {
                self.bootstrap_peers.add(peer_addr);
                Ok(())
            },
            Err(e) => Err(e),
        }
    }

    pub fn remove_bootstrap_peer(&mut self, peer_addr: String)
        requires
            old(self).wf(),
        ensures
            final(self).wf(),
            final(self).bootstrap() == without(old(self).bootstrap(), peer_addr@),
            final(self).records() == old(self).records(),
            final(self).spec_query_timeout() == old(self).spec_query_timeout(),
            final(self).spec_replication_factor() == old(self).spec_replication_factor(),
    {
        self.bootstrap_peers.remove(&peer_addr);
    }

    pub fn get_bootstrap_peers(&self) -> (r: Vec<String>)
        ensures
            texts(r@) == self.bootstrap(),
    {
        self.bootstrap_peers.to_vec()
    }

    pub fn set_query_timeout(&mut self, seconds: u64)
        ensures
            final(self).spec_query_timeout() == seconds,
            final(self).bootstrap() == old(self).bootstrap(),
            final(self).records() == old(self).records(),
            final(self).spec_replication_factor() == old(self).spec_replication_factor(),
            final(self).wf() == old(self).wf(),
    {
        self.query_timeout = seconds;
    }

    pub fn get_query_timeout(&self) -> (r: u64)
        ensures
            r == self.spec_query_timeout(),
    {
        self.query_timeout
    }

    pub fn set_replication_factor(&mut self, factor: usize)
        ensures
            final(self).spec_replication_factor() == factor,
            final(self).bootstrap() == old(self).bootstrap(),
            final(self).records() == old(self).records(),
            final(self).spec_query_timeout() == old(self).spec_query_timeout(),
            final(self).wf() == old(self).wf(),
    {
        self.replication_factor = factor;
    }

    pub fn get_replication_factor(&self) -> (r: usize)
        ensures
            r == self.spec_replication_factor(),
    {
        self.replication_factor
    }

    pub fn cache_record(&mut self, key: String, value: Vec<u8>)
        requires
            old(self).wf(),
        ensures
            final(self).wf(),
            final(self).records() == old(self).records().insert(key@, value),
            final(self).bootstrap() == old(self).bootstrap(),
            final(self).spec_query_timeout() == old(self).spec_query_timeout(),
            final(self).spec_replication_factor() == old(self).spec_replication_factor(),
    {
        self.stored_records.insert(key, value);
    }

    pub fn get_cached_record(&self, key: String) -> (r: Option<Vec<u8>>)
        requires
            self.wf(),
        ensures
            r is Some == self.records().contains_key(key@),
            r is Some ==> r->0@ == self.records()[key@]@,
    {
        match self.stored_records.get(&key) {
            Some(v) => Some(copy_bytes(v)),
            None => None,
        }
    }

    pub fn remove_cached_record(&mut self, key: String) -> (r: bool)
        requires
            old(self).wf(),
        ensures
            final(self).wf(),
            r == old(self).records().contains_key(key@),
            final(self).records() == old(self).records().remove(key@),
            final(self).bootstrap() == old(self).bootstrap(),
            final(self).spec_query_timeout() == old(self).spec_query_timeout(),
            final(self).spec_replication_factor() == old(self).spec_replication_factor(),
    {
        self.stored_records.remove(&key).is_some()
    }

    pub fn get_cached_keys(&self) -> (r: Vec<String>)
        requires
            self.wf(),
        ensures
            forall|i: int| 0 <= i < r@.len() ==> self.records().contains_key(#[trigger] r@[i]@),
            forall|i: int, j: int| 0 <= i < j < r@.len() ==> r@[i]@ != r@[j]@,
            forall|k: Seq<char>|
                #[trigger] self.records().contains_key(k) ==> exists|i: int|
                    0 <= i < r@.len() && r@[i]@ == k,
    {
        self.stored_records.keys()
    }

    pub fn clear_cache(&mut self)
        requires
            old(self).wf(),
        ensures
            final(self).wf(),
            final(self).records() == Map::<Seq<char>, Vec<u8>>::empty(),
            final(self).bootstrap() == old(self).bootstrap(),
            final(self).spec_query_timeout() == old(self).spec_query_timeout(),
            final(self).spec_replication_factor() == old(self).spec_replication_factor(),
    {
        self.stored_records.clear();
    }

    pub fn get_cache_size(&self) -> (r: usize)
        requires
            self.wf(),
        ensures
            r == self.records().dom().len(),
    {
        self.stored_records.len()
    }
}

/// Number of probe results the reachability history keeps.
pub const PROBE_HISTORY_CAP: usize = 100;

/// The probe history after recording `result`: the oldest result leaves once
/// the cap is exceeded.
pub open spec fn probe_recorded(h: Seq<Seq<char>>, result: Seq<char>) -> Seq<Seq<char>> {
    let l = h.push(result);
    if l.len() > PROBE_HISTORY_CAP {
        l.subrange(1, l.len() as int)
    } else {
        l
    }
}

/// The reachability read off the last probe result: "public" when it
/// mentions public, else "private" when it mentions private, else "unknown".
pub open spec fn nat_status_of(last: Option<Seq<char>>) -> Seq<char> {
    match last {
        Some(r) => if has_infix(r, "public"@) {
            "public"@
        } else if has_infix(r, "private"@) {
            "private"@
        } else {
            "unknown"@
        },
        None => "unknown"@,
    }
}

/// Results of reachability probes and the status derived from them.
pub struct AutonatManager {
    enabled: bool,
    confidence_threshold: usize,
    last_probe_result: Option<String>,
    probe_history: Vec<String>,
}

impl AutonatManager {
    pub closed spec fn wf(&self) -> bool {
        self.probe_history@.len() <= PROBE_HISTORY_CAP
    }

    pub closed spec fn spec_enabled(&self) -> bool {
        self.enabled
    }

    pub closed spec fn spec_confidence_threshold(&self) -> usize {
        self.confidence_threshold
    }

    /// The last probe result, if any.
    pub closed spec fn last(&self) -> Option<Seq<char>> {
        match self.last_probe_result {
            Some(r) => Some(r@),
            None => None,
        }
    }

    /// The kept probe results, oldest first.
    pub closed spec fn history(&self) -> Seq<Seq<char>> {
        texts(self.probe_history@)
    }

    /// Enabled, a confidence threshold of three, no results.
    pub fn new() -> (r: AutonatManager)
        ensures
            r.wf(),
            r.spec_enabled(),
            r.spec_confidence_threshold() == 3,
            r.last() is None,
            r.history() == Seq::<Seq<char>>::empty(),
    {
        let r = AutonatManager {
            enabled: true,
            confidence_threshold: 3,
            last_probe_result: None,
            probe_history: Vec::new(),
        };
        proof {
            assert(r.history() =~= Seq::<Seq<char>>::empty());
        }
        r
    }

    pub fn enable(&mut self)
        ensures
            final(self).spec_enabled(),
            final(self).spec_confidence_threshold() == old(self).spec_confidence_threshold(),
            final(self).last() == old(self).last(),
            final(self).history() == old(self).history(),
            final(self).wf() == old(self).wf(),
    {
        self.enabled = true;
    }

    pub fn disable(&mut self)
        ensures
            !final(self).spec_enabled(),
            final(self).spec_confidence_threshold() == old(self).spec_confidence_threshold(),
            final(self).last() == old(self).last(),
            final(self).history() == old(self).history(),
            final(self).wf() == old(self).wf(),
    {
        self.enabled = false;
    }

    pub fn is_enabled(&self) -> (r: bool)
        ensures
            r == self.spec_enabled(),
    {
        self.enabled
    }

    pub fn set_confidence_threshold(&mut self, threshold: usize)
        ensures
            final(self).spec_confidence_threshold() == threshold,
            final(self).spec_enabled() == old(self).spec_enabled(),
            final(self).last() == old(self).last(),
            final(self).history() == old(self).history(),
            final(self).wf() == old(self).wf(),
    {
        self.confidence_threshold = threshold;
    }

    pub fn get_confidence_threshold(&self) -> (r: usize)
        ensures
            r == self.spec_confidence_threshold(),
    {
        self.confidence_threshold
    }

    /// Records `result` as the last result and appends it to the history,
    /// which keeps the most recent hundred.
    pub fn record_probe_result(&mut self, result: String)
        requires
            old(self).wf(),
        ensures
            final(self).wf(),
            final(self).last() == Some(result@),
            final(self).history() == probe_recorded(old(self).history(), result@),
            final(self).spec_enabled() == old(self).spec_enabled(),
            final(self).spec_confidence_threshold() == old(self).spec_confidence_threshold(),
    {
        let ghost h0 = self.probe_history@;
        self.last_probe_result = Some(result.clone());
        self.probe_history.push(result);
        proof {
            assert(texts(self.probe_history@) =~= texts(h0).push(result@));
        }
        if self.probe_history.len() > PROBE_HISTORY_CAP {
            let ghost h1 = self.probe_history@;
            let _oldest = self.probe_history.remove(0);
            proof {
                assert(texts(self.probe_history@) =~= texts(h1).subrange(1, h1.len() as int));
            }
        }
    }

    pub fn get_last_probe_result(&self) -> (r: Option<String>)
        ensures
            r is Some == self.last() is Some,
            r is Some ==> r->0@ == self.last()->0,
    {
        match &self.last_probe_result {
            Some(s) => Some(s.clone()),
            None => None,
        }
    }

    pub fn get_probe_history(&self) -> (r: Vec<String>)
        ensures
            texts(r@) == self.history(),
    {
        copy_texts(&self.probe_history)
    }

    /// Forgets every result, the last one included.
    pub fn clear_probe_history(&mut self)
        ensures
            final(self).wf(),
            final(self).last() is None,
            final(self).history() == Seq::<Seq<char>>::empty(),
            final(self).spec_enabled() == old(self).spec_enabled(),
            final(self).spec_confidence_threshold() == old(self).spec_confidence_threshold(),
    {
        self.probe_history.clear();
        self.last_probe_result = None;
        proof {
            assert(texts(self.probe_history@) =~= Seq::<Seq<char>>::empty());
        }
    }

    /// "public", "private" or "unknown", as the last probe result says.
    pub fn get_nat_status(&self) -> (r: String)
        ensures
            r@ == nat_status_of(self.last()),
    {
        match &self.last_probe_result {
            Some(last) => {
                if text_contains(last.as_str(), "public") {
                    "public".to_owned()
                } else if text_contains(last.as_str(), "private") {
                    "private".to_owned()
                } else {
                    "unknown".to_owned()
                }
            },
            None => "unknown".to_owned(),
        }
    }
}

/// Rendezvous points to register with, namespaces, and the peers found
/// through them.
pub struct RendezvousManager {
    registration_points: Registry<String>,
    discovered_peers: Registry<DiscoveredPeer>,
    namespaces: TextSet,
}

impl RendezvousManager {
    pub closed spec fn wf(&self) -> bool {
        &&& self.registration_points.wf()
        &&& self.discovered_peers.wf()
        &&& filed_by_id(self.discovered_peers@)
        &&& self.namespaces.wf()
    }

    /// The address of each registration point, by peer identifier.
    pub closed spec fn points(&self) -> Map<Seq<char>, String> {
        self.registration_points@
    }

    /// The discovered peers, by identifier.
    pub closed spec fn peers(&self) -> Map<Seq<char>, DiscoveredPeer> {
        self.discovered_peers@
    }

    /// The namespaces, in the order they were added.
    pub closed spec fn spaces(&self) -> Seq<Seq<char>> {
        self.namespaces@
    }

    pub fn new() -> (r: RendezvousManager)
        ensures
            r.wf(),
            r.points() == Map::<Seq<char>, String>::empty(),
            r.peers() == Map::<Seq<char>, DiscoveredPeer>::empty(),
            r.spaces() == Seq::<Seq<char>>::empty(),
    {
        RendezvousManager {
            registration_points: Registry::new(),
            discovered_peers: Registry::new(),
            namespaces: TextSet::new(),
        }
    }

    /// Files `address` as the registration point of `peer_id`; a malformed
    /// peer identifier, then a malformed address, is refused.
    pub fn add_registration_point(&mut self, peer_id: String, address: String) -> (r: Result<
        (),
        NodeError,
    >)
        requires
            old(self).wf(),
        ensures
            final(self).wf(),
            !peer_id_accepts(peer_id@) ==> r == Err::<(), NodeError>(NodeError::InvalidPeerId),
            peer_id_accepts(peer_id@) && !multiaddr_accepts(address@) ==> r == Err::<(), NodeError>(
                NodeError::InvalidAddress,
            ),
            peer_id_accepts(peer_id@) && multiaddr_accepts(address@) ==> r is Ok,
            r is Ok ==> final(self).points() == old(self).points().insert(peer_id@, address),
            r is Err ==> final(self).points() == old(self).points(),
            final(self).peers() == old(self).peers(),
            final(self).spaces() == old(self).spaces(),
    {
        match parse_peer_id(peer_id.as_str()) {
            Ok(_) => {},
            Err(e) => {
                return Err(e);
            },
        }
        match parse_address(address.as_str()) {
            Ok(_) => {},
            Err(e) => {
                return Err(e);
            },
        }
        self.registration_points.insert(peer_id, address);
        Ok(())
    }

    pub fn remove_registration_point(&mut self, peer_id: String) -> (r: bool)
        requires
            old(self).wf(),
        ensures
            final(self).wf(),
            r == old(self).points().contains_key(peer_id@),
            final(self).points() == old(self).points().remove(peer_id@),
            final(self).peers() == old(self).peers(),
            final(self).spaces() == old(self).spaces(),
    {
        self.registration_points.remove(&peer_id).is_some()
    }

    /// Every registration point, as (peer identifier, address) pairs.
    pub fn get_registration_points(&self) -> (r: Vec<(String, String)>)
        requires
            self.wf(),
        ensures
            forall|i: int|
                0 <= i < r@.len() ==> self.points().contains_key(#[trigger] r@[i].0@)
                    && self.points()[r@[i].0@]@ == r@[i].1@,
            forall|i: int, j: int| 0 <= i < j < r@.len() ==> r@[i].0@ != r@[j].0@,
            forall|k: Seq<char>|
                #[trigger] self.points().contains_key(k) ==> exists|i: int|
                    0 <= i < r@.len() && r@[i].0@ == k,
    {
        let keys = self.registration_points.keys();
        let mut out: Vec<(String, String)> = Vec::new();
        let mut i: usize = 0;
        while i < keys.len()
            invariant
                self.wf(),
                i <= keys@.len(),
                out@.len() == i,
                forall|a: int| 0 <= a < keys@.len() ==> self.points().contains_key(#[trigger] keys@[a]@),
                forall|a: int, b: int| 0 <= a < b < keys@.len() ==> keys@[a]@ != keys@[b]@,
                forall|a: int|
                    0 <= a < i ==> (#[trigger] out@[a]).0@ == keys@[a]@ && self.points()[keys@[a]@]@
                        == out@[a].1@,
            decreases keys@.len() - i,
        {
            let key = &keys[i];
            let addr = self.registration_points.get(key).unwrap();
            out.push((key.clone(), addr.clone()));
            i = i + 1;
        }
        proof {
            assert forall|k: Seq<char>| #[trigger] self.points().contains_key(k) implies exists|a: int|
                0 <= a < out@.len() && out@[a].0@ == k by {
                let b = choose|b: int| 0 <= b < keys@.len() && keys@[b]@ == k;
                assert(out@[b].0@ == k);
            }
        }
        out
    }

    pub fn add_namespace(&mut self, namespace: String)
        requires
            old(self).wf(),
        ensures
            final(self).wf(),
            final(self).spaces() == if old(self).spaces().contains(namespace@) {
                old(self).spaces()
            } else {
                old(self).spaces().push(namespace@)
            },
            final(self).points() == old(self).points(),
            final(self).peers() == old(self).peers(),
    {
        self.namespaces.add(namespace);
    }

    pub fn remove_namespace(&mut self, namespace: String) -> (r: bool)
        requires
            old(self).wf(),
        ensures
            final(self).wf(),
            r == old(self).spaces().contains(namespace@),
            final(self).spaces() == without(old(self).spaces(), namespace@),
            final(self).points() == old(self).points(),
            final(self).peers() == old(self).peers(),
    {
        self.namespaces.remove(&namespace)
    }

    pub fn get_namespaces(&self) -> (r: Vec<String>)
        ensures
            texts(r@) == self.spaces(),
    {
        self.namespaces.to_vec()
    }

    /// Files `peer_id` with its addresses, found in `namespace` at time `now`
    /// (seconds since the Unix epoch); its discovery method reads
    /// "rendezvous:" followed by the namespace.
    pub fn register_discovered_peer(
        &mut self,
        peer_id: String,
        addresses: Vec<String>,
        namespace: String,
        now: u64,
    )
        requires
            old(self).wf(),
        ensures
            final(self).wf(),
            final(self).peers().dom() == old(self).peers().dom().insert(peer_id@),
            forall|k: Seq<char>| k != peer_id@ && #[trigger] old(self).peers().contains_key(k)
                ==> final(self).peers()[k] == old(self).peers()[k],
            ({
                let p = final(self).peers()[peer_id@];
                &&& p.peer_id@ == peer_id@
                &&& p.addresses@ == addresses@
                &&& p.discovery_method@ == "rendezvous:"@ + namespace@
                &&& p.discovered_at == now
                &&& p.protocols@.len() == 0
            }),
            final(self).points() == old(self).points(),
            final(self).spaces() == old(self).spaces(),
    {
        let peer = DiscoveredPeer {
            peer_id: peer_id.clone(),
            addresses,
            discovery_method: joined("rendezvous:", namespace.as_str()),
            discovered_at: now,
            protocols: Vec::new(),
        };
        self.discovered_peers.insert(peer_id, peer);
    }

    /// Copies of the discovered peers whose discovery method mentions
    /// `namespace`.
    pub fn get_discovered_peers_in_namespace(&self, namespace: String) -> (r: Vec<DiscoveredPeer>)
        requires
            self.wf(),
        ensures
            lists_peers(r@, self.peers(), in_namespace(namespace@)),
    {
        collect_peers(&self.discovered_peers, Some(&namespace))
    }

    pub fn get_all_discovered_peers(&self) -> (r: Vec<DiscoveredPeer>)
        requires
            self.wf(),
        ensures
            lists_peers(r@, self.peers(), any_peer()),
    {
        collect_peers(&self.discovered_peers, None)
    }

    pub fn clear_discovered_peers(&mut self)
        requires
            old(self).wf(),
        ensures
            final(self).wf(),
            final(self).peers() == Map::<Seq<char>, DiscoveredPeer>::empty(),
            final(self).points() == old(self).points(),
            final(self).spaces() == old(self).spaces(),
    {
        self.discovered_peers.clear();
    }
}

/// What a peer told about itself through the identification protocol.
pub struct PeerInfo {
    pub agent_version: String,
    pub protocol_version: String,
    pub protocols: Vec<String>,
    pub discovered_at: u64,
}

impl PeerInfo {
    /// The protocols as one text, separated by commas.
    pub fn protocols_joined(&self) -> (r: String)
        ensures
            r@ == join_spec(texts(self.protocols@), ","@),
    {
        join(&self.protocols, ",")
    }

    /// A field-by-field copy.
    pub fn copy(&self) -> (r: PeerInfo)
        ensures
            r.agent_version@ == self.agent_version@,
            r.protocol_version@ == self.protocol_version@,
            r.protocols@ == self.protocols@,
            r.discovered_at == self.discovered_at,
    {
        PeerInfo {
            agent_version: self.agent_version.clone(),
            protocol_version: self.protocol_version.clone(),
            protocols: copy_texts(&self.protocols),
            discovered_at: self.discovered_at,
        }
    }
}

/// This node's identification data, and what other peers told of themselves.
pub struct IdentifyManager {
    agent_version: String,
    protocol_version: String,
    supported_protocols: TextSet,
    observed_addresses: TextSet,
    peer_info: Registry<PeerInfo>,
}

impl IdentifyManager {
    pub closed spec fn wf(&self) -> bool {
        &&& self.supported_protocols.wf()
        &&& self.observed_addresses.wf()
        &&& self.peer_info.wf()
    }

    pub closed spec fn agent(&self) -> Seq<char> {
        self.agent_version@
    }

    pub closed spec fn protocol(&self) -> Seq<char> {
        self.protocol_version@
    }

    /// The supported protocols, in the order they were added.
    pub closed spec fn supported(&self) -> Seq<Seq<char>> {
        self.supported_protocols@
    }

    /// The observed addresses, in the order they were added.
    pub closed spec fn observed(&self) -> Seq<Seq<char>> {
        self.observed_addresses@
    }

    /// What each peer told, by peer identifier.
    pub closed spec fn infos(&self) -> Map<Seq<char>, PeerInfo> {
        self.peer_info@
    }

    pub fn new() -> (r: IdentifyManager)
        ensures
            r.wf(),
            r.agent() == "voxa-libp2p/1.0.0"@,
            r.protocol() == "ipfs/0.1.0"@,
            r.supported() == Seq::<Seq<char>>::empty(),
            r.observed() == Seq::<Seq<char>>::empty(),
            r.infos() == Map::<Seq<char>, PeerInfo>::empty(),
    {
        IdentifyManager {
            agent_version: "voxa-libp2p/1.0.0".to_owned(),
            protocol_version: "ipfs/0.1.0".to_owned(),
            supported_protocols: TextSet::new(),
            observed_addresses: TextSet::new(),
            peer_info: Registry::new(),
        }
    }

    pub fn set_agent_version(&mut self, version: String)
        ensures
            final(self).agent() == version@,
            final(self).protocol() == old(self).protocol(),
            final(self).supported() == old(self).supported(),
            final(self).observed() == old(self).observed(),
            final(self).infos() == old(self).infos(),
            final(self).wf() == old(self).wf(),
    {
        self.agent_version = version;
    }

    pub fn get_agent_version(&self) -> (r: String)
        ensures
            r@ == self.agent(),
    {
        self.agent_version.clone()
    }

    pub fn set_protocol_version(&mut self, version: String)
        ensures
            final(self).protocol() == version@,
            final(self).agent() == old(self).agent(),
            final(self).supported() == old(self).supported(),
            final(self).observed() == old(self).observed(),
            final(self).infos() == old(self).infos(),
            final(self).wf() == old(self).wf(),
    {
        self.protocol_version = version;
    }

    pub fn get_protocol_version(&self) -> (r: String)
        ensures
            r@ == self.protocol(),
    {
        self.protocol_version.clone()
    }

    pub fn add_supported_protocol(&mut self, protocol: String)
        requires
            old(self).wf(),
        ensures
            final(self).wf(),
            final(self).supported() == if old(self).supported().contains(protocol@) {
                old(self).supported()
            } else {
                old(self).supported().push(protocol@)
            },
            final(self).observed() == old(self).observed(),
            final(self).infos() == old(self).infos(),
    {
        self.supported_protocols.add(protocol);
    }

    pub fn remove_supported_protocol(&mut self, protocol: String) -> (r: bool)
        requires
            old(self).wf(),
        ensures
            final(self).wf(),
            r == old(self).supported().contains(protocol@),
            final(self).supported() == without(old(self).supported(), protocol@),
            final(self).observed() == old(self).observed(),
            final(self).infos() == old(self).infos(),
    {
        self.supported_protocols.remove(&protocol)
    }

    pub fn get_supported_protocols(&self) -> (r: Vec<String>)
        ensures
            texts(r@) == self.supported(),
    {
        self.supported_protocols.to_vec()
    }

    /// Records an address others observed for this node; a malformed one is
    /// refused.
    pub fn add_observed_address(&mut self, address: String) -> (r: Result<(), NodeError>)
        requires
            old(self).wf(),
        ensures
            final(self).wf(),
            r is Ok <==> multiaddr_accepts(address@),
            r is Err ==> r == Err::<(), NodeError>(NodeError::InvalidAddress) && final(self).observed()
                == old(self).observed(),
            r is Ok ==> final(self).observed() == if old(self).observed().contains(address@) {
                old(self).observed()
            } else {
                old(self).observed().push(address@)
            },
            final(self).supported() == old(self).supported(),
            final(self).infos() == old(self).infos(),
    {
        match parse_address(address.as_str()) {
            Ok(_) => {
                self.observed_addresses.add(address);
                Ok(())
            },
            Err(e) => Err(e),
        }
    }

    pub fn get_observed_addresses(&self) -> (r: Vec<String>)
        ensures
            texts(r@) == self.observed(),
    {
        self.observed_addresses.to_vec()
    }

    /// Files what `peer_id` told at time `now` (seconds since the Unix
    /// epoch), replacing an earlier record.
    pub fn record_peer_info(
        &mut self,
        peer_id: String,
        agent_version: String,
        protocol_version: String,
        protocols: Vec<String>,
        now: u64,
    )
        requires
            old(self).wf(),
        ensures
            final(self).wf(),
            final(self).infos().dom() == old(self).infos().dom().insert(peer_id@),
            forall|k: Seq<char>| k != peer_id@ && #[trigger] old(self).infos().contains_key(k)
                ==> final(self).infos()[k] == old(self).infos()[k],
            ({
                let p = final(self).infos()[peer_id@];
                &&& p.agent_version@ == agent_version@
                &&& p.protocol_version@ == protocol_version@
                &&& p.protocols@ == protocols@
                &&& p.discovered_at == now
            }),
            final(self).supported() == old(self).supported(),
            final(self).observed() == old(self).observed(),
    {
        let info = PeerInfo { agent_version, protocol_version, protocols, discovered_at: now };
        self.peer_info.insert(peer_id, info);
    }

    pub fn get_peer_info(&self, peer_id: String) -> (r: Option<PeerInfo>)
        requires
            self.wf(),
        ensures
            r is Some == self.infos().contains_key(peer_id@),
            r is Some ==> {
                let p = self.infos()[peer_id@];
                &&& r->0.agent_version@ == p.agent_version@
                &&& r->0.protocol_version@ == p.protocol_version@
                &&& r->0.protocols@ == p.protocols@
                &&& r->0.discovered_at == p.discovered_at
            },
    {
        match self.peer_info.get(&peer_id) {
            Some(p) => Some(p.copy()),
            None => None,
        }
    }

    /// Copies of every record, as (peer identifier, record) pairs.
    pub fn get_all_peer_info(&self) -> (r: Vec<(String, PeerInfo)>)
        requires
            self.wf(),
        ensures
            forall|i: int|
                0 <= i < r@.len() ==> self.infos().contains_key(#[trigger] r@[i].0@) && ({
                    let p = self.infos()[r@[i].0@];
                    &&& r@[i].1.agent_version@ == p.agent_version@
                    &&& r@[i].1.protocol_version@ == p.protocol_version@
                    &&& r@[i].1.protocols@ == p.protocols@
                    &&& r@[i].1.discovered_at == p.discovered_at
                }),
            forall|i: int, j: int| 0 <= i < j < r@.len() ==> r@[i].0@ != r@[j].0@,
            forall|k: Seq<char>|
                #[trigger] self.infos().contains_key(k) ==> exists|i: int| 0 <= i < r@.len() && r@[i].0@ == k,
    {
        let keys = self.peer_info.keys();
        let mut out: Vec<(String, PeerInfo)> = Vec::new();
        let mut i: usize = 0;
        while i < keys.len()
            invariant
                self.wf(),
                i <= keys@.len(),
                out@.len() == i,
                forall|a: int| 0 <= a < keys@.len() ==> self.infos().contains_key(#[trigger] keys@[a]@),
                forall|a: int, b: int| 0 <= a < b < keys@.len() ==> keys@[a]@ != keys@[b]@,
                forall|a: int|
                    0 <= a < i ==> (#[trigger] out@[a]).0@ == keys@[a]@ && ({
                        let p = self.infos()[keys@[a]@];
                        &&& out@[a].1.agent_version@ == p.agent_version@
                        &&& out@[a].1.protocol_version@ == p.protocol_version@
                        &&& out@[a].1.protocols@ == p.protocols@
                        &&& out@[a].1.discovered_at == p.discovered_at
                    }),
            decreases keys@.len() - i,
        {
            let key = &keys[i];
            let info = self.peer_info.get(key).unwrap();
            out.push((key.clone(), info.copy()));
            i = i + 1;
        }
        proof {
            assert forall|k: Seq<char>| #[trigger] self.infos().contains_key(k) implies exists|a: int|
                0 <= a < out@.len() && out@[a].0@ == k by {
                let b = choose|b: int| 0 <= b < keys@.len() && keys@[b]@ == k;
                assert(out@[b].0@ == k);
            }
        }
        out
    }

    /// The identifiers of the peers with a record.
    pub fn get_peer_ids(&self) -> (r: Vec<String>)
        requires
            self.wf(),
        ensures
            forall|i: int| 0 <= i < r@.len() ==> self.infos().contains_key(#[trigger] r@[i]@),
            forall|i: int, j: int| 0 <= i < j < r@.len() ==> r@[i]@ != r@[j]@,
            forall|k: Seq<char>|
                #[trigger] self.infos().contains_key(k) ==> exists|i: int|
                    0 <= i < r@.len() && r@[i]@ == k,
    {
        self.peer_info.keys()
    }

    pub fn remove_peer_info(&mut self, peer_id: String) -> (r: bool)
        requires
            old(self).wf(),
        ensures
            final(self).wf(),
            r == old(self).infos().contains_key(peer_id@),
            final(self).infos() == old(self).infos().remove(peer_id@),
            final(self).supported() == old(self).supported(),
            final(self).observed() == old(self).observed(),
    {
        self.peer_info.remove(&peer_id).is_some()
    }

    pub fn clear_peer_info(&mut self)
        requires
            old(self).wf(),
        ensures
            final(self).wf(),
            final(self).infos() == Map::<Seq<char>, PeerInfo>::empty(),
            final(self).supported() == old(self).supported(),
            final(self).observed() == old(self).observed(),
    {
        self.peer_info.clear();
    }
}

} // verus!
