use vstd::prelude::*;
use crate::occurrence::Occurrence;
use crate::registry::Registry;
use crate::text_set::{TextSet, absent_from, texts, without};

verus! {

/// The open connections of a peer, zero when it has none.
pub open spec fn open_count(m: Map<Seq<char>, u64>, peer: Seq<char>) -> u64 {
    if m.contains_key(peer) {
        m[peer]
    } else {
        0
    }
}

/// The open-connection counts after occurrence `o`: an established
/// connection adds one for its peer, a closed one takes one away and forgets
/// the peer at zero.
pub open spec fn counts_after(m: Map<Seq<char>, u64>, o: Occurrence) -> Map<Seq<char>, u64> {
    match o {
        Occurrence::ConnectionEstablished { peer_id, .. } => {
            let c = open_count(m, peer_id@);
            m.insert(peer_id@, if c == u64::MAX { c } else { (c + 1) as u64 })
        },
        Occurrence::ConnectionClosed { peer_id, .. } => {
            let c = open_count(m, peer_id@);
            if c <= 1 {
                m.remove(peer_id@)
            } else {
                m.insert(peer_id@, (c - 1) as u64)
            }
        },
        _ => m,
    }
}

/// The listening addresses after occurrence `o`: a new address is added, an
/// expired one removed, and a closed listener's addresses removed.
pub open spec fn listeners_after(l: Seq<Seq<char>>, o: Occurrence) -> Seq<Seq<char>> {
    match o {
        Occurrence::NewListenAddr { address } => if l.contains(address@) {
            l
        } else {
            l.push(address@)
        },
        Occurrence::ExpiredListenAddr { address } => without(l, address@),
        Occurrence::ListenerClosed { addresses } => l.filter(absent_from(texts(addresses@))),
        _ => l,
    }
}

/// The external addresses after occurrence `o`: a confirmed address is added
/// and an expired one removed.
pub open spec fn externals_after(l: Seq<Seq<char>>, o: Occurrence) -> Seq<Seq<char>> {
    match o {
        Occurrence::ExternalAddrConfirmed { address } => if l.contains(address@) {
            l
        } else {
            l.push(address@)
        },
        Occurrence::ExternalAddrExpired { address } => without(l, address@),
        _ => l,
    }
}

/// What the node has seen of its connections, listening and external addresses,
/// kept apart from the engine so that it can be read while a scheduler owns
/// the engine.
pub struct ConnectionView {
    open: Registry<u64>,
    listening: TextSet,
    external: TextSet,
}

impl ConnectionView {
    pub closed spec fn wf(&self) -> bool {
        &&& self.open.wf()
        &&& self.listening.wf()
        &&& self.external.wf()
        &&& forall|k: Seq<char>| #[trigger] self.open@.contains_key(k) ==> self.open@[k] > 0
    }

    /// The number of open connections of each connected peer.
    pub closed spec fn open_connections(&self) -> Map<Seq<char>, u64> {
        self.open@
    }

    /// The listening addresses, in the order they were announced.
    pub closed spec fn listen_addrs(&self) -> Seq<Seq<char>> {
        self.listening@
    }

    /// The external addresses, in the order they were confirmed.
    pub closed spec fn external_addrs(&self) -> Seq<Seq<char>> {
        self.external@
    }

    pub fn new() -> (r: ConnectionView)
        ensures
            r.wf(),
            r.open_connections() == Map::<Seq<char>, u64>::empty(),
            r.listen_addrs() == Seq::<Seq<char>>::empty(),
            r.external_addrs() == Seq::<Seq<char>>::empty(),
    {
        ConnectionView { open: Registry::new(), listening: TextSet::new(), external: TextSet::new() }
    }

    /// Takes account of one occurrence.
    pub fn observe(&mut self, o: &Occurrence)
        requires
            old(self).wf(),
        ensures
            final(self).wf(),
            final(self).open_connections() == counts_after(old(self).open_connections(), *o),
            final(self).listen_addrs() == listeners_after(old(self).listen_addrs(), *o),
            final(self).external_addrs() == externals_after(old(self).external_addrs(), *o),
    {
        match o {
            Occurrence::ConnectionEstablished { peer_id, .. } => {
                let c = match self.open.get(peer_id) {
                    Some(n) => *n,
                    None => 0,
                };
                self.open.insert(peer_id.clone(), c.saturating_add(1));
            },
            Occurrence::ConnectionClosed { peer_id, .. } => {
                let c = match self.open.get(peer_id) {
                    Some(n) => *n,
                    None => 0,
                };
                if c <= 1 {
                    self.open.remove(peer_id);
                } else {
                    self.open.insert(peer_id.clone(), c - 1);
                }
            },
            Occurrence::NewListenAddr { address } => {
                self.listening.add(address.clone());
            },
            Occurrence::ExpiredListenAddr { address } => {
                self.listening.remove(address);
            },
            Occurrence::ListenerClosed { addresses } => {
                self.listening.remove_all(addresses);
            },
            Occurrence::ExternalAddrConfirmed { address } => {
                self.external.add(address.clone());
            },
            Occurrence::ExternalAddrExpired { address } => {
                self.external.remove(address);
            },
            _ => {},
        }
    }

    /// The peers with at least one open connection, each once.
    pub fn connected_peers(&self) -> (r: Vec<String>)
        requires
            self.wf(),
        ensures
            forall|i: int| 0 <= i < r@.len() ==> self.open_connections().contains_key(#[trigger] r@[i]@),
            forall|i: int, j: int| 0 <= i < j < r@.len() ==> r@[i]@ != r@[j]@,
            forall|k: Seq<char>|
                #[trigger] self.open_connections().contains_key(k) ==> exists|i: int|
                    0 <= i < r@.len() && r@[i]@ == k,
    {
        self.open.keys()
    }

    /// Whether `peer` has an open connection.
    pub fn is_connected(&self, peer: &String) -> (r: bool)
        requires
            self.wf(),
        ensures
            r == self.open_connections().contains_key(peer@),
    {
        self.open.contains_key(peer)
    }

    /// The external addresses.
    pub fn external_addresses(&self) -> (r: Vec<String>)
        ensures
            texts(r@) == self.external_addrs(),
    {
        self.external.to_vec()
    }

    /// The listening addresses.
    pub fn listeners(&self) -> (r: Vec<String>)
        ensures
            texts(r@) == self.listen_addrs(),
    {
        self.listening.to_vec()
    }
}

} // verus!
