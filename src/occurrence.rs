use vstd::prelude::*;
use crate::events::CustomSwarmEvent;
use crate::text::copy_bytes;

verus! {

/// One occurrence that the network engine yields when advanced, carrying the
/// fields the event log records.
pub enum Occurrence {
    /// The engine started listening on `address`.
    NewListenAddr { address: String },
    /// The engine stopped listening on `address`.
    ExpiredListenAddr { address: String },
    /// A listener closed, and with it the listening on each of `addresses`.
    ListenerClosed { addresses: Vec<String> },
    /// `address` was confirmed as reachable from outside.
    ExternalAddrConfirmed { address: String },
    /// `address` is no longer reachable from outside.
    ExternalAddrExpired { address: String },
    /// A connection with `peer_id` at `address` was established.
    ConnectionEstablished { peer_id: String, address: String },
    /// A connection with `peer_id` was closed, for the reason in `cause`.
    ConnectionClosed { peer_id: String, cause: Vec<u8> },
    /// A protocol handler reported something, described in `description`.
    Behaviour { description: Vec<u8> },
    /// Any other occurrence, described in `description`.
    Other { description: Vec<u8> },
}

/// Whether `e` is the event the log records for occurrence `o`.
pub open spec fn describes(e: CustomSwarmEvent, o: Occurrence) -> bool {
    match o {
        Occurrence::NewListenAddr { address } => {
            &&& e.event_type@ == "NewListenAddr"@
            &&& e.peer_id is None
            &&& e.data is None
            &&& e.address is Some && e.address->0@ == address@
            &&& e.topic is None
        },
        Occurrence::ExpiredListenAddr { address } => {
            &&& e.event_type@ == "ExpiredListenAddr"@
            &&& e.peer_id is None
            &&& e.data is None
            &&& e.address is Some && e.address->0@ == address@
            &&& e.topic is None
        },
        Occurrence::ListenerClosed { addresses } => {
            &&& e.event_type@ == "ListenerClosed"@
            &&& e.peer_id is None
            &&& e.data is None
            &&& e.address is None
            &&& e.topic is None
        },
        Occurrence::ExternalAddrConfirmed { address } => {
            &&& e.event_type@ == "ExternalAddrConfirmed"@
            &&& e.peer_id is None
            &&& e.data is None
            &&& e.address is Some && e.address->0@ == address@
            &&& e.topic is None
        },
        Occurrence::ExternalAddrExpired { address } => {
            &&& e.event_type@ == "ExternalAddrExpired"@
            &&& e.peer_id is None
            &&& e.data is None
            &&& e.address is Some && e.address->0@ == address@
            &&& e.topic is None
        },
        Occurrence::ConnectionEstablished { peer_id, address } => {
            &&& e.event_type@ == "ConnectionEstablished"@
            &&& e.peer_id is Some && e.peer_id->0@ == peer_id@
            &&& e.data is None
            &&& e.address is Some && e.address->0@ == address@
            &&& e.topic is None
        },
        Occurrence::ConnectionClosed { peer_id, cause } => {
            &&& e.event_type@ == "ConnectionClosed"@
            &&& e.peer_id is Some && e.peer_id->0@ == peer_id@
            &&& e.data is Some && e.data->0@ == cause@
            &&& e.address is None
            &&& e.topic is None
        },
        Occurrence::Behaviour { description } => {
            &&& e.event_type@ == "BehaviourEvent"@
            &&& e.peer_id is None
            &&& e.data is Some && e.data->0@ == description@
            &&& e.address is None
            &&& e.topic is None
        },
        Occurrence::Other { description } => {
            &&& e.event_type@ == "Other"@
            &&& e.peer_id is None
            &&& e.data is Some && e.data->0@ == description@
            &&& e.address is None
            &&& e.topic is None
        },
    }
}

impl Occurrence {
    /// The peer whose connection counter this occurrence advances: the peer of
    /// an established connection, and nobody otherwise.
    pub open spec fn established_with(&self) -> Option<Seq<char>> {
        match self {
            Occurrence::ConnectionEstablished { peer_id, .. } => Some(peer_id@),
            _ => None,
        }
    }

    /// The peer of an established connection, if this is one.
    pub fn established_peer(&self) -> (r: Option<String>)
        ensures
            r is Some == self.established_with() is Some,
            r is Some ==> r->0@ == self.established_with()->0,
    {
        match self {
            Occurrence::ConnectionEstablished { peer_id, .. } => Some(peer_id.clone()),
            _ => None,
        }
    }

    /// The event the log records for this occurrence.
    pub fn into_event(self) -> (e: CustomSwarmEvent)
        ensures
            describes(e, self),
    {
        self.to_event()
    }

    /// The event the log records for this occurrence, built from copies of
    /// its fields.
    pub fn to_event(&self) -> (e: CustomSwarmEvent)
        ensures
            describes(e, *self),
    {
        let (kind, peer_id, data, address): (&str, Option<String>, Option<Vec<u8>>, Option<String>) =
            match self {
            Occurrence::NewListenAddr { address } => ("NewListenAddr", None, None, Some(address.clone())),
            Occurrence::ExpiredListenAddr { address } => (
                "ExpiredListenAddr",
                None,
                None,
                Some(address.clone()),
            ),
            Occurrence::ListenerClosed { .. } => ("ListenerClosed", None, None, None),
            Occurrence::ExternalAddrConfirmed { address } => (
                "ExternalAddrConfirmed",
                None,
                None,
                Some(address.clone()),
            ),
            Occurrence::ExternalAddrExpired { address } => (
                "ExternalAddrExpired",
                None,
                None,
                Some(address.clone()),
            ),
            Occurrence::ConnectionEstablished { peer_id, address } => (
                "ConnectionEstablished",
                Some(peer_id.clone()),
                None,
                Some(address.clone()),
            ),
            Occurrence::ConnectionClosed { peer_id, cause } => (
                "ConnectionClosed",
                Some(peer_id.clone()),
                Some(copy_bytes(cause)),
                None,
            ),
            Occurrence::Behaviour { description } => ("BehaviourEvent", None, Some(copy_bytes(description)), None),
            Occurrence::Other { description } => ("Other", None, Some(copy_bytes(description)), None),
        };
        CustomSwarmEvent { event_type: kind.to_owned(), peer_id, data, address, topic: None }
    }
}

} // verus!
