use vstd::prelude::*;
use crate::error::NodeError;

verus! {

#[verifier::external_type_specification]
#[verifier::external_body]
pub struct ExMultiaddr(libp2p::Multiaddr);

#[verifier::external_type_specification]
#[verifier::external_body]
pub struct ExMultiaddrError(libp2p::multiaddr::Error);

#[verifier::external_type_specification]
#[verifier::external_body]
pub struct ExPeerId(libp2p::PeerId);

#[verifier::external_type_specification]
#[verifier::external_body]
pub struct ExPeerIdParseError(libp2p::identity::ParseError);

/// Whether the multiaddress grammar accepts the text.
pub uninterp spec fn multiaddr_accepts(s: Seq<char>) -> bool;

/// Whether the text is the base-58 form of a peer identifier.
pub uninterp spec fn peer_id_accepts(s: Seq<char>) -> bool;

/// Relies on `<libp2p::Multiaddr as FromStr>::from_str`: whether the text
/// parses depends on the text alone, and a non-empty text that does not start
/// with `/` is refused.
#[verifier::external_body]
fn multiaddr_from_str(s: &str) -> (r: Result<libp2p::Multiaddr, libp2p::multiaddr::Error>)
    ensures
        r is Ok == multiaddr_accepts(s@),
        s@.len() > 0 && s@[0] != '/' ==> r is Err,
{
    s.parse::<libp2p::Multiaddr>()
}

/// Relies on `<libp2p::PeerId as FromStr>::from_str`: whether the text parses
/// depends on the text alone.
#[verifier::external_body]
fn peer_id_from_str(s: &str) -> (r: Result<libp2p::PeerId, libp2p::identity::ParseError>)
    ensures
        r is Ok == peer_id_accepts(s@),
{
    s.parse::<libp2p::PeerId>()
}

/// Parses a multiaddress; a malformed one is `InvalidAddress`.
pub fn parse_address(address: &str) -> (r: Result<libp2p::Multiaddr, NodeError>)
    ensures
        r is Ok <==> multiaddr_accepts(address@),
        r is Err ==> r == Err::<libp2p::Multiaddr, NodeError>(NodeError::InvalidAddress),
        address@.len() > 0 && address@[0] != '/' ==> r is Err,
{
    match multiaddr_from_str(address) {
        Ok(a) => Ok(a),
        Err(_) => Err(NodeError::InvalidAddress),
    }
}

/// Parses a peer identifier; a malformed one is `InvalidPeerId`.
pub fn parse_peer_id(peer_id: &str) -> (r: Result<libp2p::PeerId, NodeError>)
    ensures
        r is Ok <==> peer_id_accepts(peer_id@),
        r is Err ==> r == Err::<libp2p::PeerId, NodeError>(NodeError::InvalidPeerId),
{
    match peer_id_from_str(peer_id) {
        Ok(p) => Ok(p),
        Err(_) => Err(NodeError::InvalidPeerId),
    }
}

/// Whether `address` is a well-formed multiaddress.
pub fn is_valid_address(address: &str) -> (r: bool)
    ensures
        r == multiaddr_accepts(address@),
{
    parse_address(address).is_ok()
}

/// Whether `peer_id` is a well-formed peer identifier.
pub fn is_valid_peer_id(peer_id: &str) -> (r: bool)
    ensures
        r == peer_id_accepts(peer_id@),
{
    parse_peer_id(peer_id).is_ok()
}

} // verus!
