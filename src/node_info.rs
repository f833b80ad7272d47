use vstd::prelude::*;
use crate::text_set::texts;

verus! {

/// The protocol identifiers the node speaks.
pub open spec fn node_protocol_ids() -> Seq<Seq<char>> {
    seq![
        "/ipfs/ping/1.0.0"@,
        "/ipfs/id/1.0.0"@,
        "/ipfs/kad/1.0.0"@,
        "/meshsub/1.1.0"@,
        "/meshsub/1.0.0"@,
        "/libp2p/autonat/1.0.0"@,
        "/libp2p/circuit/relay/0.2.0/hop"@,
        "/libp2p/dcutr"@,
    ]
}

/// The protocol identifiers the node speaks, in a fixed order.
pub fn supported_protocols() -> (r: Vec<String>)
    ensures
        texts(r@) == node_protocol_ids(),
{
    let mut ids: Vec<String> = Vec::new();
    ids.push("/ipfs/ping/1.0.0".to_owned());
    ids.push("/ipfs/id/1.0.0".to_owned());
    ids.push("/ipfs/kad/1.0.0".to_owned());
    ids.push("/meshsub/1.1.0".to_owned());
    ids.push("/meshsub/1.0.0".to_owned());
    ids.push("/libp2p/autonat/1.0.0".to_owned());
    ids.push("/libp2p/circuit/relay/0.2.0/hop".to_owned());
    ids.push("/libp2p/dcutr".to_owned());
    proof {
        assert(texts(ids@) =~= node_protocol_ids());
    }
    ids
}

} // verus!
