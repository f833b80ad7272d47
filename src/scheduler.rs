use vstd::prelude::*;
use crate::error::NodeError;
use crate::events::CustomSwarmEvent;
use crate::occurrence::{Occurrence, describes};
use crate::text_set::TextSet;

verus! {

/// What the scheduler does with one occurrence: the event to append to the
/// log, the peer whose connection counter to advance, and the peer to
/// disconnect because it is banned. The connection view takes the occurrence
/// itself (`ConnectionView::observe`). Each part is applied under its own
/// guard, one at a time.
pub struct StepPlan {
    pub event: CustomSwarmEvent,
    pub counted_peer: Option<String>,
    pub disconnect: Option<String>,
}

/// Plans the scheduler's handling of `occurrence`, with `banned` the peers
/// refused. The event describes the occurrence; an established connection
/// advances its peer's counter, and is to be closed when that peer is banned.
pub fn plan_step(occurrence: &Occurrence, banned: &TextSet) -> (r: StepPlan)
    ensures
        describes(r.event, *occurrence),
        r.counted_peer is Some == occurrence.established_with() is Some,
        r.counted_peer is Some ==> r.counted_peer->0@ == occurrence.established_with()->0,
        r.disconnect is Some <==> (occurrence.established_with() is Some && banned@.contains(
            occurrence.established_with()->0,
        )),
        r.disconnect is Some ==> r.disconnect->0@ == occurrence.established_with()->0,
{
    let event = occurrence.to_event();
    let counted_peer = occurrence.established_peer();
    let disconnect = match &counted_peer {
        Some(p) => if banned.contains(p) {
            Some(p.clone())
        } else {
            None
        },
        None => None,
    };
    StepPlan { event, counted_peer, disconnect }
}

/// Whether a dial to `target` (the peer named in the address, if any) may go
/// ahead: refused with `DialFailure` exactly when that peer is banned.
pub fn dial_permitted(banned: &TextSet, target: Option<&String>) -> (r: Result<(), NodeError>)
    ensures
        r is Err <==> (target is Some && banned@.contains(target->0@)),
        r is Err ==> r == Err::<(), NodeError>(NodeError::DialFailure),
{
    match target {
        Some(p) => if banned.contains(p) {
            Err(NodeError::DialFailure)
        } else {
            Ok(())
        },
        None => Ok(()),
    }
}

} // verus!
