use vstd::prelude::*;

verus! {

/// Largest number of events the log may hold.
pub const EVENT_LOG_CAP: usize = 1000;

/// Number of oldest events dropped in one batch when the log overflows.
pub const EVENT_LOG_EVICT: usize = 500;

/// One record of the event log: a kind tag with optional, kind-specific fields.
#[derive(Debug, Clone)]
pub struct CustomSwarmEvent {
    pub event_type: String,
    pub peer_id: Option<String>,
    pub data: Option<Vec<u8>>,
    pub address: Option<String>,
    pub topic: Option<String>,
}

/// The log after appending `e` to `log`: when the result exceeds the cap, the
/// oldest half of the cap is dropped in one batch.
pub open spec fn pushed(log: Seq<CustomSwarmEvent>, e: CustomSwarmEvent) -> Seq<CustomSwarmEvent> {
    let l = log.push(e);
    if l.len() > EVENT_LOG_CAP {
        l.subrange(EVENT_LOG_EVICT as int, l.len() as int)
    } else {
        l
    }
}

/// The log after appending each of `es` in turn.
pub open spec fn pushed_all(log: Seq<CustomSwarmEvent>, es: Seq<CustomSwarmEvent>) -> Seq<
    CustomSwarmEvent,
>
    decreases es.len(),
{
    if es.len() == 0 {
        log
    } else {
        pushed_all(pushed(log, es[0]), es.subrange(1, es.len() as int))
    }
}

/// What `drain` hands out from `log`, and what it leaves behind.
pub open spec fn drained(log: Seq<CustomSwarmEvent>) -> (Seq<CustomSwarmEvent>, Seq<CustomSwarmEvent>) {
    (log, Seq::empty())
}

/// Whatever sequence of events is pushed onto a log within the cap, the log
/// stays within the cap and holds exactly the most recent events in the
/// order they were pushed: all of them while they fit, and at least half the
/// cap's worth once they have overflowed it.
pub proof fn lemma_push_keeps_recent(log: Seq<CustomSwarmEvent>, es: Seq<CustomSwarmEvent>)
    requires
        log.len() <= EVENT_LOG_CAP,
    ensures
        ({
            let all = log + es;
            let r = pushed_all(log, es);
            &&& r.len() <= EVENT_LOG_CAP
            &&& r.len() <= all.len()
            &&& r == all.subrange(all.len() - r.len(), all.len() as int)
            &&& all.len() <= EVENT_LOG_CAP ==> r == all
            &&& all.len() > EVENT_LOG_CAP ==> r.len() >= EVENT_LOG_CAP / 2
        }),
    decreases es.len(),
{
    let all = log + es;
    if es.len() == 0 {
        assert(all =~= log);
    } else {
        let l1 = pushed(log, es[0]);
        let rest = es.subrange(1, es.len() as int);
        lemma_push_keeps_recent(l1, rest);
        let r = pushed_all(l1, rest);
        let all1 = l1 + rest;
        let pre = log.push(es[0]);
        assert(all =~= pre + rest);
        if pre.len() > EVENT_LOG_CAP {
            assert(all1 =~= all.subrange(EVENT_LOG_EVICT as int, all.len() as int));
        } else {
            assert(all1 =~= all);
        }
        assert(r =~= all.subrange(all.len() - r.len(), all.len() as int));
    }
}

/// Draining twice with no push between hands out nothing the second time.
pub proof fn lemma_drain_once(log: Seq<CustomSwarmEvent>)
    ensures
        drained(log).0 == log,
        drained(drained(log).1).0 == Seq::<CustomSwarmEvent>::empty(),
{
}

/// A bounded, ordered log of events: the scheduler appends, callers drain.
pub struct EventLog {
    events: Vec<CustomSwarmEvent>,
}

impl View for EventLog {
    type V = Seq<CustomSwarmEvent>;

    closed spec fn view(&self) -> Seq<CustomSwarmEvent> {
        self.events@
    }
}

impl EventLog {
    /// The log never holds more than the cap.
    pub open spec fn wf(&self) -> bool {
        self@.len() <= EVENT_LOG_CAP
    }

    pub fn new() -> (r: EventLog)
        ensures
            r.wf(),
            r@ == Seq::<CustomSwarmEvent>::empty(),
    {
        EventLog { events: Vec::new() }
    }

    pub fn len(&self) -> (r: usize)
        ensures
            r == self@.len(),
    {
        self.events.len()
    }

    /// Appends `e`; when the log then exceeds the cap, the oldest half of the
    /// cap is evicted in one operation.
    pub fn push(&mut self, e: CustomSwarmEvent)
        requires
            old(self).wf(),
        ensures
            final(self).wf(),
            final(self)@ == pushed(old(self)@, e),
    {
        self.events.push(e);
        if self.events.len() > EVENT_LOG_CAP {
            let kept = self.events.split_off(EVENT_LOG_EVICT);
            self.events = kept;
        }
    }

    /// Hands out every event in order and leaves the log empty.
    pub fn drain(&mut self) -> (r: Vec<CustomSwarmEvent>)
        requires
            old(self).wf(),
        ensures
            final(self).wf(),
            r@ == drained(old(self)@).0,
            final(self)@ == drained(old(self)@).1,
    {
        let mut out: Vec<CustomSwarmEvent> = Vec::new();
        core::mem::swap(&mut self.events, &mut out);
        out
    }
}

} // verus!
