use vstd::prelude::*;
use crate::error::NodeError;

verus! {

/// What the run controller is, abstractly: whether a scheduler is asked to
/// run, whether the idle slot holds the engine, and whether a scheduler
/// holds it (running, or stopped but not yet exited).
pub struct RunState {
    pub running: bool,
    pub holds_engine: bool,
    pub scheduler_holds: bool,
}

/// A scheduler asked to run holds the engine, and the engine a scheduler
/// holds is not in the slot.
pub open spec fn run_state_wf(s: RunState) -> bool {
    &&& s.running ==> s.scheduler_holds
    &&& s.scheduler_holds ==> !s.holds_engine
}

/// What `start` returns from state `s`: refused while a scheduler runs, busy
/// while a stopped scheduler still holds the engine, and unavailable when the
/// slot is empty with no scheduler holding the engine.
pub open spec fn start_outcome(s: RunState) -> Result<(), NodeError> {
    if s.running {
        Err(NodeError::AlreadyRunning)
    } else if s.scheduler_holds {
        Err(NodeError::EngineBusy)
    } else if !s.holds_engine {
        Err(NodeError::EngineUnavailable)
    } else {
        Ok(())
    }
}

/// The state after `start` from `s`.
pub open spec fn after_start(s: RunState) -> RunState {
    if start_outcome(s) is Ok {
        RunState { running: true, holds_engine: false, scheduler_holds: true }
    } else {
        s
    }
}

/// The state after `stop` from `s`.
pub open spec fn after_stop(s: RunState) -> RunState {
    RunState { running: false, ..s }
}

/// The state after an exiting scheduler put the engine back.
pub open spec fn after_finish(s: RunState) -> RunState {
    RunState { running: false, holds_engine: true, scheduler_holds: false }
}

/// A control call on the run controller, as the laws below replay them:
/// `Finish` is the exit of the scheduler that holds the engine, and does
/// nothing when none does.
pub enum RunOp {
    Start,
    Stop,
    Finish,
}

/// The state after one control call.
pub open spec fn after_op(s: RunState, op: RunOp) -> RunState {
    match op {
        RunOp::Start => after_start(s),
        RunOp::Stop => after_stop(s),
        RunOp::Finish => if s.scheduler_holds {
            after_finish(s)
        } else {
            s
        },
    }
}

/// The state after a sequence of control calls, with no scheduler exiting.
pub open spec fn after_ops(s: RunState, ops: Seq<RunOp>) -> RunState
    decreases ops.len(),
{
    if ops.len() == 0 {
        s
    } else {
        after_ops(after_op(s, ops[0]), ops.subrange(1, ops.len() as int))
    }
}

/// Starting again right after a start that succeeded is refused as already
/// running.
pub proof fn lemma_second_start_refused(s: RunState)
    requires
        run_state_wf(s),
        start_outcome(s) is Ok,
    ensures
        start_outcome(after_start(s)) == Err::<(), NodeError>(NodeError::AlreadyRunning),
{
}

/// Stopping a stopped controller changes nothing, and stopping twice is
/// stopping once.
pub proof fn lemma_stop_idempotent(s: RunState)
    requires
        run_state_wf(s),
    ensures
        !s.running ==> after_stop(s) == s,
        after_stop(after_stop(s)) == after_stop(s),
        run_state_wf(after_stop(s)),
{
}

/// A start succeeds only when no scheduler holds the engine, and leaves one
/// holding it; every control call keeps the controller well formed.
pub proof fn lemma_start_needs_free_engine(s: RunState, op: RunOp)
    requires
        run_state_wf(s),
    ensures
        start_outcome(s) is Ok ==> !s.scheduler_holds && after_start(s).scheduler_holds,
        run_state_wf(after_op(s, op)),
{
}

/// From any well-formed state where a scheduler holds the engine (running, or
/// stopped but not yet exited), no sequence of start and stop calls lets a
/// second scheduler start: every start in it is refused, and the first
/// scheduler keeps the engine.
pub proof fn lemma_single_scheduler(s: RunState, ops: Seq<RunOp>)
    requires
        run_state_wf(s),
        s.scheduler_holds,
        forall|i: int| 0 <= i < ops.len() ==> !(#[trigger] ops[i] is Finish),
    ensures
        forall|i: int|
            0 <= i < ops.len() && ops[i] is Start ==> #[trigger] start_outcome(
                after_ops(s, ops.take(i)),
            ) is Err,
        after_ops(s, ops).scheduler_holds,
        !after_ops(s, ops).holds_engine,
        run_state_wf(after_ops(s, ops)),
    decreases ops.len(),
{
    if ops.len() > 0 {
        let s1 = after_op(s, ops[0]);
        let rest = ops.subrange(1, ops.len() as int);
        assert forall|i: int| 0 <= i < rest.len() implies !(#[trigger] rest[i] is Finish) by {
            assert(rest[i] == ops[i + 1]);
        }
        lemma_single_scheduler(s1, rest);
        assert forall|i: int|
            0 <= i < ops.len() && ops[i] is Start implies #[trigger] start_outcome(
                after_ops(s, ops.take(i)),
            ) is Err by {
            if i > 0 {
                assert(ops.take(i).subrange(1, i) =~= rest.take(i - 1));
                assert(ops.take(i)[0] == ops[0]);
                assert(after_ops(s, ops.take(i)) == after_ops(s1, rest.take(i - 1)));
                assert(rest[i - 1] == ops[i]);
            } else {
                assert(ops.take(0).len() == 0);
            }
        }
    }
}

/// Owner of the network engine: an idle slot and a running flag. While a
/// scheduler runs, the engine is out of the slot and in the scheduler's hands;
/// on exit the scheduler puts it back.
pub struct RunController<E> {
    slot: Option<E>,
    running: bool,
    scheduler_holds: bool,
}

impl<E> View for RunController<E> {
    type V = RunState;

    closed spec fn view(&self) -> RunState {
        RunState {
            running: self.running,
            holds_engine: self.slot is Some,
            scheduler_holds: self.scheduler_holds,
        }
    }
}

impl<E> RunController<E> {
    pub open spec fn wf(&self) -> bool {
        run_state_wf(self@)
    }

    /// The engine in the slot, when there is one.
    pub closed spec fn engine(&self) -> Option<E> {
        self.slot
    }

    /// The slot holds an engine exactly when the view says so.
    pub proof fn lemma_engine_in_slot(&self)
        ensures
            self.engine() is Some <==> self@.holds_engine,
    {
    }

    /// An idle controller holding `engine`.
    pub fn new(engine: E) -> (r: RunController<E>)
        ensures
            r.wf(),
            r@ == (RunState { running: false, holds_engine: true, scheduler_holds: false }),
            r.engine() == Some(engine),
    {
        RunController { slot: Some(engine), running: false, scheduler_holds: false }
    }

    /// Whether a scheduler holds the engine.
    pub fn scheduler_active(&self) -> (r: bool)
        ensures
            r == self@.scheduler_holds,
    {
        self.scheduler_holds
    }

    /// Whether a scheduler is asked to run.
    pub fn is_running(&self) -> (r: bool)
        ensures
            r == self@.running,
    {
        self.running
    }

    /// Whether the idle slot holds the engine.
    pub fn holds_engine(&self) -> (r: bool)
        ensures
            r == self@.holds_engine,
    {
        self.slot.is_some()
    }

    /// Takes the engine out of the slot for a new scheduler and marks it
    /// running. Refused while a scheduler runs, busy while a stopped scheduler
    /// has not yet put the engine back, and unavailable when the slot is
    /// empty with no scheduler holding the engine.
    pub fn start(&mut self) -> (r: Result<E, NodeError>)
        requires
            old(self).wf(),
        ensures
            final(self).wf(),
            final(self)@ == after_start(old(self)@),
            match r {
                Ok(e) => start_outcome(old(self)@) is Ok && old(self).engine() == Some(e)
                    && final(self).engine() is None,
                Err(err) => start_outcome(old(self)@) == Err::<(), NodeError>(err)
                    && final(self).engine() == old(self).engine(),
            },
    {
        if self.running {
            return Err(NodeError::AlreadyRunning);
        }
        if self.scheduler_holds {
            return Err(NodeError::EngineBusy);
        }
        match self.slot.take() {
            Some(engine) => {
                self.running = true;
                self.scheduler_holds = true;
                Ok(engine)
            },
            None => Err(NodeError::EngineUnavailable),
        }
    }

    /// Asks the scheduler to exit; it sees the request before its next wait.
    pub fn stop(&mut self)
        requires
            old(self).wf(),
        ensures
            final(self).wf(),
            final(self)@ == after_stop(old(self)@),
            final(self).engine() == old(self).engine(),
    {
        self.running = false;
    }

    /// The check a scheduler makes before each wait: go on only while running.
    pub fn should_continue(&self) -> (r: bool)
        ensures
            r == self@.running,
    {
        self.running
    }

    /// An exiting scheduler puts the engine back; the controller is idle again.
    pub fn finish(&mut self, engine: E)
        requires
            old(self).wf(),
            old(self)@.scheduler_holds,
        ensures
            final(self).wf(),
            final(self)@ == after_finish(old(self)@),
            final(self).engine() == Some(engine),
    {
        self.slot = Some(engine);
        self.running = false;
        self.scheduler_holds = false;
    }

    /// Takes the engine out for one control operation while no scheduler holds
    /// it; the caller hands it back with `check_in`. Busy while a scheduler
    /// holds the engine, unavailable when the slot is empty otherwise.
    pub fn check_out(&mut self) -> (r: Result<E, NodeError>)
        requires
            old(self).wf(),
        ensures
            final(self).wf(),
            final(self).engine() is None,
            !final(self)@.holds_engine,
            final(self)@.running == old(self)@.running,
            final(self)@.scheduler_holds == old(self)@.scheduler_holds,
            r is Ok <==> old(self)@.holds_engine,
            match r {
                Ok(e) => old(self).engine() == Some(e) && !old(self)@.running
                    && !old(self)@.scheduler_holds,
                Err(err) => final(self)@ == old(self)@ && err == (if old(self)@.scheduler_holds {
                    NodeError::EngineBusy
                } else {
                    NodeError::EngineUnavailable
                }),
            },
    {
        match self.slot.take() {
            Some(engine) => Ok(engine),
            None => {
                if self.scheduler_holds {
                    Err(NodeError::EngineBusy)
                } else {
                    Err(NodeError::EngineUnavailable)
                }
            },
        }
    }

    /// Takes the engine out for a hash-table bootstrap round. Unlike other
    /// control operations, an engine out of the slot counts as unavailable
    /// here, whether or not a scheduler holds it; on refusal the controller is
    /// unchanged. The caller hands the engine back with `check_in`.
    pub fn check_out_for_bootstrap(&mut self) -> (r: Result<E, NodeError>)
        requires
            old(self).wf(),
        ensures
            final(self).wf(),
            r is Ok <==> old(self)@.holds_engine,
            match r {
                Ok(e) => old(self).engine() == Some(e) && final(self).engine() is None
                    && final(self)@ == (RunState { holds_engine: false, ..old(self)@ })
                    && !old(self)@.running && !old(self)@.scheduler_holds,
                Err(err) => err == NodeError::EngineUnavailable && final(self)@ == old(self)@
                    && final(self).engine() == old(self).engine(),
            },
    {
        match self.slot.take() {
            Some(engine) => Ok(engine),
            None => Err(NodeError::EngineUnavailable),
        }
    }

    /// Puts back an engine taken with `check_out` or `check_out_for_bootstrap`.
    pub fn check_in(&mut self, engine: E)
        requires
            old(self).wf(),
            !old(self)@.scheduler_holds,
            !old(self)@.holds_engine,
        ensures
            final(self).wf(),
            final(self)@ == (RunState { running: false, holds_engine: true, scheduler_holds: false }),
            final(self).engine() == Some(engine),
    {
        self.slot = Some(engine);
    }
}

} // verus!
