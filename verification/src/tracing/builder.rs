//! Builds the call trace of one execution from its events.
//!
//! The engine reports when a frame is entered, when the current frame emits
//! a log or destroys its contract, and when it ends. Enter and exit events
//! nest like brackets. The builder keeps the frames in the order of entry and
//! the running frames on a stack. An event that does not nest is refused and
//! ends the construction: from then on the builder refuses everything, so
//! that no trace with a gap is ever handed out.

use crate::inspector::{
    neutral, CallInputs, CallOutcome, CreateInputs, CreateOutcome, Event, InstructionResult,
    Inspector, Interpreter, InterpreterResult, Log, Reply,
};
use crate::primitives::{copy_vec, Address, U256};
use crate::tracing::model::{
    lemma_entered_wf, lemma_exited_wf, lemma_finalized_wf, lemma_refused_wf, lemma_touched_wf,
    CompletedView, TraceView,
};
use crate::tracing::types::{
    frames_view, CallKind, CallTraceNode, FrameOutcome, FrameView, SelfdestructRecord,
    SelfdestructRule, TraceError,
};
use vstd::prelude::*;

verus! {

/// How the builder is set up.
#[derive(Clone, Copy, Debug, PartialEq, Eq)]
pub struct TracingInspectorConfig {
    /// The first protocol version under which a self-destruct is recorded
    /// without its transfer; absent if the transfer is always recorded.
    pub transfer_hidden_since: Option<u8>,
}

impl TracingInspectorConfig {
    /// The rule under which an execution under `protocol_version` records a
    /// self-destruct.
    #[verifier::when_used_as_spec(spec_rule_for)]
    pub fn rule_for(&self, protocol_version: u8) -> (rule: SelfdestructRule)
        ensures
            rule == self.spec_rule_for(protocol_version),
    {
        match self.transfer_hidden_since {
            Some(first) => if protocol_version >= first {
                SelfdestructRule::HideTransfer
            } else {
                SelfdestructRule::ShowTransfer
            },
            None => SelfdestructRule::ShowTransfer,
        }
    }

    /// The rule under which an execution under `protocol_version` records a
    /// self-destruct: the transfer is hidden from the configured version on.
    pub open spec fn spec_rule_for(&self, protocol_version: u8) -> SelfdestructRule {
        match self.transfer_hidden_since {
            Some(first) => if protocol_version >= first {
                SelfdestructRule::HideTransfer
            } else {
                SelfdestructRule::ShowTransfer
            },
            None => SelfdestructRule::ShowTransfer,
        }
    }
}

/// A closed trace: the frames of one execution, all ended, and the gas that
/// the whole transaction used.
#[derive(Debug)]
pub struct CompletedTrace {
    frames: Vec<CallTraceNode>,
    total_gas_used: u64,
}

impl View for CompletedTrace {
    type V = CompletedView;

    closed spec fn view(&self) -> CompletedView {
        CompletedView { frames: frames_view(self.frames@), total_gas_used: self.total_gas_used }
    }
}

impl CompletedTrace {
    #[verifier::type_invariant]
    spec fn inv(&self) -> bool {
        self@.wf()
    }

    /// The frames of the trace, in the order in which they were entered.
    pub fn nodes(&self) -> (nodes: &Vec<CallTraceNode>)
        ensures
            frames_view(nodes@) == self@.frames,
            self@.wf(),
    {
        proof {
            use_type_invariant(self);
        }
        &self.frames
    }

    /// The gas that the whole transaction used.
    pub fn total_gas_used(&self) -> (gas: u64)
        ensures
            gas == self@.total_gas_used,
    {
        self.total_gas_used
    }
}

/// The builder's data.
#[derive(Debug)]
struct State {
    frames: Vec<CallTraceNode>,
    stack: Vec<usize>,
    rule: SelfdestructRule,
    aborted: bool,
    completed: Option<CompletedTrace>,
}

impl View for State {
    type V = TraceView;

    closed spec fn view(&self) -> TraceView {
        TraceView {
            frames: frames_view(self.frames@),
            open: self.stack@,
            rule: self.rule,
            aborted: self.aborted,
            completed: match self.completed {
                Some(completed) => Some(completed@),
                None => None,
            },
        }
    }
}

impl State {
    fn fresh(rule: SelfdestructRule) -> (state: State)
        ensures
            state@ == TraceView::fresh(rule),
            state@.wf(),
    {
        let state = State {
            frames: Vec::new(),
            stack: Vec::new(),
            rule,
            aborted: false,
            completed: None,
        };
        assert(state@.frames =~= Seq::<FrameView>::empty());
        state
    }

    fn enter(
        &mut self,
        kind: CallKind,
        caller: Address,
        address: Address,
        input: Vec<u8>,
        value: U256,
        gas_limit: u64,
    ) -> (entered: Result<usize, TraceError>)
        requires
            old(self)@.wf(),
        ensures
            final(self)@.wf(),
            match entered {
                Ok(handle) => {
                    &&& old(self)@.can_enter()
                    &&& handle == old(self)@.frames.len()
                    &&& final(self)@ == old(self)@.entered(
                        kind,
                        caller,
                        address,
                        input@,
                        value,
                        gas_limit,
                    )
                },
                Err(error) => {
                    &&& !old(self)@.can_enter()
                    &&& error == old(self)@.refusal()
                    &&& final(self)@ == old(self)@.refused()
                },
            },
    {
        if self.completed.is_some() {
            return Err(TraceError::AlreadyFinalized);
        }
        let index: usize = self.frames.len();
        let depth: usize = self.stack.len();
        if self.aborted || (depth == 0 && index > 0) {
            return Err(self.abort());
        }
        let ghost before = self@;
        let mut parent: Option<usize> = None;
        let mut trace_address: Vec<usize> = Vec::new();
        if depth > 0 {
            let top: usize = self.stack[depth - 1];
            proof {
                assert(before.open_ok(depth - 1));
            }
            trace_address = copy_vec(&self.frames[top].trace_address);
            trace_address.push(self.frames[top].children.len());
            self.frames[top].children.push(index);
            parent = Some(top);
        }
        let recorded: U256 = if kind.carries_no_value() {
            U256::zero()
        } else {
            value
        };
        self.frames.push(
            CallTraceNode {
                parent,
                children: Vec::new(),
                trace_address,
                kind,
                caller,
                address,
                value: recorded,
                gas_limit,
                input,
                outcome: None,
                selfdestruct: None,
                logs: Vec::new(),
            },
        );
        self.stack.push(index);
        proof {
            if depth > 0 {
                let top = before.open.last() as int;
                assert(self.frames@[top].children.len() <= usize::MAX);
                assert(self.frames@[top].children@.len() == before.frames[top].children.len() + 1);
            }
            lemma_entered_wf(before, kind, caller, address, input@, value, gas_limit);
            let after = before.entered(kind, caller, address, input@, value, gas_limit);
            assert(self@.frames.len() == after.frames.len());
            assert forall|i: int| 0 <= i < after.frames.len() implies self@.frames[i]
                == after.frames[i] by {
                assert(self@.frames[i] == self.frames@[i]@);
                if i == index {
                    assert(self.frames@[i]@.logs =~= Seq::empty());
                    assert(self.frames@[i]@ =~~= after.frames[i]);
                } else if depth > 0 && i == before.open.last() {
                    assert(self.frames@[i]@ =~~= after.frames[i]);
                } else {
                    assert(self.frames@[i] == old(self).frames@[i]);
                    assert(before.frames[i] == old(self).frames@[i]@);
                }
            }
            assert(self@.frames =~= after.frames);
            assert(self@.open =~= after.open);
            assert(self@ == after);
        }
        Ok(index)
    }

    /// Gives the construction up.
    fn abort(&mut self) -> (error: TraceError)
        requires
            old(self)@.wf(),
            !old(self)@.is_finalized(),
        ensures
            final(self)@.wf(),
            final(self)@ == old(self)@.refused(),
            error == old(self)@.refusal(),
    {
        proof {
            lemma_refused_wf(self@);
        }
        self.aborted = true;
        TraceError::MalformedStream
    }

    /// Refuses what the frame `handle` is to do, if it cannot act.
    fn check(&mut self, handle: usize) -> (refused: Option<TraceError>)
        requires
            old(self)@.wf(),
        ensures
            final(self)@.wf(),
            old(self)@.can_act(handle) <==> refused is None,
            refused matches Some(error) ==> error == old(self)@.refusal() && final(self)@ == old(
                self,
            )@.refused(),
            refused is None ==> final(self)@ == old(self)@ && *final(self) == *old(self)
                && handle < old(self).frames@.len() && old(self).stack@.len() > 0 && old(
                self,
            ).stack@.last() == handle,
    {
        if self.completed.is_some() {
            return Some(TraceError::AlreadyFinalized);
        }
        let depth: usize = self.stack.len();
        if self.aborted || depth == 0 || self.stack[depth - 1] != handle {
            return Some(self.abort());
        }
        proof {
            assert(self@.open_ok(depth - 1));
        }
        None
    }

    fn log(&mut self, handle: usize, log: Log) -> (logged: Result<(), TraceError>)
        requires
            old(self)@.wf(),
        ensures
            final(self)@.wf(),
            match logged {
                Ok(_) => old(self)@.can_act(handle) && final(self)@ == old(self)@.logged(log@),
                Err(error) => {
                    &&& !old(self)@.can_act(handle)
                    &&& error == old(self)@.refusal()
                    &&& final(self)@ == old(self)@.refused()
                },
            },
    {
        if let Some(error) = self.check(handle) {
            return Err(error);
        }
        let ghost before = self@;
        self.frames[handle].logs.push(log);
        proof {
            let after = before.logged(log@);
            assert(self@.frames.len() == after.frames.len());
            assert forall|i: int| 0 <= i < after.frames.len() implies self@.frames[i]
                == after.frames[i] by {
                assert(self@.frames[i] == self.frames@[i]@);
                if i == handle {
                    assert(self.frames@[i]@.logs =~= after.frames[i].logs);
                    assert(self.frames@[i]@ =~~= after.frames[i]);
                } else {
                    assert(self.frames@[i] == old(self).frames@[i]);
                    assert(before.frames[i] == old(self).frames@[i]@);
                }
            }
            assert(self@.frames =~= after.frames);
            assert(self@ == after);
            assert(before.open_ok(before.open.len() - 1));
            lemma_touched_wf(before, after.frames[handle as int]);
        }
        Ok(())
    }

    fn selfdestruct(
        &mut self,
        handle: usize,
        target: Address,
        refund_address: Option<Address>,
        balance: U256,
    ) -> (destroyed: Result<(), TraceError>)
        requires
            old(self)@.wf(),
        ensures
            final(self)@.wf(),
            match destroyed {
                Ok(_) => old(self)@.can_destroy(handle) && final(self)@ == old(self)@.destroyed(
                    target,
                    refund_address,
                    balance,
                ),
                Err(error) => {
                    &&& !old(self)@.can_destroy(handle)
                    &&& error == old(self)@.refusal()
                    &&& final(self)@ == old(self)@.refused()
                },
            },
    {
        if let Some(error) = self.check(handle) {
            return Err(error);
        }
        if self.frames[handle].selfdestruct.is_some() {
            return Err(self.abort());
        }
        let ghost before = self@;
        let record = match self.rule {
            SelfdestructRule::HideTransfer => SelfdestructRecord {
                target,
                refund_address: None,
                balance: U256::zero(),
            },
            SelfdestructRule::ShowTransfer => SelfdestructRecord { target, refund_address, balance },
        };
        self.frames[handle].selfdestruct = Some(record);
        proof {
            let after = before.destroyed(target, refund_address, balance);
            assert(self@.frames.len() == after.frames.len());
            assert forall|i: int| 0 <= i < after.frames.len() implies self@.frames[i]
                == after.frames[i] by {
                assert(self@.frames[i] == self.frames@[i]@);
                if i == handle {
                    assert(self.frames@[i]@ =~~= after.frames[i]);
                } else {
                    assert(self.frames@[i] == old(self).frames@[i]);
                    assert(before.frames[i] == old(self).frames@[i]@);
                }
            }
            assert(self@.frames =~= after.frames);
            assert(self@ == after);
            assert(before.open_ok(before.open.len() - 1));
            lemma_touched_wf(before, after.frames[handle as int]);
        }
        Ok(())
    }

    fn exit(&mut self, handle: usize, result: InterpreterResult, created: Option<Address>) -> (exited:
        Result<(), TraceError>)
        requires
            old(self)@.wf(),
        ensures
            final(self)@.wf(),
            match exited {
                Ok(_) => old(self)@.can_act(handle) && final(self)@ == old(self)@.exited(
                    result@,
                    created,
                ),
                Err(error) => {
                    &&& !old(self)@.can_act(handle)
                    &&& error == old(self)@.refusal()
                    &&& final(self)@ == old(self)@.refused()
                },
            },
    {
        if let Some(error) = self.check(handle) {
            return Err(error);
        }
        let ghost before = self@;
        let kept: Option<Address> = if self.frames[handle].kind.is_any_create()
            && result.result.is_ok() {
            created
        } else {
            None
        };
        let outcome = FrameOutcome {
            status: result.result,
            gas_used: result.gas_used,
            output: result.output,
            created: kept,
        };
        self.frames[handle].outcome = Some(outcome);
        self.stack.pop();
        proof {
            let after = before.exited(result@, created);
            assert(self@.frames.len() == after.frames.len());
            assert forall|i: int| 0 <= i < after.frames.len() implies self@.frames[i]
                == after.frames[i] by {
                assert(self@.frames[i] == self.frames@[i]@);
                if i == handle {
                    assert(self.frames@[i]@ =~~= after.frames[i]);
                } else {
                    assert(self.frames@[i] == old(self).frames@[i]);
                    assert(before.frames[i] == old(self).frames@[i]@);
                }
            }
            assert(self@.frames =~= after.frames);
            assert(self@.open =~= after.open);
            assert(self@ == after);
            lemma_exited_wf(before, result@, created);
        }
        Ok(())
    }

    fn finalize(&mut self, total_gas_used: u64) -> (closed: Result<(), TraceError>)
        requires
            old(self)@.wf(),
        ensures
            final(self)@.wf(),
            match closed {
                Ok(_) => old(self)@.can_finalize() && final(self)@ == old(self)@.finalized(
                    total_gas_used,
                ),
                Err(error) => {
                    &&& !old(self)@.can_finalize()
                    &&& error == old(self)@.refusal()
                    &&& final(self)@ == old(self)@.refused()
                },
            },
    {
        if self.completed.is_some() {
            return Err(TraceError::AlreadyFinalized);
        }
        if self.aborted || self.frames.len() == 0 || self.stack.len() > 0 {
            return Err(self.abort());
        }
        let ghost before = self@;
        proof {
            lemma_finalized_wf(before, total_gas_used);
        }
        let mut frames: Vec<CallTraceNode> = Vec::new();
        core::mem::swap(&mut self.frames, &mut frames);
        let completed = CompletedTrace { frames, total_gas_used };
        self.completed = Some(completed);
        proof {
            let after = before.finalized(total_gas_used);
            assert(self@.frames =~= after.frames);
            assert(self@.open =~= after.open);
            assert(self@ == after);
        }
        Ok(())
    }
}

/// Builds the call trace of one execution.
#[derive(Debug)]
pub struct TracingInspector {
    state: State,
}

impl View for TracingInspector {
    type V = TraceView;

    closed spec fn view(&self) -> TraceView {
        self.state@
    }
}

impl TracingInspector {
    #[verifier::type_invariant]
    spec fn inv(&self) -> bool {
        self.state@.wf()
    }

    /// A builder before the first event, for an execution under the given
    /// protocol version.
    pub fn new(config: TracingInspectorConfig, protocol_version: u8) -> (inspector: Self)
        ensures
            inspector@ == TraceView::fresh(config.rule_for(protocol_version)),
            inspector@.wf(),
    {
        TracingInspector { state: State::fresh(config.rule_for(protocol_version)) }
    }

    /// A builder before the first event that records self-destructs under
    /// the given rule.
    pub fn with_rule(rule: SelfdestructRule) -> (inspector: Self)
        ensures
            inspector@ == TraceView::fresh(rule),
            inspector@.wf(),
    {
        TracingInspector { state: State::fresh(rule) }
    }

    /// Forgets everything: the builder is as before the first event.
    pub fn reset(&mut self)
        ensures
            final(self)@ == TraceView::fresh(old(self)@.rule),
            final(self)@.wf(),
    {
        let rule = self.state.rule;
        self.state = State::fresh(rule);
    }

    /// The current frame: the innermost one that is still running.
    pub fn current(&self) -> (handle: Option<usize>)
        ensures
            handle == self@.current(),
    {
        let depth: usize = self.state.stack.len();
        if depth > 0 {
            Some(self.state.stack[depth - 1])
        } else {
            None
        }
    }

    /// The current frame, or the root's place where no frame is running: an
    /// event for that place is then refused.
    fn current_or_root(&self) -> (handle: usize)
        ensures
            self@.open.len() > 0 ==> handle == self@.open.last(),
            self@.open.len() == 0 ==> !self@.is_current(handle),
    {
        match self.current() {
            Some(handle) => handle,
            None => 0,
        }
    }

    /// The current frame, whichever it is, ended with `result`.
    fn close_current(&mut self, result: &InterpreterResult, created: Option<Address>)
        ensures
            final(self)@ == old(self)@.closed(result@, created),
    {
        match self.current() {
            Some(handle) => {
                let nodes = self.nodes();
                proof {
                    assert(self@.open_ok(self@.open.len() - 1));
                    assert(nodes@.len() == self@.frames.len());
                    assert(self@.frames[handle as int] == nodes@[handle as int]@);
                }
                let unrecorded = match result.result {
                    InstructionResult::SelfDestruct => nodes[handle].selfdestruct.is_none(),
                    _ => false,
                };
                if unrecorded {
                    let target = nodes[handle].address;
                    let _ = self.on_selfdestruct(handle, target, None, U256::zero());
                }
                let _ = self.on_frame_exit(handle, result.duplicate(), created);
            },
            None => {
                let _ = self.on_frame_exit(0, result.duplicate(), created);
            },
        }
    }

    /// The frames entered so far, in the order of entry. Empty once the trace
    /// is closed: the frames are then in the closed trace.
    pub fn nodes(&self) -> (nodes: &Vec<CallTraceNode>)
        ensures
            frames_view(nodes@) == self@.frames,
            self@.wf(),
    {
        proof {
            use_type_invariant(self);
        }
        &self.state.frames
    }

    /// A call or create was entered. The new frame becomes the last child of
    /// the current frame and is current from now on; the first frame entered
    /// is the root. Returns the new frame's handle, its place in the list of
    /// frames.
    ///
    /// Refused once the trace is closed or the construction was given up, and
    /// where the root has ended.
    pub fn on_frame_enter(
        &mut self,
        kind: CallKind,
        caller: Address,
        address: Address,
        input: Vec<u8>,
        value: U256,
        gas_limit: u64,
    ) -> (entered: Result<usize, TraceError>)
        ensures
            final(self)@.wf(),
            match entered {
                Ok(handle) => {
                    &&& old(self)@.can_enter()
                    &&& handle == old(self)@.frames.len()
                    &&& final(self)@ == old(self)@.entered(
                        kind,
                        caller,
                        address,
                        input@,
                        value,
                        gas_limit,
                    )
                },
                Err(error) => {
                    &&& !old(self)@.can_enter()
                    &&& error == old(self)@.refusal()
                    &&& final(self)@ == old(self)@.refused()
                },
            },
    {
        proof {
            use_type_invariant(&*self);
        }
        let mut state = State::fresh(SelfdestructRule::ShowTransfer);
        core::mem::swap(&mut self.state, &mut state);
        let entered = state.enter(kind, caller, address, input, value, gas_limit);
        self.state = state;
        entered
    }

    /// The current frame emitted a log.
    ///
    /// Refused once the trace is closed or the construction was given up, and
    /// where `handle` is not the current frame.
    pub fn on_log(&mut self, handle: usize, log: Log) -> (logged: Result<(), TraceError>)
        ensures
            final(self)@.wf(),
            match logged {
                Ok(_) => old(self)@.can_act(handle) && final(self)@ == old(self)@.logged(log@),
                Err(error) => {
                    &&& !old(self)@.can_act(handle)
                    &&& error == old(self)@.refusal()
                    &&& final(self)@ == old(self)@.refused()
                },
            },
    {
        proof {
            use_type_invariant(&*self);
        }
        let mut state = State::fresh(SelfdestructRule::ShowTransfer);
        core::mem::swap(&mut self.state, &mut state);
        let logged = state.log(handle, log);
        self.state = state;
        logged
    }

    /// The current frame destroyed the contract `target` and left `balance` to
    /// `refund_address`. Where the builder was set up to hide the transfer,
    /// the record keeps the contract alone, with a balance of zero.
    ///
    /// Refused once the trace is closed or the construction was given up,
    /// where `handle` is not the current frame, and where the frame has
    /// recorded a self-destruct before.
    pub fn on_selfdestruct(
        &mut self,
        handle: usize,
        target: Address,
        refund_address: Option<Address>,
        balance: U256,
    ) -> (destroyed: Result<(), TraceError>)
        ensures
            final(self)@.wf(),
            match destroyed {
                Ok(_) => old(self)@.can_destroy(handle) && final(self)@ == old(self)@.destroyed(
                    target,
                    refund_address,
                    balance,
                ),
                Err(error) => {
                    &&& !old(self)@.can_destroy(handle)
                    &&& error == old(self)@.refusal()
                    &&& final(self)@ == old(self)@.refused()
                },
            },
    {
        proof {
            use_type_invariant(&*self);
        }
        let mut state = State::fresh(SelfdestructRule::ShowTransfer);
        core::mem::swap(&mut self.state, &mut state);
        let destroyed = state.selfdestruct(handle, target, refund_address, balance);
        self.state = state;
        destroyed
    }

    /// The current frame ended with `result`; `created` is the address that a
    /// create deployed. The frame's parent is current again.
    ///
    /// Refused once the trace is closed or the construction was given up, and
    /// where `handle` is not the current frame.
    pub fn on_frame_exit(
        &mut self,
        handle: usize,
        result: InterpreterResult,
        created: Option<Address>,
    ) -> (exited: Result<(), TraceError>)
        ensures
            final(self)@.wf(),
            match exited {
                Ok(_) => old(self)@.can_act(handle) && final(self)@ == old(self)@.exited(
                    result@,
                    created,
                ),
                Err(error) => {
                    &&& !old(self)@.can_act(handle)
                    &&& error == old(self)@.refusal()
                    &&& final(self)@ == old(self)@.refused()
                },
            },
    {
        proof {
            use_type_invariant(&*self);
        }
        let mut state = State::fresh(SelfdestructRule::ShowTransfer);
        core::mem::swap(&mut self.state, &mut state);
        let exited = state.exit(handle, result, created);
        self.state = state;
        exited
    }

    /// Closes the trace with the gas that the whole transaction used.
    ///
    /// Refused where the trace is closed already, where the construction was
    /// given up, where no frame was entered, and where a frame is still
    /// running.
    pub fn finalize(&mut self, total_gas_used: u64) -> (closed: Result<(), TraceError>)
        ensures
            final(self)@.wf(),
            match closed {
                Ok(_) => old(self)@.can_finalize() && final(self)@ == old(self)@.finalized(
                    total_gas_used,
                ),
                Err(error) => {
                    &&& !old(self)@.can_finalize()
                    &&& error == old(self)@.refusal()
                    &&& final(self)@ == old(self)@.refused()
                },
            },
    {
        proof {
            use_type_invariant(&*self);
        }
        let mut state = State::fresh(SelfdestructRule::ShowTransfer);
        core::mem::swap(&mut self.state, &mut state);
        let closed = state.finalize(total_gas_used);
        self.state = state;
        closed
    }

    /// The closed trace.
    ///
    /// Refused while the trace is not closed.
    pub fn completed(&self) -> (completed: Result<&CompletedTrace, TraceError>)
        ensures
            match completed {
                Ok(trace) => self@.completed == Some(trace@) && trace@.wf(),
                Err(error) => self@.completed is None && error == TraceError::NotFinalized,
            },
    {
        proof {
            use_type_invariant(self);
        }
        match &self.state.completed {
            Some(trace) => Ok(trace),
            None => Err(TraceError::NotFinalized),
        }
    }
}

impl TracingInspector {
    /// Gives up the builder for the closed trace.
    ///
    /// Refused while the trace is not closed.
    pub fn into_completed(self) -> (completed: Result<CompletedTrace, TraceError>)
        ensures
            match completed {
                Ok(trace) => self@.completed == Some(trace@) && trace@.wf(),
                Err(error) => self@.completed is None && error == TraceError::NotFinalized,
            },
    {
        proof {
            use_type_invariant(&self);
        }
        match self.state.completed {
            Some(trace) => Ok(trace),
            None => Err(TraceError::NotFinalized),
        }
    }
}

impl Inspector for TracingInspector {
    /// The builder takes every call and create that starts as a frame entered
    /// and every one that ends as the current frame's exit, takes logs and
    /// self-destructs as those of the current frame, and never touches the
    /// execution.
    open spec fn reacts(pre: Self, event: Event, post: Self, reply: Reply) -> bool {
        reply == neutral(event) && post@ == pre@.observed(event)
    }

    fn initialize_interp(&mut self, interp: &Interpreter) {
    }

    fn step(&mut self, interp: &Interpreter) {
    }

    fn log(&mut self, log: &Log) {
        let handle = self.current_or_root();
        let _ = self.on_log(handle, log.duplicate());
    }

    fn step_end(&mut self, interp: &Interpreter) {
    }

    fn call(&mut self, inputs: &CallInputs) -> (outcome: Option<CallOutcome>) {
        let _ = self.on_frame_enter(
            CallKind::from_call_scheme(inputs.scheme),
            inputs.caller,
            inputs.target,
            copy_vec(&inputs.input),
            inputs.value,
            inputs.gas_limit,
        );
        None
    }

    fn call_end(&mut self, result: InterpreterResult) -> (changed: InterpreterResult) {
        self.close_current(&result, None);
        result
    }

    fn create(&mut self, inputs: &CreateInputs) -> (outcome: Option<CreateOutcome>) {
        let _ = self.on_frame_enter(
            CallKind::from_create_scheme(inputs.scheme),
            inputs.caller,
            Address::zero(),
            copy_vec(&inputs.init_code),
            inputs.value,
            inputs.gas_limit,
        );
        None
    }

    fn create_end(&mut self, result: InterpreterResult, address: Option<Address>) -> (outcome:
        CreateOutcome) {
        self.close_current(&result, address);
        CreateOutcome::new(result, address)
    }

    fn selfdestruct(&mut self, contract: Address, target: Address, value: U256) {
        let handle = self.current_or_root();
        let _ = self.on_selfdestruct(handle, contract, Some(target), value);
    }
}

} // verus!
