//! The call trace as a mathematical value, and the steps that build it.
//!
//! A trace under construction is a list of frames in the order in which they
//! were entered, together with the frames that are still running, outermost
//! first. Each event of the execution takes one such value to the next.

use crate::inspector::{Event, InterpreterResultView, LogView};
use crate::primitives::{Address, U256};
use crate::tracing::types::{
    CallKind, FrameView, OutcomeView, SelfdestructRecord, SelfdestructRule, TraceError,
};
use vstd::prelude::*;

verus! {

/// A frame below the root hangs on its parent: the parent was entered before
/// it, and the last step of the frame's path is its place among the parent's
/// children.
pub open spec fn linked_up(frames: Seq<FrameView>, i: int) -> bool {
    match frames[i].parent {
        Some(p) => {
            &&& p < i
            &&& frames[i].trace_address.len() > 0
            &&& frames[i].trace_address.last() < frames[p as int].children.len()
            &&& frames[p as int].children[frames[i].trace_address.last() as int] == i
        },
        None => false,
    }
}

/// The `k`-th child of frame `i` was entered after it, names it as parent,
/// and has its path with `k` appended.
pub open spec fn linked_down(frames: Seq<FrameView>, i: int, k: int) -> bool {
    let c = frames[i].children[k];
    &&& i < c < frames.len()
    &&& frames[c as int].parent == Some(i as usize)
    &&& frames[c as int].trace_address == frames[i].trace_address.push(k as usize)
}

/// A static or delegate call carries no value of its own, and the number of
/// a frame's children can be written down.
pub open spec fn frame_wf(frame: FrameView) -> bool {
    &&& frame.kind.carries_no_value() ==> frame.value == U256::from_u64(0)
    &&& frame.children.len() <= usize::MAX
}

/// The frames form a tree: the first frame is the root with the empty path,
/// every other frame is one child of an earlier frame, and paths follow the
/// places among the children.
pub open spec fn tree_wf(frames: Seq<FrameView>) -> bool {
    &&& frames.len() > 0 ==> frames[0].parent is None && frames[0].trace_address
        == Seq::<usize>::empty()
    &&& forall|i: int| 0 < i < frames.len() ==> #[trigger] linked_up(frames, i)
    &&& forall|i: int, k: int|
        0 <= i < frames.len() && 0 <= k < frames[i].children.len() ==> #[trigger] linked_down(
            frames,
            i,
            k,
        )
    &&& forall|i: int| 0 <= i < frames.len() ==> frame_wf(#[trigger] frames[i])
}

/// A trace that has been closed: the frames of one execution, all ended, and
/// the gas that the whole transaction used.
pub struct CompletedView {
    pub frames: Seq<FrameView>,
    pub total_gas_used: u64,
}

impl CompletedView {
    /// The frames form a tree with a root, and every frame has ended.
    pub open spec fn wf(self) -> bool {
        &&& self.frames.len() > 0
        &&& tree_wf(self.frames)
        &&& forall|i: int| 0 <= i < self.frames.len() ==> (#[trigger] self.frames[i]).is_resolved()
    }
}

/// A trace under construction.
pub struct TraceView {
    /// The frames entered so far, in the order of entry.
    pub frames: Seq<FrameView>,
    /// The frames that are still running, the outermost first.
    pub open: Seq<usize>,
    /// The rule under which a self-destruct is recorded.
    pub rule: SelfdestructRule,
    /// Whether the construction was given up because the events did not nest.
    pub aborted: bool,
    /// The closed trace, once the construction is over.
    pub completed: Option<CompletedView>,
}

impl TraceView {
    /// The running frame at place `k` of the stack is a frame of the trace that
    /// has not ended; the outermost is the root, and each other one was called
    /// by the one before it.
    pub open spec fn open_ok(self, k: int) -> bool {
        &&& self.open[k] < self.frames.len()
        &&& !self.frames[self.open[k] as int].is_resolved()
        &&& k == 0 ==> self.open[k] == 0
        &&& k > 0 ==> self.frames[self.open[k] as int].parent == Some(self.open[k - 1])
    }

    /// Whether frame `i` is among the running frames.
    pub open spec fn is_open(self, i: int) -> bool {
        exists|k: int| 0 <= k < self.open.len() && #[trigger] self.open[k] == i
    }

    /// The frames form a tree, the running frames are the path from the root
    /// to the current frame, and exactly the running frames have not ended.
    /// Once the trace is closed, its frames have moved to the closed trace. A
    /// construction that was given up is never closed.
    pub open spec fn wf(self) -> bool {
        &&& tree_wf(self.frames)
        &&& forall|k: int| 0 <= k < self.open.len() ==> #[trigger] self.open_ok(k)
        &&& forall|i: int|
            0 <= i < self.frames.len() && !(#[trigger] self.frames[i]).is_resolved()
                ==> self.is_open(i)
        &&& match self.completed {
            Some(completed) => self.frames.len() == 0 && completed.wf() && !self.aborted,
            None => true,
        }
    }

    /// The trace before the first event.
    pub open spec fn fresh(rule: SelfdestructRule) -> TraceView {
        TraceView {
            frames: Seq::empty(),
            open: Seq::empty(),
            rule,
            aborted: false,
            completed: None,
        }
    }

    /// Whether the trace has been closed.
    pub open spec fn is_finalized(self) -> bool {
        self.completed is Some
    }

    /// Whether `handle` is the current frame: the innermost running one.
    pub open spec fn is_current(self, handle: usize) -> bool {
        self.open.len() > 0 && self.open.last() == handle
    }

    /// Whether events are still taken: the trace is not closed and the
    /// construction was not given up.
    pub open spec fn is_building(self) -> bool {
        !self.is_finalized() && !self.aborted
    }

    /// Whether a frame can be entered: events are still taken, and either
    /// nothing was entered yet or a frame is running.
    pub open spec fn can_enter(self) -> bool {
        self.is_building() && (self.frames.len() == 0 || self.open.len() > 0)
    }

    /// Why an event or the closing is refused: the trace is closed already, or
    /// else the events do not nest.
    pub open spec fn refusal(self) -> TraceError {
        if self.is_finalized() {
            TraceError::AlreadyFinalized
        } else {
            TraceError::MalformedStream
        }
    }

    /// The trace after a refusal. Events that do not nest end the
    /// construction: from then on everything is refused. A closed trace stays
    /// as it is.
    pub open spec fn refused(self) -> TraceView {
        if self.is_finalized() {
            self
        } else {
            TraceView { aborted: true, ..self }
        }
    }

    /// Whether the frame `handle` can act or end: events are still taken and
    /// `handle` is the current frame.
    pub open spec fn can_act(self, handle: usize) -> bool {
        self.is_building() && self.is_current(handle)
    }

    /// The frame that a new frame would hang on: the current frame, if any.
    pub open spec fn current(self) -> Option<usize> {
        if self.open.len() > 0 {
            Some(self.open.last())
        } else {
            None
        }
    }

    /// The frame that an enter event adds, not yet ended: a child of the
    /// current frame at the next free place, or the root.
    pub open spec fn new_frame(
        self,
        kind: CallKind,
        caller: Address,
        address: Address,
        input: Seq<u8>,
        value: U256,
        gas_limit: u64,
    ) -> FrameView {
        FrameView {
            parent: self.current(),
            children: Seq::empty(),
            trace_address: match self.current() {
                Some(top) => self.frames[top as int].trace_address.push(
                    self.frames[top as int].children.len() as usize,
                ),
                None => Seq::empty(),
            },
            kind,
            caller,
            address,
            value: if kind.carries_no_value() {
                U256::from_u64(0)
            } else {
                value
            },
            gas_limit,
            input,
            outcome: None,
            selfdestruct: None,
            logs: Seq::empty(),
        }
    }

    /// The trace after a frame was entered: the new frame stands last, is the
    /// last child of the frame that was current, and is now current itself.
    pub open spec fn entered(
        self,
        kind: CallKind,
        caller: Address,
        address: Address,
        input: Seq<u8>,
        value: U256,
        gas_limit: u64,
    ) -> TraceView {
        let index = self.frames.len() as usize;
        let frame = self.new_frame(kind, caller, address, input, value, gas_limit);
        let frames = match self.current() {
            Some(top) => self.frames.update(
                top as int,
                FrameView {
                    children: self.frames[top as int].children.push(index),
                    ..self.frames[top as int]
                },
            ),
            None => self.frames,
        };
        TraceView { frames: frames.push(frame), open: self.open.push(index), ..self }
    }

    /// The trace after the current frame emitted a log.
    pub open spec fn logged(self, log: LogView) -> TraceView {
        let top = self.open.last() as int;
        TraceView {
            frames: self.frames.update(
                top,
                FrameView { logs: self.frames[top].logs.push(log), ..self.frames[top] },
            ),
            ..self
        }
    }

    /// What is recorded of a self-destruct: all of it, or, where the transfer
    /// is not shown, the contract alone with a balance of zero.
    pub open spec fn selfdestruct_record(
        self,
        target: Address,
        refund_address: Option<Address>,
        balance: U256,
    ) -> SelfdestructRecord {
        if self.rule is HideTransfer {
            SelfdestructRecord { target, refund_address: None, balance: U256::from_u64(0) }
        } else {
            SelfdestructRecord { target, refund_address, balance }
        }
    }

    /// Whether the current frame can record a self-destruct: it is the frame
    /// `handle` and has recorded none so far.
    pub open spec fn can_destroy(self, handle: usize) -> bool {
        self.can_act(handle) && self.frames[handle as int].selfdestruct is None
    }

    /// The trace after the current frame destroyed its contract.
    pub open spec fn destroyed(
        self,
        target: Address,
        refund_address: Option<Address>,
        balance: U256,
    ) -> TraceView {
        let top = self.open.last() as int;
        TraceView {
            frames: self.frames.update(
                top,
                FrameView {
                    selfdestruct: Some(self.selfdestruct_record(target, refund_address, balance)),
                    ..self.frames[top]
                },
            ),
            ..self
        }
    }

    /// How the current frame is recorded to have ended. The deployed address
    /// is kept only for a create that succeeded.
    pub open spec fn outcome_of(
        self,
        result: InterpreterResultView,
        created: Option<Address>,
    ) -> OutcomeView {
        let top = self.open.last() as int;
        OutcomeView {
            status: result.result,
            gas_used: result.gas_used,
            output: result.output,
            created: if self.frames[top].kind.is_any_create() && result.result.is_ok() {
                created
            } else {
                None
            },
        }
    }

    /// The trace after the current frame ended: the frame has its outcome, and
    /// its parent is current again.
    pub open spec fn exited(self, result: InterpreterResultView, created: Option<Address>) -> TraceView {
        let top = self.open.last() as int;
        TraceView {
            frames: self.frames.update(
                top,
                FrameView { outcome: Some(self.outcome_of(result, created)), ..self.frames[top] },
            ),
            open: self.open.drop_last(),
            ..self
        }
    }

    /// The trace after an enter event, entered or refused.
    pub open spec fn try_enter(
        self,
        kind: CallKind,
        caller: Address,
        address: Address,
        input: Seq<u8>,
        value: U256,
        gas_limit: u64,
    ) -> TraceView {
        if self.can_enter() {
            self.entered(kind, caller, address, input, value, gas_limit)
        } else {
            self.refused()
        }
    }

    /// Whether there is a current frame that can act.
    pub open spec fn has_current(self) -> bool {
        self.is_building() && self.open.len() > 0
    }

    /// The trace after the current frame, whichever it is, ended. A frame that
    /// stopped by destroying its contract and has recorded no self-destruct
    /// gets a record without transfer first: the engine reports only those
    /// self-destructs that delete the account.
    pub open spec fn closed(self, result: InterpreterResultView, created: Option<Address>) -> TraceView {
        if self.has_current() {
            let top = self.open.last() as int;
            let noted = if result.result is SelfDestruct && self.frames[top].selfdestruct is None {
                self.destroyed(self.frames[top].address, None, U256::from_u64(0))
            } else {
                self
            };
            noted.exited(result, created)
        } else {
            self.refused()
        }
    }

    /// What the trace makes of an event that an observer is told of, where
    /// the event names no frame: a call or create that starts enters a frame
    /// (a create with the zero address, its own being unknown yet), one that
    /// ends leaves the current frame, a log or self-destruct is that of the
    /// current frame, and the interpreter's steps leave the trace alone.
    pub open spec fn observed(self, event: Event) -> TraceView {
        match event {
            Event::Initialize(_) => self,
            Event::Step(_) => self,
            Event::StepEnd(_) => self,
            Event::Log(log) => if self.has_current() {
                self.logged(log@)
            } else {
                self.refused()
            },
            Event::Call(inputs) => self.try_enter(
                CallKind::of_call_scheme(inputs.scheme),
                inputs.caller,
                inputs.target,
                inputs.input@,
                inputs.value,
                inputs.gas_limit,
            ),
            Event::CallEnd(result) => self.closed(result@, None),
            Event::Create(inputs) => self.try_enter(
                CallKind::of_create_scheme(inputs.scheme),
                inputs.caller,
                Address::zero(),
                inputs.init_code@,
                inputs.value,
                inputs.gas_limit,
            ),
            Event::CreateEnd(result, address) => self.closed(result@, address),
            Event::Selfdestruct(contract, target, value) => if self.has_current()
                && self.frames[self.open.last() as int].selfdestruct is None {
                self.destroyed(contract, Some(target), value)
            } else {
                self.refused()
            },
        }
    }

    /// Whether the trace can be closed: events are still taken, a root was
    /// entered, and no frame is running.
    pub open spec fn can_finalize(self) -> bool {
        self.is_building() && self.frames.len() > 0 && self.open.len() == 0
    }

    /// The trace after it was closed with the transaction's gas.
    pub open spec fn finalized(self, total_gas_used: u64) -> TraceView {
        TraceView {
            frames: Seq::empty(),
            open: Seq::empty(),
            rule: self.rule,
            aborted: false,
            completed: Some(CompletedView { frames: self.frames, total_gas_used }),
        }
    }
}

/// A refusal keeps the trace well formed.
pub(crate) proof fn lemma_refused_wf(trace: TraceView)
    requires
        trace.wf(),
    ensures
        trace.refused().wf(),
{
    let after = trace.refused();
    if !trace.is_finalized() {
        assert forall|k: int| 0 <= k < after.open.len() implies #[trigger] after.open_ok(k) by {
            assert(trace.open_ok(k));
        }
        assert forall|i: int|
            0 <= i < after.frames.len() && !(#[trigger] after.frames[i]).is_resolved()
            implies after.is_open(i) by {
            assert(trace.is_open(i));
            let k = choose|k: int| 0 <= k < trace.open.len() && #[trigger] trace.open[k] == i;
            assert(after.open[k] == i);
        }
    }
}

/// Entering a frame keeps the trace well formed.
pub(crate) proof fn lemma_entered_wf(
    trace: TraceView,
    kind: CallKind,
    caller: Address,
    address: Address,
    input: Seq<u8>,
    value: U256,
    gas_limit: u64,
)
    requires
        trace.wf(),
        trace.can_enter(),
        trace.frames.len() <= usize::MAX,
        trace.open.len() > 0 ==> trace.frames[trace.open.last() as int].children.len()
            < usize::MAX,
    ensures
        trace.entered(kind, caller, address, input, value, gas_limit).wf(),
{
    let after = trace.entered(kind, caller, address, input, value, gas_limit);
    let n = trace.frames.len() as int;
    if trace.open.len() > 0 {
        let top = trace.open.last() as int;
        assert(trace.open_ok(trace.open.len() - 1));
        let m = trace.frames[top].children.len() as int;
        assert(after.frames.len() == n + 1);
        assert forall|i: int| 0 < i < after.frames.len() implies #[trigger] linked_up(
            after.frames,
            i,
        ) by {
            if i < n {
                assert(linked_up(trace.frames, i));
            }
        }
        assert forall|i: int, k: int|
            0 <= i < after.frames.len() && 0 <= k < after.frames[i].children.len()
            implies #[trigger] linked_down(after.frames, i, k) by {
            if i == top && k == m {
            } else {
                assert(linked_down(trace.frames, i, k));
            }
        }
        assert forall|k: int| 0 <= k < after.open.len() implies #[trigger] after.open_ok(k) by {
            if k < trace.open.len() {
                assert(trace.open_ok(k));
            }
        }
    } else {
        assert(n == 0);
        assert forall|k: int| 0 <= k < after.open.len() implies #[trigger] after.open_ok(k) by {}
    }
    assert forall|i: int|
        0 <= i < after.frames.len() && !(#[trigger] after.frames[i]).is_resolved()
        implies after.is_open(i) by {
        if i < n {
            assert(!trace.frames[i].is_resolved());
            assert(trace.is_open(i));
            let k = choose|k: int| 0 <= k < trace.open.len() && #[trigger] trace.open[k] == i;
            assert(after.open[k] == i);
        } else {
            assert(after.open[trace.open.len() as int] == i);
        }
    }
    assert forall|i: int| 0 <= i < after.frames.len() implies frame_wf(
        #[trigger] after.frames[i],
    ) by {
        if i < n {
            assert(frame_wf(trace.frames[i]));
        }
    }
}

/// A change to the current frame that leaves its place in the tree, its value
/// and its being unresolved alone keeps the trace well formed.
pub(crate) proof fn lemma_touched_wf(trace: TraceView, frame: FrameView)
    requires
        trace.wf(),
        trace.open.len() > 0,
        frame.parent == trace.frames[trace.open.last() as int].parent,
        frame.children == trace.frames[trace.open.last() as int].children,
        frame.trace_address == trace.frames[trace.open.last() as int].trace_address,
        frame.kind == trace.frames[trace.open.last() as int].kind,
        frame.value == trace.frames[trace.open.last() as int].value,
        !frame.is_resolved(),
    ensures
        (TraceView { frames: trace.frames.update(trace.open.last() as int, frame), ..trace }).wf(),
{
    let top = trace.open.last() as int;
    assert(trace.open_ok(trace.open.len() - 1));
    let after = TraceView { frames: trace.frames.update(top, frame), ..trace };
    assert forall|i: int| 0 < i < after.frames.len() implies #[trigger] linked_up(
        after.frames,
        i,
    ) by {
        assert(linked_up(trace.frames, i));
    }
    assert forall|i: int, k: int|
        0 <= i < after.frames.len() && 0 <= k < after.frames[i].children.len()
        implies #[trigger] linked_down(after.frames, i, k) by {
        assert(linked_down(trace.frames, i, k));
    }
    assert forall|k: int| 0 <= k < after.open.len() implies #[trigger] after.open_ok(k) by {
        assert(trace.open_ok(k));
    }
    assert forall|i: int|
        0 <= i < after.frames.len() && !(#[trigger] after.frames[i]).is_resolved()
        implies after.is_open(i) by {
        if i != top {
            assert(!trace.frames[i].is_resolved());
        }
        assert(trace.is_open(i));
        let k = choose|k: int| 0 <= k < trace.open.len() && #[trigger] trace.open[k] == i;
        assert(after.open[k] == i);
    }
    assert forall|i: int| 0 <= i < after.frames.len() implies frame_wf(
        #[trigger] after.frames[i],
    ) by {
        assert(frame_wf(trace.frames[i]));
    }
}

/// The running frames are entered one after the other, so no frame is at two
/// places of the stack.
pub(crate) proof fn lemma_open_increasing(trace: TraceView, j: int, k: int)
    requires
        trace.wf(),
        0 <= j < k < trace.open.len(),
    ensures
        trace.open[j] < trace.open[k],
    decreases k - j,
{
    assert(trace.open_ok(k));
    let c = trace.open[k] as int;
    assert(c > 0) by {
        assert(trace.frames[c].parent is Some);
    }
    assert(linked_up(trace.frames, c));
    if j < k - 1 {
        lemma_open_increasing(trace, j, k - 1);
    }
}

/// Leaving the current frame keeps the trace well formed.
pub(crate) proof fn lemma_exited_wf(trace: TraceView, result: InterpreterResultView, created: Option<Address>)
    requires
        trace.wf(),
        trace.open.len() > 0,
        trace.is_building(),
    ensures
        trace.exited(result, created).wf(),
{
    let top = trace.open.last() as int;
    let last = trace.open.len() - 1;
    assert(trace.open_ok(last));
    let after = trace.exited(result, created);
    assert forall|i: int| 0 < i < after.frames.len() implies #[trigger] linked_up(
        after.frames,
        i,
    ) by {
        assert(linked_up(trace.frames, i));
    }
    assert forall|i: int, k: int|
        0 <= i < after.frames.len() && 0 <= k < after.frames[i].children.len()
        implies #[trigger] linked_down(after.frames, i, k) by {
        assert(linked_down(trace.frames, i, k));
    }
    assert forall|k: int| 0 <= k < after.open.len() implies #[trigger] after.open_ok(k) by {
        assert(trace.open_ok(k));
        lemma_open_increasing(trace, k, last);
    }
    assert forall|i: int|
        0 <= i < after.frames.len() && !(#[trigger] after.frames[i]).is_resolved()
        implies after.is_open(i) by {
        assert(i != top);
        assert(!trace.frames[i].is_resolved());
        assert(trace.is_open(i));
        let k = choose|k: int| 0 <= k < trace.open.len() && #[trigger] trace.open[k] == i;
        assert(k < last);
        assert(after.open[k] == i);
    }
    assert forall|i: int| 0 <= i < after.frames.len() implies frame_wf(
        #[trigger] after.frames[i],
    ) by {
        assert(frame_wf(trace.frames[i]));
    }
}

/// Closing a trace whose frames have all ended gives a well-formed closed
/// trace.
pub(crate) proof fn lemma_finalized_wf(trace: TraceView, total_gas_used: u64)
    requires
        trace.wf(),
        trace.can_finalize(),
    ensures
        trace.finalized(total_gas_used).wf(),
        trace.finalized(total_gas_used).completed->0.wf(),
{
    let after = trace.finalized(total_gas_used);
    assert forall|i: int| 0 <= i < trace.frames.len() implies (#[trigger] trace.frames[i]).is_resolved() by {
        if !trace.frames[i].is_resolved() {
            assert(trace.is_open(i));
        }
    }
}

} // verus!
