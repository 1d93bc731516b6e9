//! The flat form of a closed trace: one record for each frame, in pre-order,
//! each with its path from the root.
//!
//! A frame that destroyed its contract gets a second record right after its
//! own, with the same path, that tells of the self-destruct.

use crate::inspector::InstructionResult;
use crate::primitives::{copy_vec, Address, U256};
use crate::tracing::builder::{CompletedTrace, TracingInspector};
use crate::tracing::model::{linked_down, CompletedView};
use crate::tracing::types::{frames_view, CallKind, CallTraceNode, FrameView, TraceError};
use vstd::prelude::*;

verus! {

/// How a call record names the kind of call.
#[derive(Clone, Copy, Debug, PartialEq, Eq)]
pub enum CallType {
    /// Not a call.
    Absent,
    /// A plain call.
    Call,
    /// The target's code runs on the caller's storage.
    CallCode,
    /// As `CallCode`, with the caller and value of the calling frame.
    DelegateCall,
    /// A call that may not change state.
    StaticCall,
}

impl CallType {
    /// The call type of a frame of the given kind.
    #[verifier::when_used_as_spec(spec_of_kind)]
    pub fn of_kind(kind: CallKind) -> (call_type: CallType)
        ensures
            call_type == CallType::spec_of_kind(kind),
    {
        match kind {
            CallKind::Call => CallType::Call,
            CallKind::StaticCall => CallType::StaticCall,
            CallKind::DelegateCall => CallType::DelegateCall,
            CallKind::CallCode => CallType::CallCode,
            CallKind::Create => CallType::Absent,
            CallKind::Create2 => CallType::Absent,
        }
    }

    /// The call type of a frame of the given kind.
    pub open spec fn spec_of_kind(kind: CallKind) -> CallType {
        match kind {
            CallKind::Call => CallType::Call,
            CallKind::StaticCall => CallType::StaticCall,
            CallKind::DelegateCall => CallType::DelegateCall,
            CallKind::CallCode => CallType::CallCode,
            CallKind::Create => CallType::Absent,
            CallKind::Create2 => CallType::Absent,
        }
    }
}

/// A call as a record tells it.
#[derive(Clone, Debug, PartialEq, Eq)]
pub struct CallAction {
    /// The account that called.
    pub from: Address,
    /// The kind of call.
    pub call_type: CallType,
    /// The gas given to the call.
    pub gas: u64,
    /// The call data.
    pub input: Vec<u8>,
    /// The account that was called.
    pub to: Address,
    /// The value sent along.
    pub value: U256,
}

/// A create as a record tells it.
#[derive(Clone, Debug, PartialEq, Eq)]
pub struct CreateAction {
    /// The account that created.
    pub from: Address,
    /// The gas given to the create.
    pub gas: u64,
    /// The init code.
    pub init: Vec<u8>,
    /// The value given to the new contract.
    pub value: U256,
}

/// A self-destruct as a record tells it.
#[derive(Clone, Copy, Debug, PartialEq, Eq)]
pub struct SelfdestructAction {
    /// The contract that destroyed itself.
    pub address: Address,
    /// The balance handed over.
    pub balance: U256,
    /// Who got the balance; the zero address where that is not recorded.
    pub refund_address: Address,
}

/// Whom a reward is for.
#[derive(Clone, Copy, Debug, PartialEq, Eq)]
pub enum RewardType {
    /// The block's author.
    Block,
    /// The author of an uncle block.
    Uncle,
}

/// A block reward as a record tells it. No frame gives rise to one.
#[derive(Clone, Copy, Debug, PartialEq, Eq)]
pub struct RewardAction {
    /// Who got the reward.
    pub author: Address,
    /// Whom the reward is for.
    pub reward_type: RewardType,
    /// The reward.
    pub value: U256,
}

/// What a record tells of.
#[derive(Clone, Debug, PartialEq, Eq)]
pub enum Action {
    /// A call.
    Call(CallAction),
    /// A create.
    Create(CreateAction),
    /// A self-destruct.
    Selfdestruct(SelfdestructAction),
    /// A block reward.
    Reward(RewardAction),
}

/// What a call gave.
#[derive(Clone, Debug, PartialEq, Eq)]
pub struct CallOutput {
    /// The gas used.
    pub gas_used: u64,
    /// The data returned.
    pub output: Vec<u8>,
}

/// What a create gave.
#[derive(Clone, Debug, PartialEq, Eq)]
pub struct CreateOutput {
    /// The address of the new contract; the zero address where none is known.
    pub address: Address,
    /// The code of the new contract.
    pub code: Vec<u8>,
    /// The gas used.
    pub gas_used: u64,
}

/// What a frame that succeeded gave.
#[derive(Clone, Debug, PartialEq, Eq)]
pub enum TraceOutput {
    /// The output of a call.
    Call(CallOutput),
    /// The output of a create.
    Create(CreateOutput),
}

/// One record of the flat form.
#[derive(Clone, Debug, PartialEq, Eq)]
pub struct TransactionTrace {
    /// What the record tells of.
    pub action: Action,
    /// Why the frame failed; absent where it succeeded.
    pub error: Option<InstructionResult>,
    /// What the frame gave; absent where it failed.
    pub result: Option<TraceOutput>,
    /// The number of frames that the frame called.
    pub subtraces: usize,
    /// The path of child positions from the root to the frame.
    pub trace_address: Vec<usize>,
}

/// An action as a value of sequences.
pub enum ActionView {
    Call { from: Address, call_type: CallType, gas: u64, input: Seq<u8>, to: Address, value: U256 },
    Create { from: Address, gas: u64, init: Seq<u8>, value: U256 },
    Selfdestruct(SelfdestructAction),
    Reward(RewardAction),
}

/// An output as a value of sequences.
pub enum TraceOutputView {
    Call { gas_used: u64, output: Seq<u8> },
    Create { address: Address, code: Seq<u8>, gas_used: u64 },
}

/// A record as a value of sequences.
pub struct TransactionTraceView {
    pub action: ActionView,
    pub error: Option<InstructionResult>,
    pub result: Option<TraceOutputView>,
    pub subtraces: usize,
    pub trace_address: Seq<usize>,
}

impl View for Action {
    type V = ActionView;

    open spec fn view(&self) -> ActionView {
        match *self {
            Action::Call(call) => ActionView::Call {
                from: call.from,
                call_type: call.call_type,
                gas: call.gas,
                input: call.input@,
                to: call.to,
                value: call.value,
            },
            Action::Create(create) => ActionView::Create {
                from: create.from,
                gas: create.gas,
                init: create.init@,
                value: create.value,
            },
            Action::Selfdestruct(selfdestruct) => ActionView::Selfdestruct(selfdestruct),
            Action::Reward(reward) => ActionView::Reward(reward),
        }
    }
}

impl View for TraceOutput {
    type V = TraceOutputView;

    open spec fn view(&self) -> TraceOutputView {
        match *self {
            TraceOutput::Call(call) => TraceOutputView::Call {
                gas_used: call.gas_used,
                output: call.output@,
            },
            TraceOutput::Create(create) => TraceOutputView::Create {
                address: create.address,
                code: create.code@,
                gas_used: create.gas_used,
            },
        }
    }
}

impl View for TransactionTrace {
    type V = TransactionTraceView;

    open spec fn view(&self) -> TransactionTraceView {
        TransactionTraceView {
            action: self.action@,
            error: self.error,
            result: match self.result {
                Some(output) => Some(output@),
                None => None,
            },
            subtraces: self.subtraces,
            trace_address: self.trace_address@,
        }
    }
}

/// The views of a list of records.
pub open spec fn traces_view(traces: Seq<TransactionTrace>) -> Seq<TransactionTraceView> {
    Seq::new(traces.len(), |i: int| traces[i]@)
}

/// The address that stands for an absent one: the zero address.
pub open spec fn address_or_zero(address: Option<Address>) -> Address {
    match address {
        Some(address) => address,
        None => Address::zero(),
    }
}

/// What the record of a frame tells of: a create with its init code, or a
/// call with its target and call data.
pub open spec fn action_of(frame: FrameView) -> ActionView {
    if frame.kind.is_any_create() {
        ActionView::Create {
            from: frame.caller,
            gas: frame.gas_limit,
            init: frame.input,
            value: frame.value,
        }
    } else {
        ActionView::Call {
            from: frame.caller,
            call_type: CallType::of_kind(frame.kind),
            gas: frame.gas_limit,
            input: frame.input,
            to: frame.address,
            value: frame.value,
        }
    }
}

/// What the record of a frame says it gave: nothing where the frame failed or
/// has not ended, else its output with the gas stated for it.
pub open spec fn result_of(frame: FrameView, gas_used: u64) -> Option<TraceOutputView> {
    match frame.outcome {
        Some(outcome) => if outcome.status.is_ok() {
            if frame.kind.is_any_create() {
                Some(
                    TraceOutputView::Create {
                        address: address_or_zero(outcome.created),
                        code: outcome.output,
                        gas_used,
                    },
                )
            } else {
                Some(TraceOutputView::Call { gas_used, output: outcome.output })
            }
        } else {
            None
        },
        None => None,
    }
}

/// The record of a frame.
pub open spec fn trace_of(frame: FrameView, gas_used: u64) -> TransactionTraceView {
    TransactionTraceView {
        action: action_of(frame),
        error: frame.error(),
        result: result_of(frame, gas_used),
        subtraces: frame.children.len() as usize,
        trace_address: frame.trace_address,
    }
}

/// The record of a frame's self-destruct; it stands at the frame's own path.
pub open spec fn selfdestruct_trace_of(frame: FrameView) -> TransactionTraceView
    recommends
        frame.selfdestruct is Some,
{
    let record = frame.selfdestruct->0;
    TransactionTraceView {
        action: ActionView::Selfdestruct(
            SelfdestructAction {
                address: record.target,
                balance: record.balance,
                refund_address: address_or_zero(record.refund_address),
            },
        ),
        error: None,
        result: None,
        subtraces: 0,
        trace_address: frame.trace_address,
    }
}

impl CompletedView {
    /// The gas stated for frame `i`: for the root that of the whole
    /// transaction, for any other frame its own.
    pub open spec fn gas_used(self, i: int) -> u64 {
        if i == 0 {
            self.total_gas_used
        } else {
            match self.frames[i].outcome {
                Some(outcome) => outcome.gas_used,
                None => 0,
            }
        }
    }

    /// The records that frame `i` itself gives: its own, and that of its
    /// self-destruct if it recorded one.
    pub open spec fn records_of(self, i: int) -> Seq<TransactionTraceView> {
        let own = trace_of(self.frames[i], self.gas_used(i));
        if self.frames[i].selfdestruct is Some {
            seq![own, selfdestruct_trace_of(self.frames[i])]
        } else {
            seq![own]
        }
    }

    /// The records of frame `i` and of all frames below it, in pre-order.
    pub open spec fn flat_from(self, i: int) -> Seq<TransactionTraceView>
        decreases self.frames.len() - i, self.frames[i].children.len() + 1,
    {
        if 0 <= i < self.frames.len() {
            self.records_of(i) + self.flat_children(i, self.frames[i].children.len() as int)
        } else {
            Seq::empty()
        }
    }

    /// The records of the first `k` children of frame `i` and of all frames
    /// below them, child after child.
    pub open spec fn flat_children(self, i: int, k: int) -> Seq<TransactionTraceView>
        decreases self.frames.len() - i, k,
    {
        if 0 <= i < self.frames.len() && 0 < k <= self.frames[i].children.len() {
            let child = self.frames[i].children[k - 1] as int;
            self.flat_children(i, k - 1) + (if i < child < self.frames.len() {
                self.flat_from(child)
            } else {
                Seq::empty()
            })
        } else {
            Seq::empty()
        }
    }

    /// The flat form of the trace: the records of all frames from the root
    /// down, in pre-order.
    pub open spec fn flat(self) -> Seq<TransactionTraceView> {
        self.flat_from(0)
    }
}

/// The record of a frame, with the gas to state for it.
fn node_trace(node: &CallTraceNode, gas_used: u64) -> (trace: TransactionTrace)
    ensures
        trace@ == trace_of(node@, gas_used),
{
    let action = if node.kind.is_any_create() {
        Action::Create(
            CreateAction {
                from: node.caller,
                gas: node.gas_limit,
                init: copy_vec(&node.input),
                value: node.value,
            },
        )
    } else {
        Action::Call(
            CallAction {
                from: node.caller,
                call_type: CallType::of_kind(node.kind),
                gas: node.gas_limit,
                input: copy_vec(&node.input),
                to: node.address,
                value: node.value,
            },
        )
    };
    let result = match &node.outcome {
        Some(outcome) => if outcome.status.is_ok() {
            if node.kind.is_any_create() {
                Some(
                    TraceOutput::Create(
                        CreateOutput {
                            address: or_zero(outcome.created),
                            code: copy_vec(&outcome.output),
                            gas_used,
                        },
                    ),
                )
            } else {
                Some(TraceOutput::Call(CallOutput { gas_used, output: copy_vec(&outcome.output) }))
            }
        } else {
            None
        },
        None => None,
    };
    TransactionTrace {
        action,
        error: node.error(),
        result,
        subtraces: node.children.len(),
        trace_address: copy_vec(&node.trace_address),
    }
}

/// The given address, or the zero address where none is given.
pub fn or_zero(address: Option<Address>) -> (known: Address)
    ensures
        known == address_or_zero(address),
{
    match address {
        Some(address) => address,
        None => Address::zero(),
    }
}

/// The record of a frame's self-destruct.
fn node_selfdestruct_trace(node: &CallTraceNode) -> (trace: TransactionTrace)
    requires
        node@.selfdestruct is Some,
    ensures
        trace@ == selfdestruct_trace_of(node@),
{
    let record = node.selfdestruct.unwrap();
    TransactionTrace {
        action: Action::Selfdestruct(
            SelfdestructAction {
                address: record.target,
                balance: record.balance,
                refund_address: or_zero(record.refund_address),
            },
        ),
        error: None,
        result: None,
        subtraces: 0,
        trace_address: copy_vec(&node.trace_address),
    }
}

/// Appends the records of frame `index` and of all frames below it.
fn push_flat(
    nodes: &Vec<CallTraceNode>,
    total_gas_used: u64,
    index: usize,
    traces: &mut Vec<TransactionTrace>,
)
    requires
        (CompletedView { frames: frames_view(nodes@), total_gas_used }).wf(),
        index < nodes@.len(),
    ensures
        traces_view(final(traces)@) == traces_view(old(traces)@) + (CompletedView {
            frames: frames_view(nodes@),
            total_gas_used,
        }).flat_from(index as int),
    decreases nodes@.len() - index,
{
    let ghost trace = CompletedView { frames: frames_view(nodes@), total_gas_used };
    let ghost start = traces_view(traces@);
    let node = &nodes[index];
    assert(trace.frames[index as int] == node@);
    let gas_used: u64 = if index == 0 {
        total_gas_used
    } else {
        match &node.outcome {
            Some(outcome) => outcome.gas_used,
            None => 0,
        }
    };
    traces.push(node_trace(node, gas_used));
    if node.selfdestruct.is_some() {
        traces.push(node_selfdestruct_trace(node));
    }
    assert(traces_view(traces@) =~= start + trace.records_of(index as int));
    let mut k: usize = 0;
    while k < node.children.len()
        invariant
            trace == (CompletedView { frames: frames_view(nodes@), total_gas_used }),
            trace.wf(),
            index < nodes@.len(),
            node == &nodes@[index as int],
            trace.frames[index as int] == node@,
            k <= node.children@.len(),
            traces_view(traces@) == start + trace.records_of(index as int) + trace.flat_children(
                index as int,
                k as int,
            ),
        decreases node.children@.len() - k,
    {
        let child: usize = node.children[k];
        proof {
            assert(linked_down(trace.frames, index as int, k as int));
        }
        let ghost before = traces_view(traces@);
        push_flat(nodes, total_gas_used, child, traces);
        proof {
            assert(trace.flat_children(index as int, k + 1) == trace.flat_children(
                index as int,
                k as int,
            ) + trace.flat_from(child as int));
            assert(traces_view(traces@) =~= start + trace.records_of(index as int)
                + trace.flat_children(index as int, k + 1));
        }
        k += 1;
    }
}

impl CompletedTrace {
    /// The flat form of the trace: one record for each frame, parents before
    /// their children and children in call order, and after the record of a
    /// frame that destroyed its contract one for the self-destruct.
    pub fn export_flat(&self) -> (traces: Vec<TransactionTrace>)
        ensures
            traces_view(traces@) == self@.flat(),
    {
        let nodes = self.nodes();
        let mut traces: Vec<TransactionTrace> = Vec::new();
        assert(traces_view(traces@) =~= Seq::empty());
        push_flat(nodes, self.total_gas_used(), 0, &mut traces);
        assert(self@ == (CompletedView {
            frames: frames_view(nodes@),
            total_gas_used: self@.total_gas_used,
        }));
        traces
    }
}

impl TracingInspector {
    /// The flat form of the closed trace.
    ///
    /// Refused while the trace is not closed.
    pub fn export_flat(&self) -> (exported: Result<Vec<TransactionTrace>, TraceError>)
        ensures
            match exported {
                Ok(traces) => self@.completed matches Some(trace) && traces_view(traces@)
                    == trace.flat(),
                Err(error) => self@.completed is None && error == TraceError::NotFinalized,
            },
    {
        match self.completed() {
            Ok(trace) => Ok(trace.export_flat()),
            Err(error) => Err(error),
        }
    }
}

} // verus!
