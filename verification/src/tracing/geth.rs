//! The nested form of a closed trace: one object for each frame, with the
//! frames that it called inside it.
//!
//! A field that has nothing to say is absent: no error where the frame
//! succeeded, no output where none was returned, no target where a create
//! failed, no value for a static call.

use crate::inspector::{logs_view, InstructionResult, Log, LogView};
use crate::primitives::{copy_vec, Address, U256};
use crate::tracing::builder::{CompletedTrace, TracingInspector};
use crate::tracing::model::{linked_down, CompletedView};
use crate::tracing::parity::{address_or_zero, or_zero};
use crate::tracing::types::{frames_view, CallKind, CallTraceNode, FrameView, TraceError};
use vstd::prelude::*;

verus! {

/// One frame of the nested form.
#[derive(Debug, PartialEq, Eq)]
pub struct CallFrame {
    /// What kind of call or create the frame is.
    pub typ: CallKind,
    /// The account that made the call.
    pub from: Address,
    /// The account that was called, or the contract that a create deployed.
    pub to: Option<Address>,
    /// The value sent along.
    pub value: Option<U256>,
    /// The gas given to the frame.
    pub gas: u64,
    /// The gas used.
    pub gas_used: u64,
    /// The call data, or the init code of a create.
    pub input: Vec<u8>,
    /// The data returned.
    pub output: Option<Vec<u8>>,
    /// Why the frame failed.
    pub error: Option<InstructionResult>,
    /// The frames that this frame called, in call order.
    pub calls: Vec<CallFrame>,
    /// The logs that the frame emitted, in order.
    pub logs: Vec<Log>,
}

/// A frame of the nested form as a value of sequences.
pub struct CallFrameView {
    pub typ: CallKind,
    pub from: Address,
    pub to: Option<Address>,
    pub value: Option<U256>,
    pub gas: u64,
    pub gas_used: u64,
    pub input: Seq<u8>,
    pub output: Option<Seq<u8>>,
    pub error: Option<InstructionResult>,
    pub calls: Seq<CallFrameView>,
    pub logs: Seq<LogView>,
}

impl CallFrame {
    /// The frame as a value of sequences, the frames inside it included.
    pub open spec fn view(&self) -> CallFrameView
        decreases self,
    {
        CallFrameView {
            typ: self.typ,
            from: self.from,
            to: self.to,
            value: self.value,
            gas: self.gas,
            gas_used: self.gas_used,
            input: self.input@,
            output: match self.output {
                Some(output) => Some(output@),
                None => None,
            },
            error: self.error,
            calls: Seq::new(
                self.calls@.len(),
                |i: int|
                    if 0 <= i < self.calls@.len() {
                        self.calls@[i].view()
                    } else {
                        arbitrary()
                    },
            ),
            logs: logs_view(self.logs@),
        }
    }
}

/// The views of a list of nested frames.
pub open spec fn calls_view(calls: Seq<CallFrame>) -> Seq<CallFrameView> {
    Seq::new(calls.len(), |i: int| calls[i]@)
}

/// The target that the nested form states for a frame: the account called,
/// or for a create that succeeded the contract deployed.
pub open spec fn target_of(frame: FrameView) -> Option<Address> {
    if frame.kind.is_any_create() {
        match frame.outcome {
            Some(outcome) => if outcome.status.is_ok() {
                Some(address_or_zero(outcome.created))
            } else {
                None
            },
            None => None,
        }
    } else {
        Some(frame.address)
    }
}

/// The output that the nested form states for a frame: what it returned,
/// unless that is empty.
pub open spec fn output_of(frame: FrameView) -> Option<Seq<u8>> {
    match frame.outcome {
        Some(outcome) => if outcome.output.len() > 0 {
            Some(outcome.output)
        } else {
            None
        },
        None => None,
    }
}

/// The nested frame of a frame, given the gas to state for it and the nested
/// frames of its children.
pub open spec fn call_frame_of(frame: FrameView, gas_used: u64, calls: Seq<CallFrameView>) -> CallFrameView {
    CallFrameView {
        typ: frame.kind,
        from: frame.caller,
        to: target_of(frame),
        value: if frame.kind is StaticCall {
            None
        } else {
            Some(frame.value)
        },
        gas: frame.gas_limit,
        gas_used,
        input: frame.input,
        output: output_of(frame),
        error: frame.error(),
        calls,
        logs: frame.logs,
    }
}

impl CompletedView {
    /// The nested frame of frame `i`, with all frames below it inside.
    pub open spec fn nested_from(self, i: int) -> CallFrameView
        decreases self.frames.len() - i, self.frames[i].children.len() + 1,
    {
        if 0 <= i < self.frames.len() {
            call_frame_of(
                self.frames[i],
                self.gas_used(i),
                self.nested_children(i, self.frames[i].children.len() as int),
            )
        } else {
            arbitrary()
        }
    }

    /// The nested frames of the first `k` children of frame `i`.
    pub open spec fn nested_children(self, i: int, k: int) -> Seq<CallFrameView>
        decreases self.frames.len() - i, k,
    {
        if 0 <= i < self.frames.len() && 0 < k <= self.frames[i].children.len() {
            let child = self.frames[i].children[k - 1] as int;
            self.nested_children(i, k - 1).push(
                if i < child < self.frames.len() {
                    self.nested_from(child)
                } else {
                    arbitrary()
                },
            )
        } else {
            Seq::empty()
        }
    }

    /// The nested form of the trace: the nested frame of the root.
    pub open spec fn nested(self) -> CallFrameView {
        self.nested_from(0)
    }
}

/// A copy of a list of logs.
fn copy_logs(logs: &Vec<Log>) -> (copy: Vec<Log>)
    ensures
        logs_view(copy@) == logs_view(logs@),
{
    let mut copy: Vec<Log> = Vec::new();
    let mut i: usize = 0;
    while i < logs.len()
        invariant
            i <= logs@.len(),
            copy@.len() == i,
            forall|j: int| 0 <= j < i ==> (#[trigger] copy@[j])@ == logs@[j]@,
        decreases logs@.len() - i,
    {
        copy.push(logs[i].duplicate());
        i += 1;
    }
    assert(logs_view(copy@) =~= logs_view(logs@));
    copy
}

/// The nested frame of frame `index`, with all frames below it inside.
fn nested_frame(nodes: &Vec<CallTraceNode>, total_gas_used: u64, index: usize) -> (frame: CallFrame)
    requires
        (CompletedView { frames: frames_view(nodes@), total_gas_used }).wf(),
        index < nodes@.len(),
    ensures
        frame@ == (CompletedView { frames: frames_view(nodes@), total_gas_used }).nested_from(
            index as int,
        ),
    decreases nodes@.len() - index,
{
    let ghost trace = CompletedView { frames: frames_view(nodes@), total_gas_used };
    let node = &nodes[index];
    assert(trace.frames[index as int] == node@);
    let mut calls: Vec<CallFrame> = Vec::new();
    assert(calls_view(calls@) =~= trace.nested_children(index as int, 0));
    let mut k: usize = 0;
    while k < node.children.len()
        invariant
            trace == (CompletedView { frames: frames_view(nodes@), total_gas_used }),
            trace.wf(),
            index < nodes@.len(),
            node == &nodes@[index as int],
            trace.frames[index as int] == node@,
            k <= node.children@.len(),
            calls_view(calls@) == trace.nested_children(index as int, k as int),
        decreases node.children@.len() - k,
    {
        let child: usize = node.children[k];
        proof {
            assert(linked_down(trace.frames, index as int, k as int));
        }
        let inner = nested_frame(nodes, total_gas_used, child);
        calls.push(inner);
        proof {
            assert(calls_view(calls@) =~= trace.nested_children(index as int, k + 1));
        }
        k += 1;
    }
    let gas_used: u64 = if index == 0 {
        total_gas_used
    } else {
        match &node.outcome {
            Some(outcome) => outcome.gas_used,
            None => 0,
        }
    };
    let to: Option<Address> = if node.kind.is_any_create() {
        match &node.outcome {
            Some(outcome) => if outcome.status.is_ok() {
                Some(or_zero(outcome.created))
            } else {
                None
            },
            None => None,
        }
    } else {
        Some(node.address)
    };
    let value: Option<U256> = match node.kind {
        CallKind::StaticCall => None,
        _ => Some(node.value),
    };
    let output: Option<Vec<u8>> = match &node.outcome {
        Some(outcome) => if outcome.output.len() > 0 {
            Some(copy_vec(&outcome.output))
        } else {
            None
        },
        None => None,
    };
    let frame = CallFrame {
        typ: node.kind,
        from: node.caller,
        to,
        value,
        gas: node.gas_limit,
        gas_used,
        input: copy_vec(&node.input),
        output,
        error: node.error(),
        calls,
        logs: copy_logs(&node.logs),
    };
    proof {
        assert(frame@.calls =~= calls_view(frame.calls@));
        assert(frame@ == trace.nested_from(index as int));
    }
    frame
}

impl CompletedTrace {
    /// The nested form of the trace: the root's frame with the frames it
    /// called inside it, each with those it called, in call order.
    pub fn export_nested(&self) -> (frame: CallFrame)
        ensures
            frame@ == self@.nested(),
    {
        let nodes = self.nodes();
        assert(self@ == (CompletedView {
            frames: frames_view(nodes@),
            total_gas_used: self@.total_gas_used,
        }));
        nested_frame(nodes, self.total_gas_used(), 0)
    }
}

impl TracingInspector {
    /// The nested form of the closed trace.
    ///
    /// Refused while the trace is not closed.
    pub fn export_nested(&self) -> (exported: Result<CallFrame, TraceError>)
        ensures
            match exported {
                Ok(frame) => self@.completed matches Some(trace) && frame@ == trace.nested(),
                Err(error) => self@.completed is None && error == TraceError::NotFinalized,
            },
    {
        match self.completed() {
            Ok(trace) => Ok(trace.export_nested()),
            Err(error) => Err(error),
        }
    }
}

} // verus!
