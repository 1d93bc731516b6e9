//! The frames of a call trace.

use crate::inspector::{CallScheme, CreateScheme, InstructionResult, Log, LogView, logs_view};
use crate::primitives::{Address, U256};
use vstd::prelude::*;

verus! {

/// What kind of call or create a frame is.
#[derive(Clone, Copy, Debug, PartialEq, Eq)]
pub enum CallKind {
    /// A plain call.
    Call,
    /// A call that may not change state.
    StaticCall,
    /// The target's code runs on the caller's storage, with the caller and
    /// value of the calling frame.
    DelegateCall,
    /// The target's code runs on the caller's storage.
    CallCode,
    /// A create whose address comes from the creator's nonce.
    Create,
    /// A create whose address comes from a salt and the init code.
    Create2,
}

impl CallKind {
    /// Whether the frame creates a contract.
    #[verifier::when_used_as_spec(spec_is_any_create)]
    pub fn is_any_create(&self) -> (create: bool)
        ensures
            create == self.spec_is_any_create(),
    {
        match self {
            CallKind::Create | CallKind::Create2 => true,
            _ => false,
        }
    }

    /// Whether the frame creates a contract.
    pub open spec fn spec_is_any_create(&self) -> bool {
        *self is Create || *self is Create2
    }

    /// Whether a frame of this kind can carry no value of its own: a static
    /// call sends none, a delegate call keeps that of the calling frame.
    #[verifier::when_used_as_spec(spec_carries_no_value)]
    pub fn carries_no_value(&self) -> (none: bool)
        ensures
            none == self.spec_carries_no_value(),
    {
        match self {
            CallKind::StaticCall | CallKind::DelegateCall => true,
            _ => false,
        }
    }

    /// Whether a frame of this kind can carry no value of its own.
    pub open spec fn spec_carries_no_value(&self) -> bool {
        *self is StaticCall || *self is DelegateCall
    }

    /// The kind of a call made with the given scheme.
    pub open spec fn of_call_scheme(scheme: CallScheme) -> CallKind {
        match scheme {
            CallScheme::Call => CallKind::Call,
            CallScheme::CallCode => CallKind::CallCode,
            CallScheme::DelegateCall => CallKind::DelegateCall,
            CallScheme::StaticCall => CallKind::StaticCall,
        }
    }

    /// The kind of a create made with the given scheme.
    pub open spec fn of_create_scheme(scheme: CreateScheme) -> CallKind {
        match scheme {
            CreateScheme::Create => CallKind::Create,
            CreateScheme::Create2 => CallKind::Create2,
        }
    }

    /// The kind of a call made with the given scheme.
    pub fn from_call_scheme(scheme: CallScheme) -> (kind: CallKind)
        ensures
            kind == CallKind::of_call_scheme(scheme),
    {
        match scheme {
            CallScheme::Call => CallKind::Call,
            CallScheme::CallCode => CallKind::CallCode,
            CallScheme::DelegateCall => CallKind::DelegateCall,
            CallScheme::StaticCall => CallKind::StaticCall,
        }
    }

    /// The kind of a create made with the given scheme.
    pub fn from_create_scheme(scheme: CreateScheme) -> (kind: CallKind)
        ensures
            kind == CallKind::of_create_scheme(scheme),
    {
        match scheme {
            CreateScheme::Create => CallKind::Create,
            CreateScheme::Create2 => CallKind::Create2,
        }
    }
}

/// Which rule of the protocol a self-destruct is recorded under.
#[derive(Clone, Copy, Debug, PartialEq, Eq)]
pub enum SelfdestructRule {
    /// The transfer of the balance is recorded: who got it, and how much.
    ShowTransfer,
    /// The transfer is not recorded: the record keeps the contract alone,
    /// with a balance of zero.
    HideTransfer,
}

/// What a frame's self-destruct left in the trace.
#[derive(Clone, Copy, Debug, PartialEq, Eq)]
pub struct SelfdestructRecord {
    /// The contract that destroyed itself.
    pub target: Address,
    /// Who got the balance; absent where the transfer is not shown.
    pub refund_address: Option<Address>,
    /// The balance handed over; zero where the transfer is not shown.
    pub balance: U256,
}

/// How a frame ended.
#[derive(Clone, Debug, PartialEq, Eq)]
pub struct FrameOutcome {
    /// Why the frame stopped.
    pub status: InstructionResult,
    /// The gas that the frame used.
    pub gas_used: u64,
    /// The data that the frame returned.
    pub output: Vec<u8>,
    /// The address of the contract that a create frame deployed.
    pub created: Option<Address>,
}

/// The end of a frame as a value of sequences.
pub struct OutcomeView {
    pub status: InstructionResult,
    pub gas_used: u64,
    pub output: Seq<u8>,
    pub created: Option<Address>,
}

impl View for FrameOutcome {
    type V = OutcomeView;

    open spec fn view(&self) -> OutcomeView {
        OutcomeView {
            status: self.status,
            gas_used: self.gas_used,
            output: self.output@,
            created: self.created,
        }
    }
}

/// One call or create of a trace, with its place in the tree of frames.
///
/// The frames of a trace stand in one list in the order in which they were
/// entered; `parent` and `children` are positions in that list.
#[derive(Clone, Debug, PartialEq, Eq)]
pub struct CallTraceNode {
    /// The frame that made this call; absent for the root.
    pub parent: Option<usize>,
    /// The frames that this frame called, in call order.
    pub children: Vec<usize>,
    /// The path of child positions from the root to this frame.
    pub trace_address: Vec<usize>,
    /// What kind of call or create this is.
    pub kind: CallKind,
    /// The account that made the call.
    pub caller: Address,
    /// The account whose code runs.
    pub address: Address,
    /// The value sent along; zero for static and delegate calls.
    pub value: U256,
    /// The gas given to the frame.
    pub gas_limit: u64,
    /// The call data, or the init code of a create.
    pub input: Vec<u8>,
    /// How the frame ended; absent while it runs.
    pub outcome: Option<FrameOutcome>,
    /// What the frame's self-destruct left, if it destroyed itself.
    pub selfdestruct: Option<SelfdestructRecord>,
    /// The logs that the frame emitted, in order.
    pub logs: Vec<Log>,
}

/// A frame as a value of sequences.
pub struct FrameView {
    pub parent: Option<usize>,
    pub children: Seq<usize>,
    pub trace_address: Seq<usize>,
    pub kind: CallKind,
    pub caller: Address,
    pub address: Address,
    pub value: U256,
    pub gas_limit: u64,
    pub input: Seq<u8>,
    pub outcome: Option<OutcomeView>,
    pub selfdestruct: Option<SelfdestructRecord>,
    pub logs: Seq<LogView>,
}

impl View for CallTraceNode {
    type V = FrameView;

    open spec fn view(&self) -> FrameView {
        FrameView {
            parent: self.parent,
            children: self.children@,
            trace_address: self.trace_address@,
            kind: self.kind,
            caller: self.caller,
            address: self.address,
            value: self.value,
            gas_limit: self.gas_limit,
            input: self.input@,
            outcome: match self.outcome {
                Some(outcome) => Some(outcome@),
                None => None,
            },
            selfdestruct: self.selfdestruct,
            logs: logs_view(self.logs@),
        }
    }
}

impl FrameView {
    /// Whether the frame has ended.
    pub open spec fn is_resolved(self) -> bool {
        self.outcome is Some
    }

    /// Why the frame failed, if it has ended in failure.
    pub open spec fn error(self) -> Option<InstructionResult> {
        match self.outcome {
            Some(outcome) => if outcome.status.is_ok() {
                None
            } else {
                Some(outcome.status)
            },
            None => None,
        }
    }
}

/// The views of a list of frames.
pub open spec fn frames_view(frames: Seq<CallTraceNode>) -> Seq<FrameView> {
    Seq::new(frames.len(), |i: int| frames[i]@)
}

impl CallTraceNode {
    /// The number of frames that this frame called.
    pub fn subtraces(&self) -> (n: usize)
        ensures
            n == self@.children.len(),
    {
        self.children.len()
    }

    /// Whether the frame has ended.
    pub fn is_resolved(&self) -> (resolved: bool)
        ensures
            resolved == self@.is_resolved(),
    {
        self.outcome.is_some()
    }

    /// The gas that the frame used, known once it has ended.
    pub fn gas_used(&self) -> (gas: Option<u64>)
        ensures
            gas == match self@.outcome {
                Some(outcome) => Some(outcome.gas_used),
                None => None,
            },
    {
        match &self.outcome {
            Some(outcome) => Some(outcome.gas_used),
            None => None,
        }
    }

    /// Why the frame failed, if it has ended in failure.
    pub fn error(&self) -> (error: Option<InstructionResult>)
        ensures
            error == self@.error(),
    {
        match &self.outcome {
            Some(outcome) => if outcome.status.is_ok() {
                None
            } else {
                Some(outcome.status)
            },
            None => None,
        }
    }

    /// Whether the frame destroyed its contract.
    pub fn is_selfdestruct(&self) -> (destroyed: bool)
        ensures
            destroyed == self@.selfdestruct is Some,
    {
        self.selfdestruct.is_some()
    }
}

/// Why the trace could not take an event or hand out a result.
#[derive(Clone, Copy, Debug, PartialEq, Eq)]
pub enum TraceError {
    /// The events do not nest: a frame was left, or acted, that is not the
    /// current one, a second outermost frame was entered, or the trace was
    /// to be closed while a frame was still running or none had run.
    MalformedStream,
    /// The trace was closed before.
    AlreadyFinalized,
    /// The trace has not been closed yet.
    NotFinalized,
}

} // verus!
