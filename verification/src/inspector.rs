//! What an observer of an execution is told, and what it may answer.
//!
//! The execution engine reports each step of its work to an [`Inspector`]:
//! the start of a frame's interpreter, every instruction, every log, the
//! start and end of every call and create, and every self-destruct. A start
//! hook may answer with an outcome that takes the place of the call; an end
//! hook hands back the outcome, changed or not.

use crate::primitives::{copy_vec, Address, B256, U256};
use vstd::prelude::*;

verus! {

/// How a call reaches its target.
#[derive(Clone, Copy, Debug, PartialEq, Eq)]
pub enum CallScheme {
    /// A plain call.
    Call,
    /// The target's code runs on the caller's storage.
    CallCode,
    /// As `CallCode`, with the caller and value of the calling frame.
    DelegateCall,
    /// A call that may not change state.
    StaticCall,
}

/// How a new contract gets its address.
#[derive(Clone, Copy, Debug, PartialEq, Eq)]
pub enum CreateScheme {
    /// From the creator's address and nonce.
    Create,
    /// From the creator's address, a salt and the init code.
    Create2,
}

/// Why a frame stopped.
#[derive(Clone, Copy, Debug, PartialEq, Eq)]
pub enum InstructionResult {
    /// The code ran to its end.
    Stop,
    /// The code returned data.
    Return,
    /// The contract destroyed itself.
    SelfDestruct,
    /// The code reverted.
    Revert,
    /// The gas ran out.
    OutOfGas,
    /// The code held an instruction that does not exist.
    InvalidOpcode,
    /// The code jumped to a place that is no jump destination.
    InvalidJump,
    /// An instruction needed more stack items than there were.
    StackUnderflow,
    /// An instruction pushed onto a full stack.
    StackOverflow,
    /// The calls were nested too deeply.
    CallTooDeep,
    /// The caller could not pay the value.
    OutOfFunds,
    /// Any other failure.
    Other,
}

impl InstructionResult {
    /// Whether the frame ended without failure.
    #[verifier::when_used_as_spec(spec_is_ok)]
    pub fn is_ok(&self) -> (ok: bool)
        ensures
            ok == self.spec_is_ok(),
    {
        match self {
            InstructionResult::Stop | InstructionResult::Return | InstructionResult::SelfDestruct => true,
            _ => false,
        }
    }

    /// Whether the frame ended without failure.
    pub open spec fn spec_is_ok(&self) -> bool {
        *self is Stop || *self is Return || *self is SelfDestruct
    }
}

/// Where the interpreter of the current frame stands.
#[derive(Clone, Copy, Debug, PartialEq, Eq)]
pub struct Interpreter {
    /// Position of the current instruction in the code.
    pub pc: usize,
    /// The current instruction.
    pub opcode: u8,
    /// Gas left in the frame.
    pub gas_remaining: u64,
    /// Nesting depth of the frame; the outermost frame has depth zero.
    pub depth: usize,
}

/// A log record as a contract emits it.
#[derive(Clone, Debug, PartialEq, Eq)]
pub struct Log {
    /// The contract that emitted the log.
    pub address: Address,
    /// The indexed words.
    pub topics: Vec<B256>,
    /// The payload.
    pub data: Vec<u8>,
}

/// A log record as a value of sequences.
pub struct LogView {
    pub address: Address,
    pub topics: Seq<B256>,
    pub data: Seq<u8>,
}

impl View for Log {
    type V = LogView;

    open spec fn view(&self) -> LogView {
        LogView { address: self.address, topics: self.topics@, data: self.data@ }
    }
}

impl Log {
    /// A copy of the record.
    pub fn duplicate(&self) -> (copy: Log)
        ensures
            copy@ == self@,
    {
        Log { address: self.address, topics: copy_vec(&self.topics), data: copy_vec(&self.data) }
    }
}

/// The views of a sequence of log records.
pub open spec fn logs_view(logs: Seq<Log>) -> Seq<LogView> {
    Seq::new(logs.len(), |i: int| logs[i]@)
}

/// What a call is started with.
#[derive(Clone, Debug, PartialEq, Eq)]
pub struct CallInputs {
    /// How the call reaches its target.
    pub scheme: CallScheme,
    /// The account that calls.
    pub caller: Address,
    /// The account whose code runs.
    pub target: Address,
    /// The call data.
    pub input: Vec<u8>,
    /// The value sent along.
    pub value: U256,
    /// The gas given to the call.
    pub gas_limit: u64,
}

/// What a create is started with.
#[derive(Clone, Debug, PartialEq, Eq)]
pub struct CreateInputs {
    /// How the new contract gets its address.
    pub scheme: CreateScheme,
    /// The account that creates.
    pub caller: Address,
    /// The code that builds the contract.
    pub init_code: Vec<u8>,
    /// The value given to the new contract.
    pub value: U256,
    /// The gas given to the create.
    pub gas_limit: u64,
}

/// How a frame ended.
#[derive(Clone, Debug, PartialEq, Eq)]
pub struct InterpreterResult {
    /// Why the frame stopped.
    pub result: InstructionResult,
    /// The data it returned.
    pub output: Vec<u8>,
    /// The gas it used.
    pub gas_used: u64,
}

/// The end of a frame as a value of sequences.
pub struct InterpreterResultView {
    pub result: InstructionResult,
    pub output: Seq<u8>,
    pub gas_used: u64,
}

impl View for InterpreterResult {
    type V = InterpreterResultView;

    open spec fn view(&self) -> InterpreterResultView {
        InterpreterResultView { result: self.result, output: self.output@, gas_used: self.gas_used }
    }
}

impl InterpreterResult {
    /// A copy of the result.
    pub fn duplicate(&self) -> (copy: InterpreterResult)
        ensures
            copy@ == self@,
    {
        InterpreterResult {
            result: self.result,
            output: copy_vec(&self.output),
            gas_used: self.gas_used,
        }
    }
}

/// The outcome of a call.
#[derive(Clone, Debug, PartialEq, Eq)]
pub struct CallOutcome {
    /// How the called frame ended.
    pub result: InterpreterResult,
}

/// The outcome of a create.
#[derive(Clone, Debug, PartialEq, Eq)]
pub struct CreateOutcome {
    /// How the creating frame ended.
    pub result: InterpreterResult,
    /// The address of the new contract, if one was made.
    pub address: Option<Address>,
}

impl CreateOutcome {
    /// The outcome made of a frame's result and the new contract's address.
    pub fn new(result: InterpreterResult, address: Option<Address>) -> (outcome: Self)
        ensures
            outcome == (CreateOutcome { result, address }),
    {
        CreateOutcome { result, address }
    }
}

/// One report of the execution engine to an observer.
pub enum Event {
    /// The interpreter of a frame is about to start.
    Initialize(Interpreter),
    /// An instruction is about to run.
    Step(Interpreter),
    /// An instruction has run.
    StepEnd(Interpreter),
    /// A log was emitted.
    Log(Log),
    /// A call is about to start.
    Call(CallInputs),
    /// A call has ended with this result.
    CallEnd(InterpreterResult),
    /// A create is about to start.
    Create(CreateInputs),
    /// A create has ended with this result and address.
    CreateEnd(InterpreterResult, Option<Address>),
    /// A contract destroys itself: the contract, who gets its balance, and the balance.
    Selfdestruct(Address, Address, U256),
}

/// What an observer hands back on a report.
pub enum Reply {
    /// The hook returns nothing.
    Nothing,
    /// From a call's start hook: an outcome to take the place of the call, if any.
    Call(Option<CallOutcome>),
    /// From a call's end hook: the result to go on with.
    CallEnd(InterpreterResult),
    /// From a create's start hook: an outcome to take the place of the create, if any.
    Create(Option<CreateOutcome>),
    /// From a create's end hook: the outcome to go on with.
    CreateEnd(CreateOutcome),
}

/// The reply of an observer that leaves the execution alone: no outcome in
/// place of a call or create, and at an end hook the result as it came.
pub open spec fn neutral(event: Event) -> Reply {
    match event {
        Event::Initialize(_) => Reply::Nothing,
        Event::Step(_) => Reply::Nothing,
        Event::StepEnd(_) => Reply::Nothing,
        Event::Log(_) => Reply::Nothing,
        Event::Call(_) => Reply::Call(None),
        Event::CallEnd(result) => Reply::CallEnd(result),
        Event::Create(_) => Reply::Create(None),
        Event::CreateEnd(result, address) => Reply::CreateEnd(CreateOutcome { result, address }),
        Event::Selfdestruct(_, _, _) => Reply::Nothing,
    }
}

/// An observer of an execution.
///
/// `reacts` is the observer's own rule: it says which state and reply may
/// follow a state on an event. Each hook promises to keep to it.
pub trait Inspector: Sized {
    /// Whether the observer, in state `pre`, may answer `event` with `reply` and
    /// go on in state `post`.
    spec fn reacts(pre: Self, event: Event, post: Self, reply: Reply) -> bool;

    /// The interpreter of a frame is about to start.
    fn initialize_interp(&mut self, interp: &Interpreter)
        ensures
            Self::reacts(*old(self), Event::Initialize(*interp), *final(self), Reply::Nothing),
    ;

    /// An instruction is about to run.
    fn step(&mut self, interp: &Interpreter)
        ensures
            Self::reacts(*old(self), Event::Step(*interp), *final(self), Reply::Nothing),
    ;

    /// A log was emitted.
    fn log(&mut self, log: &Log)
        ensures
            Self::reacts(*old(self), Event::Log(*log), *final(self), Reply::Nothing),
    ;

    /// An instruction has run.
    fn step_end(&mut self, interp: &Interpreter)
        ensures
            Self::reacts(*old(self), Event::StepEnd(*interp), *final(self), Reply::Nothing),
    ;

    /// A call is about to start. An outcome returned here takes its place.
    fn call(&mut self, inputs: &CallInputs) -> (outcome: Option<CallOutcome>)
        ensures
            Self::reacts(*old(self), Event::Call(*inputs), *final(self), Reply::Call(outcome)),
    ;

    /// A call has ended. The result returned here is the one that counts.
    fn call_end(&mut self, result: InterpreterResult) -> (changed: InterpreterResult)
        ensures
            Self::reacts(*old(self), Event::CallEnd(result), *final(self), Reply::CallEnd(changed)),
    ;

    /// A create is about to start. An outcome returned here takes its place.
    fn create(&mut self, inputs: &CreateInputs) -> (outcome: Option<CreateOutcome>)
        ensures
            Self::reacts(*old(self), Event::Create(*inputs), *final(self), Reply::Create(outcome)),
    ;

    /// A create has ended. The outcome returned here is the one that counts.
    fn create_end(&mut self, result: InterpreterResult, address: Option<Address>) -> (outcome:
        CreateOutcome)
        ensures
            Self::reacts(
                *old(self),
                Event::CreateEnd(result, address),
                *final(self),
                Reply::CreateEnd(outcome),
            ),
    ;

    /// A contract destroys itself and leaves its balance to `target`.
    fn selfdestruct(&mut self, contract: Address, target: Address, value: U256)
        ensures
            Self::reacts(
                *old(self),
                Event::Selfdestruct(contract, target, value),
                *final(self),
                Reply::Nothing,
            ),
    ;
}

} // verus!
