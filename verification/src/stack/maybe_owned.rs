//! One observer behind several handles.

use crate::inspector::{
    neutral, CallInputs, CallOutcome, CreateInputs, CreateOutcome, Event, Inspector, Interpreter,
    InterpreterResult, Log, Reply,
};
use crate::primitives::{Address, U256};
use vstd::prelude::*;

verus! {

/// The observers of one execution, each in a slot of its own. Handles of type
/// [`MaybeOwnedInspector`] name a slot; the arena holds the observers' state.
#[derive(Debug)]
pub struct InspectorArena<INSP> {
    slots: Vec<INSP>,
}

impl<INSP> InspectorArena<INSP> {
    /// The observers held, by slot.
    pub closed spec fn view(&self) -> Seq<INSP> {
        self.slots@
    }

    /// An arena without observers.
    pub fn new() -> (arena: Self)
        ensures
            arena@ == Seq::<INSP>::empty(),
    {
        InspectorArena { slots: Vec::new() }
    }

    /// The number of observers held.
    pub fn len(&self) -> (n: usize)
        ensures
            n == self@.len(),
    {
        self.slots.len()
    }

    /// Whether the handle names a slot of this arena.
    #[verifier::when_used_as_spec(spec_holds)]
    pub fn holds(&self, handle: &MaybeOwnedInspector) -> (held: bool)
        ensures
            held == self.spec_holds(handle),
    {
        handle.slot() < self.slots.len()
    }

    /// Whether the handle names a slot of this arena.
    pub open spec fn spec_holds(&self, handle: &MaybeOwnedInspector) -> bool {
        handle.slot() < self@.len()
    }
}

/// A handle on an observer that is either the one that drives it or one of
/// any number that only look at it.
///
/// The engine reports every event to every handle in its stack of observers.
/// Only the owned handle passes the report on, so the observer hears of each
/// event once, however many handles name it.
#[derive(Debug, PartialEq, Eq)]
pub enum MaybeOwnedInspector {
    /// The handle that drives the observer.
    Owned(Slot),
    /// A handle for looking at an observer that another handle drives.
    Stacked(Slot),
}

/// The place of an observer in its arena. It cannot be copied, and only a
/// new observer gets a new one: so no observer ever has two owned handles.
#[derive(Debug, PartialEq, Eq)]
pub struct Slot {
    index: usize,
}

impl Slot {
    /// The slot's number.
    pub closed spec fn index(self) -> usize {
        self.index
    }
}

/// What a handle makes of a report: the owned handle lets its observer react
/// and leaves the other observers alone; a stacked handle changes nothing and
/// gives the neutral reply.
pub open spec fn forwarded<INSP: Inspector>(
    handle: MaybeOwnedInspector,
    pre: Seq<INSP>,
    event: Event,
    post: Seq<INSP>,
    reply: Reply,
) -> bool {
    match handle {
        MaybeOwnedInspector::Owned(slot) => {
            &&& post.len() == pre.len()
            &&& INSP::reacts(pre[slot.index() as int], event, post[slot.index() as int], reply)
            &&& forall|i: int| 0 <= i < pre.len() && i != slot.index() ==> post[i] == pre[i]
        },
        MaybeOwnedInspector::Stacked(_) => post == pre && reply == neutral(event),
    }
}

impl MaybeOwnedInspector {
    /// The slot of the observer that the handle names.
    #[verifier::when_used_as_spec(spec_slot)]
    pub fn slot(&self) -> (index: usize)
        ensures
            index == self.spec_slot(),
    {
        match self {
            MaybeOwnedInspector::Owned(slot) => slot.index,
            MaybeOwnedInspector::Stacked(slot) => slot.index,
        }
    }

    /// The slot of the observer that the handle names.
    pub open spec fn spec_slot(&self) -> usize {
        match self {
            MaybeOwnedInspector::Owned(slot) => slot.index(),
            MaybeOwnedInspector::Stacked(slot) => slot.index(),
        }
    }

    /// Whether this is the handle that drives the observer.
    #[verifier::when_used_as_spec(spec_is_owned)]
    pub fn is_owned(&self) -> (owned: bool)
        ensures
            owned == self.spec_is_owned(),
    {
        match self {
            MaybeOwnedInspector::Owned(_) => true,
            MaybeOwnedInspector::Stacked(_) => false,
        }
    }

    /// Whether this is the handle that drives the observer.
    pub open spec fn spec_is_owned(&self) -> bool {
        *self is Owned
    }

    /// Puts `inspector` into a new slot of the arena and returns the handle
    /// that drives it.
    pub fn new_owned<INSP>(arena: &mut InspectorArena<INSP>, inspector: INSP) -> (handle: Self)
        ensures
            handle is Owned,
            handle.slot() == old(arena)@.len(),
            final(arena)@ == old(arena)@.push(inspector),
    {
        let index = arena.slots.len();
        arena.slots.push(inspector);
        MaybeOwnedInspector::Owned(Slot { index })
    }

    /// A stacked handle on the same observer.
    pub fn clone_stacked(&self) -> (handle: Self)
        ensures
            handle is Stacked,
            handle.slot() == self.slot(),
    {
        match self {
            MaybeOwnedInspector::Owned(slot) | MaybeOwnedInspector::Stacked(slot) => {
                MaybeOwnedInspector::Stacked(Slot { index: slot.index })
            },
        }
    }

    /// The observer as it is now, whichever kind of handle this is.
    pub fn as_ref<'a, INSP>(&self, arena: &'a InspectorArena<INSP>) -> (inspector: &'a INSP)
        requires
            arena.holds(self),
        ensures
            *inspector == arena@[self.slot() as int],
    {
        match self {
            MaybeOwnedInspector::Owned(slot) => &arena.slots[slot.index],
            MaybeOwnedInspector::Stacked(slot) => &arena.slots[slot.index],
        }
    }

    /// Puts a default observer into a new slot of the arena and returns the
    /// handle that drives it.
    pub fn owned<INSP: Default>(arena: &mut InspectorArena<INSP>) -> (handle: Self)
        ensures
            handle is Owned,
            handle.slot() == old(arena)@.len(),
            final(arena)@.len() == old(arena)@.len() + 1,
            final(arena)@.drop_last() == old(arena)@,
            INSP::default.ensures((), final(arena)@.last()),
    {
        let inspector = INSP::default();
        let handle = Self::new_owned(arena, inspector);
        assert(arena@.drop_last() =~= old(arena)@);
        handle
    }

    /// The interpreter of a frame is about to start.
    pub fn initialize_interp<INSP: Inspector>(
        &self,
        arena: &mut InspectorArena<INSP>,
        interp: &Interpreter,
    )
        requires
            old(arena).holds(self),
        ensures
            forwarded(*self, old(arena)@, Event::Initialize(*interp), final(arena)@, Reply::Nothing),
    {
        match self {
            MaybeOwnedInspector::Owned(slot) => {
                arena.slots[slot.index].initialize_interp(interp)
            },
            MaybeOwnedInspector::Stacked(_) => {},
        }
    }

    /// An instruction is about to run.
    pub fn step<INSP: Inspector>(&self, arena: &mut InspectorArena<INSP>, interp: &Interpreter)
        requires
            old(arena).holds(self),
        ensures
            forwarded(*self, old(arena)@, Event::Step(*interp), final(arena)@, Reply::Nothing),
    {
        match self {
            MaybeOwnedInspector::Owned(slot) => arena.slots[slot.index].step(interp),
            MaybeOwnedInspector::Stacked(_) => {},
        }
    }

    /// A log was emitted.
    pub fn log<INSP: Inspector>(&self, arena: &mut InspectorArena<INSP>, log: &Log)
        requires
            old(arena).holds(self),
        ensures
            forwarded(*self, old(arena)@, Event::Log(*log), final(arena)@, Reply::Nothing),
    {
        match self {
            MaybeOwnedInspector::Owned(slot) => arena.slots[slot.index].log(log),
            MaybeOwnedInspector::Stacked(_) => {},
        }
    }

    /// An instruction has run.
    pub fn step_end<INSP: Inspector>(&self, arena: &mut InspectorArena<INSP>, interp: &Interpreter)
        requires
            old(arena).holds(self),
        ensures
            forwarded(*self, old(arena)@, Event::StepEnd(*interp), final(arena)@, Reply::Nothing),
    {
        match self {
            MaybeOwnedInspector::Owned(slot) => arena.slots[slot.index].step_end(interp),
            MaybeOwnedInspector::Stacked(_) => {},
        }
    }

    /// A call is about to start. A stacked handle never puts an outcome in
    /// its place.
    pub fn call<INSP: Inspector>(&self, arena: &mut InspectorArena<INSP>, inputs: &CallInputs) -> (outcome:
        Option<CallOutcome>)
        requires
            old(arena).holds(self),
        ensures
            forwarded(*self, old(arena)@, Event::Call(*inputs), final(arena)@, Reply::Call(outcome)),
    {
        match self {
            MaybeOwnedInspector::Owned(slot) => arena.slots[slot.index].call(inputs),
            MaybeOwnedInspector::Stacked(_) => None,
        }
    }

    /// A call has ended. A stacked handle hands the result back as it came.
    pub fn call_end<INSP: Inspector>(
        &self,
        arena: &mut InspectorArena<INSP>,
        result: InterpreterResult,
    ) -> (changed: InterpreterResult)
        requires
            old(arena).holds(self),
        ensures
            forwarded(
                *self,
                old(arena)@,
                Event::CallEnd(result),
                final(arena)@,
                Reply::CallEnd(changed),
            ),
    {
        match self {
            MaybeOwnedInspector::Owned(slot) => arena.slots[slot.index].call_end(result),
            MaybeOwnedInspector::Stacked(_) => result,
        }
    }

    /// A create is about to start. A stacked handle never puts an outcome in
    /// its place.
    pub fn create<INSP: Inspector>(
        &self,
        arena: &mut InspectorArena<INSP>,
        inputs: &CreateInputs,
    ) -> (outcome: Option<CreateOutcome>)
        requires
            old(arena).holds(self),
        ensures
            forwarded(
                *self,
                old(arena)@,
                Event::Create(*inputs),
                final(arena)@,
                Reply::Create(outcome),
            ),
    {
        match self {
            MaybeOwnedInspector::Owned(slot) => arena.slots[slot.index].create(inputs),
            MaybeOwnedInspector::Stacked(_) => None,
        }
    }

    /// A create has ended. A stacked handle hands back the outcome made of the
    /// result and address as they came.
    pub fn create_end<INSP: Inspector>(
        &self,
        arena: &mut InspectorArena<INSP>,
        result: InterpreterResult,
        address: Option<Address>,
    ) -> (outcome: CreateOutcome)
        requires
            old(arena).holds(self),
        ensures
            forwarded(
                *self,
                old(arena)@,
                Event::CreateEnd(result, address),
                final(arena)@,
                Reply::CreateEnd(outcome),
            ),
    {
        match self {
            MaybeOwnedInspector::Owned(slot) => {
                arena.slots[slot.index].create_end(result, address)
            },
            MaybeOwnedInspector::Stacked(_) => CreateOutcome::new(result, address),
        }
    }

    /// A contract destroys itself and leaves its balance to `target`.
    pub fn selfdestruct<INSP: Inspector>(
        &self,
        arena: &mut InspectorArena<INSP>,
        contract: Address,
        target: Address,
        value: U256,
    )
        requires
            old(arena).holds(self),
        ensures
            forwarded(
                *self,
                old(arena)@,
                Event::Selfdestruct(contract, target, value),
                final(arena)@,
                Reply::Nothing,
            ),
    {
        match self {
            MaybeOwnedInspector::Owned(slot) => {
                arena.slots[slot.index].selfdestruct(contract, target, value)
            },
            MaybeOwnedInspector::Stacked(_) => {},
        }
    }
}

impl Clone for MaybeOwnedInspector {
    /// A copy of a handle is a stacked handle: the observer stays with the
    /// one handle that drives it.
    fn clone(&self) -> (handle: Self)
        ensures
            handle is Stacked,
            handle.slot() == self.slot(),
    {
        self.clone_stacked()
    }
}

} // verus!
