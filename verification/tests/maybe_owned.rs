use revm_inspectors::inspector::{
    CallInputs, CallScheme, CreateInputs, CreateOutcome, CreateScheme, InstructionResult,
    Interpreter, InterpreterResult, Log,
};
use revm_inspectors::primitives::{Address, U256};
use revm_inspectors::stack::maybe_owned::{InspectorArena, MaybeOwnedInspector};
use revm_inspectors::tracing::fourbyte::FourByteInspector;

fn call_inputs(input: Vec<u8>) -> CallInputs {
    CallInputs {
        scheme: CallScheme::Call,
        caller: Address { bytes: [1u8; 20] },
        target: Address { bytes: [2u8; 20] },
        input,
        value: U256::zero(),
        gas_limit: 100000,
    }
}

fn result() -> InterpreterResult {
    InterpreterResult { result: InstructionResult::Return, output: vec![9, 9], gas_used: 77 }
}

#[test]
fn owned_handle_drives_and_stacked_handles_look() {
    let mut arena = InspectorArena::new();
    let owned = MaybeOwnedInspector::new_owned(&mut arena, FourByteInspector::new());
    let stacked = owned.clone_stacked();
    let second = stacked.clone_stacked();
    assert!(owned.is_owned());
    assert!(!stacked.is_owned());
    assert!(!second.is_owned());
    assert_eq!(owned.slot(), 0);
    assert_eq!(stacked.slot(), 0);
    assert_eq!(second.slot(), 0);
    assert_eq!(arena.len(), 1);
    assert!(arena.holds(&stacked));

    let inputs = call_inputs(vec![0x43, 0xd7, 0x26, 0xd6]);
    assert_eq!(stacked.call(&mut arena, &inputs), None);
    assert_eq!(second.call(&mut arena, &inputs), None);
    assert!(stacked.as_ref(&arena).inner().is_empty());

    assert_eq!(owned.call(&mut arena, &inputs), None);
    assert_eq!(owned.as_ref(&arena).inner().len(), 1);
    assert_eq!(stacked.as_ref(&arena).inner()[0].count, 1);
    assert_eq!(second.as_ref(&arena).inner()[0].count, 1);
}

#[test]
fn each_observer_has_its_own_slot() {
    let mut arena = InspectorArena::new();
    let first = MaybeOwnedInspector::new_owned(&mut arena, FourByteInspector::new());
    let second = MaybeOwnedInspector::owned::<FourByteInspector>(&mut arena);
    assert!(second.is_owned());
    assert_eq!(first.slot(), 0);
    assert_eq!(second.slot(), 1);
    assert_eq!(arena.len(), 2);
    second.call(&mut arena, &call_inputs(vec![1, 2, 3, 4, 5]));
    assert!(first.as_ref(&arena).inner().is_empty());
    assert_eq!(second.as_ref(&arena).inner().len(), 1);
    assert!(!arena.holds(&MaybeOwnedInspector::new_owned(
        &mut InspectorArena::new(),
        FourByteInspector::new()
    )
    .clone_stacked()) || arena.len() > 0);
}

#[test]
fn copy_of_a_handle_is_stacked() {
    let mut arena = InspectorArena::new();
    let owned = MaybeOwnedInspector::new_owned(&mut arena, FourByteInspector::new());
    let copy = owned.clone();
    assert!(!copy.is_owned());
    assert_eq!(copy, MaybeOwnedInspector::Stacked(match owned {
        MaybeOwnedInspector::Owned(slot) => slot,
        MaybeOwnedInspector::Stacked(slot) => slot,
    }));
}

#[test]
fn stacked_handle_answers_neutrally() {
    let mut arena = InspectorArena::new();
    let owned = MaybeOwnedInspector::new_owned(&mut arena, FourByteInspector::new());
    let stacked = owned.clone_stacked();
    let interp = Interpreter { pc: 3, opcode: 0x01, gas_remaining: 5, depth: 1 };
    stacked.initialize_interp(&mut arena, &interp);
    stacked.step(&mut arena, &interp);
    stacked.step_end(&mut arena, &interp);
    stacked.log(
        &mut arena,
        &Log { address: Address { bytes: [3u8; 20] }, topics: Vec::new(), data: Vec::new() },
    );
    assert_eq!(stacked.call_end(&mut arena, result()), result());
    let create = CreateInputs {
        scheme: CreateScheme::Create2,
        caller: Address { bytes: [1u8; 20] },
        init_code: vec![0x60, 0x80, 0x60, 0x40],
        value: U256::from_u64(3),
        gas_limit: 9,
    };
    assert_eq!(stacked.create(&mut arena, &create), None);
    let address = Some(Address { bytes: [8u8; 20] });
    assert_eq!(
        stacked.create_end(&mut arena, result(), address),
        CreateOutcome { result: result(), address }
    );
    stacked.selfdestruct(
        &mut arena,
        Address { bytes: [8u8; 20] },
        Address { bytes: [1u8; 20] },
        U256::from_u64(1),
    );
    assert!(owned.as_ref(&arena).inner().is_empty());
}

#[test]
fn owned_handle_passes_every_hook_on() {
    let mut arena = InspectorArena::new();
    let owned = MaybeOwnedInspector::new_owned(&mut arena, FourByteInspector::new());
    let interp = Interpreter { pc: 3, opcode: 0x01, gas_remaining: 5, depth: 1 };
    owned.initialize_interp(&mut arena, &interp);
    owned.step(&mut arena, &interp);
    owned.step_end(&mut arena, &interp);
    owned.log(
        &mut arena,
        &Log { address: Address { bytes: [3u8; 20] }, topics: Vec::new(), data: Vec::new() },
    );
    assert_eq!(owned.call_end(&mut arena, result()), result());
    let address = Some(Address { bytes: [8u8; 20] });
    assert_eq!(
        owned.create_end(&mut arena, result(), address),
        CreateOutcome::new(result(), address)
    );
    owned.call(&mut arena, &call_inputs(vec![0xaa, 0xbb, 0xcc, 0xdd, 0, 0]));
    owned.call(&mut arena, &call_inputs(vec![0xaa, 0xbb, 0xcc, 0xdd, 1, 1]));
    let tally = owned.as_ref(&arena).inner();
    assert_eq!(tally.len(), 1);
    assert_eq!(tally[0].calldata_size, 2);
    assert_eq!(tally[0].count, 2);
}
