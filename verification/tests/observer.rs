use revm_inspectors::inspector::{
    CallInputs, CallScheme, CreateInputs, CreateScheme, Inspector, InstructionResult,
    Interpreter, InterpreterResult, Log,
};
use revm_inspectors::primitives::{Address, U256};
use revm_inspectors::stack::maybe_owned::{InspectorArena, MaybeOwnedInspector};
use revm_inspectors::tracing::builder::{TracingInspector, TracingInspectorConfig};
use revm_inspectors::tracing::parity::Action;
use revm_inspectors::tracing::types::{CallKind, TraceError};

fn address(last: u8) -> Address {
    let mut bytes = [0u8; 20];
    bytes[19] = last;
    Address { bytes }
}

fn call(scheme: CallScheme, caller: u8, target: u8, input: Vec<u8>, value: u64) -> CallInputs {
    CallInputs {
        scheme,
        caller: address(caller),
        target: address(target),
        input,
        value: U256::from_u64(value),
        gas_limit: 1000,
    }
}

fn ended(result: InstructionResult, output: Vec<u8>, gas_used: u64) -> InterpreterResult {
    InterpreterResult { result, output, gas_used }
}

fn tracer() -> TracingInspector {
    TracingInspector::new(TracingInspectorConfig { transfer_hidden_since: Some(17) }, 12)
}

#[test]
fn hooks_build_the_tree() {
    let mut insp = tracer();
    let interp = Interpreter { pc: 0, opcode: 0, gas_remaining: 0, depth: 0 };
    assert_eq!(insp.call(&call(CallScheme::Call, 1, 2, vec![1, 2, 3, 4], 5)), None);
    insp.initialize_interp(&interp);
    insp.step(&interp);
    insp.step_end(&interp);
    insp.log(&Log { address: address(2), topics: Vec::new(), data: vec![1] });
    let create = CreateInputs {
        scheme: CreateScheme::Create,
        caller: address(2),
        init_code: vec![0x60],
        value: U256::from_u64(1),
        gas_limit: 500,
    };
    assert_eq!(insp.create(&create), None);
    assert_eq!(insp.call(&call(CallScheme::StaticCall, 3, 4, vec![], 8)), None);
    let inner = ended(InstructionResult::Stop, vec![], 10);
    assert_eq!(insp.call_end(inner.clone()), inner);
    insp.selfdestruct(address(3), address(2), U256::from_u64(1));
    let made = ended(InstructionResult::SelfDestruct, vec![], 20);
    let outcome = insp.create_end(made.clone(), Some(address(3)));
    assert_eq!(outcome.result, made);
    assert_eq!(outcome.address, Some(address(3)));
    let outer = ended(InstructionResult::Return, vec![0xff], 30);
    assert_eq!(insp.call_end(outer.clone()), outer);

    let nodes = insp.nodes();
    assert_eq!(nodes.len(), 3);
    assert_eq!(nodes[0].kind, CallKind::Call);
    assert_eq!(nodes[0].logs.len(), 1);
    assert_eq!(nodes[1].kind, CallKind::Create);
    assert_eq!(nodes[1].address, Address::zero());
    assert_eq!(nodes[1].outcome.as_ref().unwrap().created, Some(address(3)));
    assert_eq!(nodes[1].selfdestruct.unwrap().refund_address, Some(address(2)));
    assert_eq!(nodes[2].kind, CallKind::StaticCall);
    assert_eq!(nodes[2].value, U256::zero());
    assert_eq!(nodes[2].trace_address, vec![0, 0]);

    insp.finalize(99).unwrap();
    let traces = insp.export_flat().unwrap();
    assert_eq!(traces.len(), 4);
    assert!(matches!(traces[2].action, Action::Selfdestruct(_)));
    assert_eq!(traces[2].trace_address, vec![0]);
    assert_eq!(traces[3].trace_address, vec![0, 0]);
}

#[test]
fn end_without_a_frame_gives_the_construction_up() {
    let mut insp = tracer();
    let result = ended(InstructionResult::Stop, vec![], 1);
    assert_eq!(insp.call_end(result.clone()), result);
    assert_eq!(insp.call(&call(CallScheme::Call, 1, 2, vec![], 0)), None);
    assert!(insp.nodes().is_empty());
    assert_eq!(insp.finalize(1), Err(TraceError::MalformedStream));
}

#[test]
fn tracer_behind_handles_hears_each_event_once() {
    let mut arena = InspectorArena::new();
    let owned = MaybeOwnedInspector::new_owned(&mut arena, tracer());
    let stacked = owned.clone_stacked();
    let inputs = call(CallScheme::Call, 1, 2, vec![9, 9, 9, 9], 0);
    for handle in [&stacked, &owned, &stacked] {
        assert_eq!(handle.call(&mut arena, &inputs), None);
    }
    let result = ended(InstructionResult::Stop, vec![], 7);
    for handle in [&stacked, &owned, &stacked] {
        assert_eq!(handle.call_end(&mut arena, result.clone()), result);
    }
    assert_eq!(stacked.as_ref(&arena).nodes().len(), 1);
    assert!(stacked.as_ref(&arena).nodes()[0].is_resolved());
}
