use revm_inspectors::inspector::{InstructionResult, InterpreterResult, Log};
use revm_inspectors::primitives::{Address, B256, U256};
use revm_inspectors::tracing::builder::TracingInspector;
use revm_inspectors::tracing::geth::CallFrame;
use revm_inspectors::tracing::parity::{Action, CallType, TraceOutput, TransactionTrace};
use revm_inspectors::tracing::types::{CallKind, SelfdestructRule, TraceError};

fn address(last: u8) -> Address {
    let mut bytes = [0u8; 20];
    bytes[19] = last;
    Address { bytes }
}

fn ended(result: InstructionResult, output: Vec<u8>, gas_used: u64) -> InterpreterResult {
    InterpreterResult { result, output, gas_used }
}

fn builder() -> TracingInspector {
    TracingInspector::with_rule(SelfdestructRule::ShowTransfer)
}

/// A root with three children; the second reverts, the third is a static
/// call with a child of its own that destroys its contract.
fn sample() -> TracingInspector {
    let mut insp = builder();
    let root = insp
        .on_frame_enter(CallKind::Call, address(1), address(2), vec![1, 2, 3, 4], U256::from_u64(5), 1000)
        .unwrap();
    insp.on_log(
        root,
        Log { address: address(2), topics: vec![B256 { bytes: [7u8; 32] }], data: vec![0xaa] },
    )
    .unwrap();
    let a = insp
        .on_frame_enter(CallKind::DelegateCall, address(2), address(3), vec![5], U256::from_u64(9), 900)
        .unwrap();
    insp.on_frame_exit(a, ended(InstructionResult::Return, vec![0x11], 10), None).unwrap();
    let b = insp
        .on_frame_enter(CallKind::Create2, address(2), address(0), vec![0x60], U256::from_u64(1), 800)
        .unwrap();
    insp.on_frame_exit(b, ended(InstructionResult::Revert, vec![0x22], 20), Some(address(9))).unwrap();
    let c = insp
        .on_frame_enter(CallKind::StaticCall, address(2), address(4), vec![], U256::from_u64(3), 700)
        .unwrap();
    let d = insp
        .on_frame_enter(CallKind::CallCode, address(4), address(5), vec![6, 7], U256::from_u64(2), 600)
        .unwrap();
    insp.on_log(d, Log { address: address(5), topics: Vec::new(), data: Vec::new() }).unwrap();
    insp.on_selfdestruct(d, address(5), Some(address(4)), U256::from_u64(44)).unwrap();
    insp.on_frame_exit(d, ended(InstructionResult::SelfDestruct, vec![], 30), None).unwrap();
    insp.on_frame_exit(c, ended(InstructionResult::Stop, vec![], 40), None).unwrap();
    insp.on_frame_exit(root, ended(InstructionResult::Return, vec![0x33, 0x44], 50), None).unwrap();
    insp
}

fn frame_records(traces: &[TransactionTrace]) -> Vec<&TransactionTrace> {
    traces.iter().filter(|t| !matches!(t.action, Action::Selfdestruct(_))).collect()
}

fn nested_paths(frame: &CallFrame, path: Vec<usize>, out: &mut Vec<(Vec<usize>, Address, Vec<u8>)>) {
    out.push((path.clone(), frame.from, frame.input.clone()));
    for (k, inner) in frame.calls.iter().enumerate() {
        let mut deeper = path.clone();
        deeper.push(k);
        nested_paths(inner, deeper, out);
    }
}

#[test]
fn frames_record_their_place_in_the_tree() {
    let insp = sample();
    let nodes = insp.nodes();
    assert_eq!(nodes.len(), 5);
    assert_eq!(nodes[0].parent, None);
    assert_eq!(nodes[0].children, vec![1, 2, 3]);
    assert_eq!(nodes[0].subtraces(), 3);
    assert_eq!(nodes[3].children, vec![4]);
    assert_eq!(nodes[4].parent, Some(3));
    assert_eq!(nodes[0].trace_address, Vec::<usize>::new());
    assert_eq!(nodes[1].trace_address, vec![0]);
    assert_eq!(nodes[2].trace_address, vec![1]);
    assert_eq!(nodes[3].trace_address, vec![2]);
    assert_eq!(nodes[4].trace_address, vec![2, 0]);
    assert_eq!(nodes[1].value, U256::zero());
    assert_eq!(nodes[2].value, U256::from_u64(1));
    assert_eq!(nodes[3].value, U256::zero());
    assert_eq!(nodes[4].value, U256::from_u64(2));
    assert_eq!(nodes[2].error(), Some(InstructionResult::Revert));
    assert_eq!(nodes[2].outcome.as_ref().unwrap().created, None);
    assert_eq!(nodes[1].error(), None);
    assert_eq!(nodes[1].gas_used(), Some(10));
    assert!(nodes[4].is_selfdestruct());
    assert!(!nodes[3].is_selfdestruct());
    assert!(nodes[0].is_resolved());
    assert_eq!(nodes[0].logs.len(), 1);
    assert_eq!(insp.current(), None);
}

#[test]
fn running_frames_are_not_resolved() {
    let mut insp = builder();
    assert_eq!(insp.current(), None);
    let root = insp
        .on_frame_enter(CallKind::Call, address(1), address(2), vec![], U256::zero(), 1)
        .unwrap();
    assert_eq!(insp.current(), Some(root));
    assert!(!insp.nodes()[0].is_resolved());
    assert_eq!(insp.nodes()[0].gas_used(), None);
    assert_eq!(insp.nodes()[0].error(), None);
    let child = insp
        .on_frame_enter(CallKind::Create, address(2), address(0), vec![], U256::zero(), 1)
        .unwrap();
    assert_eq!(child, 1);
    assert_eq!(insp.current(), Some(child));
    insp.on_frame_exit(child, ended(InstructionResult::Return, vec![1], 1), Some(address(7))).unwrap();
    assert_eq!(insp.nodes()[1].outcome.as_ref().unwrap().created, Some(address(7)));
    assert_eq!(insp.current(), Some(root));
}

#[test]
fn flat_form_is_in_pre_order() {
    let mut insp = sample();
    insp.finalize(5000).unwrap();
    let traces = insp.export_flat().unwrap();
    assert_eq!(traces.len(), 6);
    let paths: Vec<Vec<usize>> = traces.iter().map(|t| t.trace_address.clone()).collect();
    assert_eq!(paths, vec![vec![], vec![0], vec![1], vec![2], vec![2, 0], vec![2, 0]]);
    let subtraces: Vec<usize> = traces.iter().map(|t| t.subtraces).collect();
    assert_eq!(subtraces, vec![3, 0, 0, 1, 0, 0]);

    match &traces[0].action {
        Action::Call(call) => {
            assert_eq!(call.from, address(1));
            assert_eq!(call.to, address(2));
            assert_eq!(call.value, U256::from_u64(5));
            assert_eq!(call.gas, 1000);
            assert_eq!(call.input, vec![1, 2, 3, 4]);
            assert_eq!(call.call_type, CallType::Call);
        }
        other => panic!("{other:?}"),
    }
    match &traces[0].result {
        Some(TraceOutput::Call(output)) => {
            assert_eq!(output.gas_used, 5000);
            assert_eq!(output.output, vec![0x33, 0x44]);
        }
        other => panic!("{other:?}"),
    }
    match &traces[1].result {
        Some(TraceOutput::Call(output)) => assert_eq!(output.gas_used, 10),
        other => panic!("{other:?}"),
    }
    match &traces[2].action {
        Action::Create(create) => {
            assert_eq!(create.from, address(2));
            assert_eq!(create.init, vec![0x60]);
            assert_eq!(create.value, U256::from_u64(1));
            assert_eq!(create.gas, 800);
        }
        other => panic!("{other:?}"),
    }
    assert_eq!(traces[2].error, Some(InstructionResult::Revert));
    assert_eq!(traces[2].result, None);
    assert_eq!(traces[3].error, None);
    match &traces[5].action {
        Action::Selfdestruct(destroyed) => {
            assert_eq!(destroyed.address, address(5));
            assert_eq!(destroyed.refund_address, address(4));
            assert_eq!(destroyed.balance, U256::from_u64(44));
        }
        other => panic!("{other:?}"),
    }
    assert_eq!(traces[5].error, None);
    assert_eq!(traces[5].result, None);
    assert!(matches!(traces[4].action, Action::Call(_)));
}

#[test]
fn subtraces_count_the_children_present() {
    let mut insp = sample();
    insp.finalize(5000).unwrap();
    let traces = insp.export_flat().unwrap();
    let frames = frame_records(&traces);
    for record in &frames {
        let children = frames
            .iter()
            .filter(|other| {
                other.trace_address.len() == record.trace_address.len() + 1
                    && other.trace_address[..record.trace_address.len()] == record.trace_address[..]
            })
            .count();
        assert_eq!(record.subtraces, children);
    }
}

#[test]
fn nested_form_leaves_out_what_has_no_value() {
    let mut insp = sample();
    insp.finalize(5000).unwrap();
    let frame = insp.export_nested().unwrap();
    assert_eq!(frame.typ, CallKind::Call);
    assert_eq!(frame.from, address(1));
    assert_eq!(frame.to, Some(address(2)));
    assert_eq!(frame.value, Some(U256::from_u64(5)));
    assert_eq!(frame.gas, 1000);
    assert_eq!(frame.gas_used, 5000);
    assert_eq!(frame.input, vec![1, 2, 3, 4]);
    assert_eq!(frame.output, Some(vec![0x33, 0x44]));
    assert_eq!(frame.error, None);
    assert_eq!(frame.logs.len(), 1);
    assert_eq!(frame.logs[0].topics, vec![B256 { bytes: [7u8; 32] }]);
    assert_eq!(frame.logs[0].data, vec![0xaa]);
    assert_eq!(frame.calls.len(), 3);

    let delegate = &frame.calls[0];
    assert_eq!(delegate.typ, CallKind::DelegateCall);
    assert_eq!(delegate.value, Some(U256::zero()));
    assert_eq!(delegate.gas_used, 10);
    assert_eq!(delegate.output, Some(vec![0x11]));

    let create = &frame.calls[1];
    assert_eq!(create.typ, CallKind::Create2);
    assert_eq!(create.to, None);
    assert_eq!(create.error, Some(InstructionResult::Revert));
    assert_eq!(create.output, Some(vec![0x22]));

    let fixed = &frame.calls[2];
    assert_eq!(fixed.typ, CallKind::StaticCall);
    assert_eq!(fixed.value, None);
    assert_eq!(fixed.output, None);
    assert_eq!(fixed.error, None);
    assert_eq!(fixed.calls.len(), 1);
    assert_eq!(fixed.calls[0].typ, CallKind::CallCode);
    assert_eq!(fixed.calls[0].logs.len(), 1);
    assert_eq!(fixed.calls[0].calls.len(), 0);
}

#[test]
fn both_forms_tell_of_the_same_frames() {
    let mut insp = sample();
    insp.finalize(5000).unwrap();
    let traces = insp.export_flat().unwrap();
    let frame = insp.export_nested().unwrap();
    let mut nested = Vec::new();
    nested_paths(&frame, Vec::new(), &mut nested);
    let flat: Vec<(Vec<usize>, Address, Vec<u8>)> = frame_records(&traces)
        .iter()
        .map(|t| match &t.action {
            Action::Call(call) => (t.trace_address.clone(), call.from, call.input.clone()),
            Action::Create(create) => (t.trace_address.clone(), create.from, create.init.clone()),
            other => panic!("{other:?}"),
        })
        .collect();
    assert_eq!(flat.len(), 5);
    assert_eq!(flat, nested);
    let again = insp.export_flat().unwrap();
    assert_eq!(again, traces);
    assert_eq!(insp.export_nested().unwrap(), frame);
}

#[test]
fn selfdestruct_record_follows_its_frame() {
    let mut insp = sample();
    insp.finalize(5000).unwrap();
    let traces = insp.export_flat().unwrap();
    for (j, record) in traces.iter().enumerate() {
        if matches!(record.action, Action::Selfdestruct(_)) {
            assert!(j > 0);
            assert!(!matches!(traces[j - 1].action, Action::Selfdestruct(_)));
            assert_eq!(traces[j - 1].trace_address, record.trace_address);
        }
    }
    assert!(matches!(traces[5].action, Action::Selfdestruct(_)));
}

#[test]
fn events_without_a_frame_are_refused() {
    let log = Log { address: address(1), topics: Vec::new(), data: Vec::new() };
    let mut insp = builder();
    assert_eq!(insp.on_log(0, log.clone()), Err(TraceError::MalformedStream));
    let mut insp = builder();
    assert_eq!(
        insp.on_selfdestruct(0, address(1), None, U256::zero()),
        Err(TraceError::MalformedStream)
    );
    let mut insp = builder();
    assert_eq!(insp.completed().unwrap_err(), TraceError::NotFinalized);
    assert_eq!(insp.export_nested().unwrap_err(), TraceError::NotFinalized);
    assert_eq!(insp.export_flat().unwrap_err(), TraceError::NotFinalized);
    assert_eq!(insp.finalize(0), Err(TraceError::MalformedStream));
}

#[test]
fn events_of_a_frame_that_is_not_current_are_refused() {
    let log = Log { address: address(1), topics: Vec::new(), data: Vec::new() };
    for attempt in 0..3 {
        let mut insp = builder();
        let root = insp
            .on_frame_enter(CallKind::Call, address(1), address(2), vec![], U256::zero(), 1)
            .unwrap();
        let child = insp
            .on_frame_enter(CallKind::Call, address(2), address(3), vec![], U256::zero(), 1)
            .unwrap();
        let refused = match attempt {
            0 => insp.on_log(root, log.clone()),
            1 => insp.on_log(7, log.clone()),
            _ => insp.on_selfdestruct(root, address(2), None, U256::zero()),
        };
        assert_eq!(refused, Err(TraceError::MalformedStream));
        assert_eq!(insp.nodes().len(), 2);
        assert!(insp.nodes()[0].logs.is_empty());
        assert!(!insp.nodes()[0].is_selfdestruct());
        assert_eq!(insp.on_log(child, log.clone()), Err(TraceError::MalformedStream));
        assert_eq!(
            insp.on_frame_enter(CallKind::Call, address(3), address(4), vec![], U256::zero(), 1),
            Err(TraceError::MalformedStream)
        );
    }
}

#[test]
fn second_selfdestruct_of_a_frame_is_refused() {
    let mut insp = builder();
    let root = insp
        .on_frame_enter(CallKind::Call, address(1), address(2), vec![], U256::zero(), 1)
        .unwrap();
    insp.on_selfdestruct(root, address(2), Some(address(1)), U256::from_u64(1)).unwrap();
    assert_eq!(
        insp.on_selfdestruct(root, address(2), Some(address(3)), U256::from_u64(2)),
        Err(TraceError::MalformedStream)
    );
    assert_eq!(insp.nodes()[0].selfdestruct.unwrap().refund_address, Some(address(1)));
    assert_eq!(
        insp.on_frame_exit(root, ended(InstructionResult::SelfDestruct, vec![], 1), None),
        Err(TraceError::MalformedStream)
    );
}

#[test]
fn closed_trace_takes_no_more_events() {
    let log = Log { address: address(1), topics: Vec::new(), data: Vec::new() };
    let mut insp = builder();
    let root = insp
        .on_frame_enter(CallKind::Call, address(1), address(2), vec![], U256::zero(), 1)
        .unwrap();
    let child = insp
        .on_frame_enter(CallKind::Call, address(2), address(3), vec![], U256::zero(), 1)
        .unwrap();
    insp.on_frame_exit(child, ended(InstructionResult::Stop, vec![], 1), None).unwrap();
    insp.on_frame_exit(root, ended(InstructionResult::Stop, vec![], 1), None).unwrap();
    insp.finalize(3).unwrap();

    assert_eq!(insp.nodes().len(), 0);
    assert_eq!(insp.completed().unwrap().nodes().len(), 2);
    assert_eq!(insp.completed().unwrap().total_gas_used(), 3);
    assert_eq!(insp.on_log(root, log), Err(TraceError::AlreadyFinalized));
    assert_eq!(
        insp.on_frame_enter(CallKind::Call, address(1), address(2), vec![], U256::zero(), 1),
        Err(TraceError::AlreadyFinalized)
    );
    assert_eq!(
        insp.on_frame_exit(root, ended(InstructionResult::Stop, vec![], 1), None),
        Err(TraceError::AlreadyFinalized)
    );
    assert_eq!(
        insp.on_selfdestruct(root, address(1), None, U256::zero()),
        Err(TraceError::AlreadyFinalized)
    );
    assert_eq!(insp.finalize(3), Err(TraceError::AlreadyFinalized));
    assert_eq!(insp.export_flat().unwrap().len(), 2);

    insp.reset();
    assert_eq!(insp.completed().unwrap_err(), TraceError::NotFinalized);
    assert_eq!(
        insp.on_frame_enter(CallKind::Call, address(1), address(2), vec![], U256::zero(), 1),
        Ok(0)
    );
}

#[test]
fn closed_trace_outlives_its_builder() {
    assert_eq!(builder().into_completed().unwrap_err(), TraceError::NotFinalized);
    let mut insp = sample();
    insp.finalize(5000).unwrap();
    let trace = insp.into_completed().unwrap();
    assert_eq!(trace.nodes().len(), 5);
    assert_eq!(trace.total_gas_used(), 5000);
    assert_eq!(trace.export_flat().len(), 6);
    assert_eq!(trace.export_nested().calls.len(), 3);
}

#[test]
fn reset_takes_events_again_after_a_refusal() {
    let mut insp = builder();
    assert_eq!(insp.finalize(0), Err(TraceError::MalformedStream));
    assert_eq!(
        insp.on_frame_enter(CallKind::Call, address(1), address(2), vec![], U256::zero(), 1),
        Err(TraceError::MalformedStream)
    );
    insp.reset();
    assert_eq!(
        insp.on_frame_enter(CallKind::Call, address(1), address(2), vec![], U256::zero(), 1),
        Ok(0)
    );
}
