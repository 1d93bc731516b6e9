use revm_inspectors::encoding::push_decimal;
use revm_inspectors::inspector::{
    CallInputs, CallScheme, CreateInputs, CreateScheme, Inspector, InstructionResult,
    Interpreter, InterpreterResult, Log,
};
use revm_inspectors::primitives::{Address, U256};
use revm_inspectors::tracing::fourbyte::{key_string, FourByteInspector, TallyEntry};

fn call_inputs(input: Vec<u8>) -> CallInputs {
    CallInputs {
        scheme: CallScheme::Call,
        caller: Address { bytes: [1u8; 20] },
        target: Address { bytes: [2u8; 20] },
        input,
        value: U256::zero(),
        gas_limit: 100000,
    }
}

#[test]
fn selector_with_no_calldata_has_size_zero() {
    let mut inspector = FourByteInspector::new();
    inspector.on_call(&[0x43, 0xd7, 0x26, 0xd6]);
    assert_eq!(
        inspector.inner(),
        &vec![TallyEntry { selector: [0x43, 0xd7, 0x26, 0xd6], calldata_size: 0, count: 1 }]
    );
    let frame = inspector.into_frame();
    assert_eq!(frame.0.len(), 1);
    assert_eq!(frame.0.get("0x43d726d6-0"), Some(&1));
}

#[test]
fn input_shorter_than_a_selector_is_ignored() {
    let mut inspector = FourByteInspector::new();
    inspector.on_call(&[]);
    inspector.on_call(&[0x43]);
    inspector.on_call(&[0x43, 0xd7, 0x26]);
    assert!(inspector.inner().is_empty());
    assert!(inspector.into_frame().0.is_empty());
}

#[test]
fn repeated_pair_raises_the_same_counter() {
    let mut inspector = FourByteInspector::new();
    let mut input = vec![0x38, 0xcc, 0x48, 0x31];
    inspector.on_call(&input);
    inspector.on_call(&input);
    assert_eq!(inspector.inner().len(), 1);
    assert_eq!(inspector.inner()[0].count, 2);
    input.extend_from_slice(&[0u8; 96]);
    inspector.on_call(&input);
    assert_eq!(inspector.inner().len(), 2);
    assert_eq!(
        inspector.inner()[1],
        TallyEntry { selector: [0x38, 0xcc, 0x48, 0x31], calldata_size: 96, count: 1 }
    );
    let frame = inspector.into_frame();
    assert_eq!(frame.0.len(), 2);
    assert_eq!(frame.0.get("0x38cc4831-0"), Some(&2));
    assert_eq!(frame.0.get("0x38cc4831-96"), Some(&1));
}

#[test]
fn export_lists_every_pair_once() {
    let mut inspector = FourByteInspector::new();
    let mut first = vec![0x27, 0xdc, 0x29, 0x7e];
    first.extend_from_slice(&[7u8; 128]);
    let mut second = vec![0xad, 0xf5, 0x9f, 0x99];
    second.extend_from_slice(&[9u8; 288]);
    inspector.on_call(&first);
    inspector.on_call(&second);
    inspector.on_call(&[0xc2, 0x81, 0xd1, 0x9e]);
    inspector.on_call(&first);
    let pairs = inspector.export();
    assert_eq!(
        pairs,
        vec![
            ("0x27dc297e-128".to_string(), 2),
            ("0xadf59f99-288".to_string(), 1),
            ("0xc281d19e-0".to_string(), 1),
        ]
    );
}

#[test]
fn copy_has_a_tally_of_its_own() {
    let mut inspector = FourByteInspector::new();
    inspector.on_call(&[1, 2, 3, 4]);
    let copy = inspector.clone();
    inspector.on_call(&[1, 2, 3, 4]);
    assert_eq!(copy.inner()[0].count, 1);
    assert_eq!(inspector.inner()[0].count, 2);
}

#[test]
fn key_text_is_prefix_hex_hyphen_decimal() {
    assert_eq!(key_string(&[0x00, 0x0a, 0xff, 0x10], 0), "0x000aff10-0");
    assert_eq!(key_string(&[0xde, 0xad, 0xbe, 0xef], 1234567890), "0xdeadbeef-1234567890");
}

#[test]
fn decimal_text_has_no_leading_zeros() {
    for (n, expected) in [
        (0usize, "0"),
        (7, "7"),
        (9, "9"),
        (10, "10"),
        (99, "99"),
        (100, "100"),
        (12345, "12345"),
        (usize::MAX, &usize::MAX.to_string()),
    ] {
        let mut text = String::from("n=");
        push_decimal(&mut text, n);
        assert_eq!(text, format!("n={expected}"));
    }
}

#[test]
fn only_call_starts_reach_the_tally() {
    let mut inspector = FourByteInspector::default();
    let interp = Interpreter { pc: 0, opcode: 0x60, gas_remaining: 10, depth: 0 };
    let result =
        InterpreterResult { result: InstructionResult::Return, output: vec![1, 2], gas_used: 5 };
    inspector.initialize_interp(&interp);
    inspector.step(&interp);
    inspector.step_end(&interp);
    inspector.log(&Log {
        address: Address { bytes: [3u8; 20] },
        topics: Vec::new(),
        data: vec![0xaa, 0xbb, 0xcc, 0xdd],
    });
    assert_eq!(inspector.call_end(result.clone()), result);
    let create = CreateInputs {
        scheme: CreateScheme::Create,
        caller: Address { bytes: [1u8; 20] },
        init_code: vec![0x60, 0x80, 0x60, 0x40, 0x52],
        value: U256::zero(),
        gas_limit: 1,
    };
    assert_eq!(inspector.create(&create), None);
    let outcome = inspector.create_end(result.clone(), Some(Address { bytes: [4u8; 20] }));
    assert_eq!(outcome.result, result);
    assert_eq!(outcome.address, Some(Address { bytes: [4u8; 20] }));
    inspector.selfdestruct(
        Address { bytes: [4u8; 20] },
        Address { bytes: [1u8; 20] },
        U256::from_u64(1),
    );
    assert!(inspector.inner().is_empty());

    assert_eq!(inspector.call(&call_inputs(vec![0x43, 0xd7, 0x26, 0xd6, 0x01])), None);
    assert_eq!(
        inspector.inner(),
        &vec![TallyEntry { selector: [0x43, 0xd7, 0x26, 0xd6], calldata_size: 1, count: 1 }]
    );
}
