use revm_inspectors::inspector::InstructionResult;
use revm_inspectors::primitives::{Address, U256};
use revm_inspectors::tracing::builder::TracingInspectorConfig;
use revm_inspectors::tracing::parity::{or_zero, CallType};
use revm_inspectors::tracing::types::{CallKind, SelfdestructRule};

#[test]
fn zero_values() {
    assert_eq!(Address::zero(), Address { bytes: [0u8; 20] });
    assert_eq!(U256::zero(), U256 { limbs: [0, 0, 0, 0] });
    assert!(U256::zero().is_zero());
    assert_eq!(U256::from_u64(69), U256 { limbs: [69, 0, 0, 0] });
    assert!(!U256::from_u64(69).is_zero());
    assert!(!U256 { limbs: [0, 0, 0, 1] }.is_zero());
    assert!(!U256 { limbs: [0, 1, 0, 0] }.is_zero());
    assert_eq!(or_zero(None), Address::zero());
    assert_eq!(or_zero(Some(Address { bytes: [5u8; 20] })), Address { bytes: [5u8; 20] });
}

#[test]
fn transfer_is_hidden_from_the_configured_version_on() {
    let config = TracingInspectorConfig { transfer_hidden_since: Some(17) };
    assert_eq!(config.rule_for(0), SelfdestructRule::ShowTransfer);
    assert_eq!(config.rule_for(16), SelfdestructRule::ShowTransfer);
    assert_eq!(config.rule_for(17), SelfdestructRule::HideTransfer);
    assert_eq!(config.rule_for(255), SelfdestructRule::HideTransfer);
    let never = TracingInspectorConfig { transfer_hidden_since: None };
    assert_eq!(never.rule_for(0), SelfdestructRule::ShowTransfer);
    assert_eq!(never.rule_for(255), SelfdestructRule::ShowTransfer);
}

#[test]
fn kinds_and_results() {
    assert!(CallKind::Create.is_any_create());
    assert!(CallKind::Create2.is_any_create());
    assert!(!CallKind::Call.is_any_create());
    assert!(CallKind::StaticCall.carries_no_value());
    assert!(CallKind::DelegateCall.carries_no_value());
    assert!(!CallKind::CallCode.carries_no_value());
    assert_eq!(CallType::of_kind(CallKind::Call), CallType::Call);
    assert_eq!(CallType::of_kind(CallKind::StaticCall), CallType::StaticCall);
    assert_eq!(CallType::of_kind(CallKind::DelegateCall), CallType::DelegateCall);
    assert_eq!(CallType::of_kind(CallKind::CallCode), CallType::CallCode);
    assert_eq!(CallType::of_kind(CallKind::Create), CallType::Absent);
    assert_eq!(CallType::of_kind(CallKind::Create2), CallType::Absent);
    assert!(InstructionResult::Stop.is_ok());
    assert!(InstructionResult::Return.is_ok());
    assert!(InstructionResult::SelfDestruct.is_ok());
    assert!(!InstructionResult::Revert.is_ok());
    assert!(!InstructionResult::OutOfGas.is_ok());
    assert!(!InstructionResult::Other.is_ok());
}
