use alloy_primitives::{hex, Address, Bytes, U256};
use revm::db::{CacheDB, EmptyDB};
use revm::interpreter::{
    CallInputs, CallOutcome, CallScheme, CallValue, CreateInputs, CreateOutcome,
    InstructionResult, InterpreterResult,
};
use revm::primitives::{
    AccountInfo, BlockEnv, CfgEnv, CfgEnvWithHandlerCfg, CreateScheme, EnvWithHandlerCfg,
    ExecutionResult, HandlerCfg, Log, Output, ResultAndState, SpecId, TxEnv, TxKind,
};
use revm::{inspector_handle_register, DatabaseCommit, Evm, EvmContext, Inspector};
use revm_inspectors::inspector as plain;
use revm_inspectors::inspector::Inspector as Observer;
use revm_inspectors::primitives as values;
use revm_inspectors::tracing::builder::{TracingInspector, TracingInspectorConfig};
use revm_inspectors::tracing::parity::{Action, SelfdestructAction};

type Db = CacheDB<EmptyDB>;

fn plain_address(address: Address) -> values::Address {
    values::Address { bytes: address.into_array() }
}

fn plain_number(number: U256) -> values::U256 {
    values::U256 { limbs: number.into_limbs() }
}

fn plain_status(result: InstructionResult) -> plain::InstructionResult {
    match result {
        InstructionResult::Stop => plain::InstructionResult::Stop,
        InstructionResult::Return => plain::InstructionResult::Return,
        InstructionResult::SelfDestruct => plain::InstructionResult::SelfDestruct,
        InstructionResult::Revert => plain::InstructionResult::Revert,
        InstructionResult::OutOfGas => plain::InstructionResult::OutOfGas,
        _ => plain::InstructionResult::Other,
    }
}

fn plain_result(result: &InterpreterResult) -> plain::InterpreterResult {
    plain::InterpreterResult {
        result: plain_status(result.result),
        output: result.output.to_vec(),
        gas_used: result.gas.spent(),
    }
}

/// Tells the tracer of the engine's calls, creates, logs and self-destructs.
struct Hooks {
    tracer: TracingInspector,
}

impl Hooks {
    fn new(spec_id: SpecId) -> Self {
        let config = TracingInspectorConfig { transfer_hidden_since: Some(SpecId::CANCUN as u8) };
        Hooks { tracer: TracingInspector::new(config, spec_id as u8) }
    }
}

impl Inspector<&mut Db> for Hooks {
    fn log(&mut self, _context: &mut EvmContext<&mut Db>, log: &Log) {
        self.tracer.log(&plain::Log {
            address: plain_address(log.address),
            topics: log.data.topics().iter().map(|t| values::B256 { bytes: t.0 }).collect(),
            data: log.data.data.to_vec(),
        });
    }

    fn call(
        &mut self,
        _context: &mut EvmContext<&mut Db>,
        inputs: &mut CallInputs,
    ) -> Option<CallOutcome> {
        let value = match inputs.value {
            CallValue::Transfer(value) => value,
            CallValue::Apparent(value) => value,
        };
        self.tracer.call(&plain::CallInputs {
            scheme: match inputs.scheme {
                CallScheme::Call => plain::CallScheme::Call,
                CallScheme::CallCode => plain::CallScheme::CallCode,
                CallScheme::DelegateCall => plain::CallScheme::DelegateCall,
                CallScheme::StaticCall => plain::CallScheme::StaticCall,
            },
            caller: plain_address(inputs.caller),
            target: plain_address(inputs.target_address),
            input: inputs.input.to_vec(),
            value: plain_number(value),
            gas_limit: inputs.gas_limit,
        });
        None
    }

    fn call_end(
        &mut self,
        _context: &mut EvmContext<&mut Db>,
        _inputs: &CallInputs,
        outcome: CallOutcome,
    ) -> CallOutcome {
        self.tracer.call_end(plain_result(&outcome.result));
        outcome
    }

    fn create(
        &mut self,
        _context: &mut EvmContext<&mut Db>,
        inputs: &mut CreateInputs,
    ) -> Option<CreateOutcome> {
        self.tracer.create(&plain::CreateInputs {
            scheme: match inputs.scheme {
                CreateScheme::Create => plain::CreateScheme::Create,
                CreateScheme::Create2 { .. } => plain::CreateScheme::Create2,
            },
            caller: plain_address(inputs.caller),
            init_code: inputs.init_code.to_vec(),
            value: plain_number(inputs.value),
            gas_limit: inputs.gas_limit,
        });
        None
    }

    fn create_end(
        &mut self,
        _context: &mut EvmContext<&mut Db>,
        _inputs: &CreateInputs,
        outcome: CreateOutcome,
    ) -> CreateOutcome {
        self.tracer.create_end(plain_result(&outcome.result), outcome.address.map(plain_address));
        outcome
    }

    fn selfdestruct(&mut self, contract: Address, target: Address, value: U256) {
        self.tracer.selfdestruct(
            plain_address(contract),
            plain_address(target),
            plain_number(value),
        );
    }
}

fn inspect(db: &mut Db, env: EnvWithHandlerCfg, hooks: &mut Hooks) -> ResultAndState {
    let mut evm = Evm::builder()
        .with_db(db)
        .with_external_context(hooks)
        .with_env_with_handler_cfg(env)
        .append_handler_register(inspector_handle_register)
        .build();
    evm.transact().unwrap()
}

fn deploy(db: &mut Db, cfg: &CfgEnvWithHandlerCfg, spec_id: SpecId, tx: TxEnv) -> Address {
    let env = EnvWithHandlerCfg::new_with_cfg_env(cfg.clone(), BlockEnv::default(), tx);
    let mut hooks = Hooks::new(spec_id);
    let res = inspect(db, env, &mut hooks);
    let contract_address = match res.result {
        ExecutionResult::Success { output, .. } => match output {
            Output::Create(_, addr) => addr.unwrap(),
            _ => panic!("Create failed"),
        },
        _ => panic!("Execution failed"),
    };
    db.commit(res.state);
    contract_address
}

#[test]
fn test_parity_selfdestruct_london() {
    test_parity_selfdestruct(SpecId::LONDON);
}

#[test]
fn test_parity_selfdestruct_cancun() {
    test_parity_selfdestruct(SpecId::CANCUN);
}

fn test_parity_selfdestruct(spec_id: SpecId) {
    /*
    contract DummySelfDestruct {
        constructor() payable {}
        function close() public {
            selfdestruct(payable(msg.sender));
        }
    }
    */

    // simple contract that selfdestructs when a function is called
    let code = hex::decode("608080604052606b908160108239f3fe6004361015600c57600080fd5b6000803560e01c6343d726d614602157600080fd5b346032578060031936011260325733ff5b80fdfea2646970667358221220f393fc6be90126d52315ccd38ae6608ac4fd5bef4c59e119e280b2a2b149d0dc64736f6c63430008190033").unwrap();

    let deployer: Address = "341348115259a8bf69f1f50101c227fced83bac6".parse().unwrap();
    let value = U256::from(69);

    let mut db = CacheDB::new(EmptyDB::default());
    db.insert_account_info(deployer, AccountInfo { balance: value, ..Default::default() });

    let cfg = CfgEnvWithHandlerCfg::new(CfgEnv::default(), HandlerCfg::new(spec_id));
    let contract_address = deploy(
        &mut db,
        &cfg,
        spec_id,
        TxEnv {
            caller: deployer,
            gas_limit: 1000000,
            transact_to: TxKind::Create,
            data: Bytes::from(code),
            value,
            ..Default::default()
        },
    );

    let mut insp = Hooks::new(spec_id);

    let env = EnvWithHandlerCfg::new_with_cfg_env(
        cfg,
        BlockEnv::default(),
        TxEnv {
            caller: deployer,
            gas_limit: 1000000,
            transact_to: TxKind::Call(contract_address),
            data: Bytes::from(hex::decode("43d726d6").unwrap()),
            ..Default::default()
        },
    );

    let res = inspect(&mut db, env, &mut insp);
    assert!(res.result.is_success(), "{res:#?}");

    let (expected_value, expected_target) =
        if spec_id < SpecId::CANCUN { (value, Some(deployer)) } else { (U256::ZERO, None) };

    {
        assert_eq!(insp.tracer.nodes().len(), 1);
        let node = &insp.tracer.nodes()[0];
        assert!(node.is_selfdestruct(), "{node:#?}");
        assert_eq!(node.address, plain_address(contract_address));
        let record = node.selfdestruct.unwrap();
        assert_eq!(record.refund_address, expected_target.map(plain_address));
        assert_eq!(record.balance, plain_number(expected_value));
    }

    insp.tracer.finalize(res.result.gas_used()).unwrap();
    let traces = insp.tracer.export_flat().unwrap();

    assert_eq!(traces.len(), 2);
    assert_eq!(
        traces[1].action,
        Action::Selfdestruct(SelfdestructAction {
            address: plain_address(contract_address),
            refund_address: plain_address(expected_target.unwrap_or_default()),
            balance: plain_number(expected_value),
        })
    );
    assert_eq!(traces[0].trace_address, Vec::<usize>::new());
    assert_eq!(traces[1].trace_address, Vec::<usize>::new());
    assert_eq!(traces[0].subtraces, 0);
}

#[test]
fn test_parity_constructor_selfdestruct() {
    /*
    contract DummySelfDestruct {
        function close() public {
            new Noop();
        }
    }
    contract Noop {
        constructor() {
            selfdestruct(payable(msg.sender));
        }
    }
    */

    let code = hex::decode("6080604052348015600f57600080fd5b5060b48061001e6000396000f3fe6080604052348015600f57600080fd5b506004361060285760003560e01c806343d726d614602d575b600080fd5b60336035565b005b604051603f90605e565b604051809103906000f080158015605a573d6000803e3d6000fd5b5050565b60148061006b8339019056fe6080604052348015600f57600080fd5b5033fffea264697066735822122087fcd1ed364913e41107ea336facf7b7f5972695b3e3abcf55dbb2452e124ea964736f6c634300080d0033").unwrap();

    let deployer = Address::ZERO;

    let mut db = CacheDB::new(EmptyDB::default());

    let cfg = CfgEnvWithHandlerCfg::new(CfgEnv::default(), HandlerCfg::new(SpecId::LONDON));
    let addr = deploy(
        &mut db,
        &cfg,
        SpecId::LONDON,
        TxEnv {
            caller: deployer,
            gas_limit: 1000000,
            transact_to: TxKind::Create,
            data: Bytes::from(code),
            ..Default::default()
        },
    );

    let mut insp = Hooks::new(SpecId::LONDON);

    let env = EnvWithHandlerCfg::new_with_cfg_env(
        cfg,
        BlockEnv::default(),
        TxEnv {
            caller: deployer,
            gas_limit: 1000000,
            transact_to: TxKind::Call(addr),
            data: Bytes::from(hex::decode("43d726d6").unwrap()),
            ..Default::default()
        },
    );

    let res = inspect(&mut db, env, &mut insp);
    assert!(res.result.is_success());

    insp.tracer.finalize(res.result.gas_used()).unwrap();
    let traces = insp.tracer.export_flat().unwrap();

    assert_eq!(traces.len(), 3);
    assert_eq!(traces[0].subtraces, 1);
    assert!(matches!(traces[1].action, Action::Create(_)));
    assert_eq!(traces[1].trace_address, vec![0]);
    assert_eq!(traces[1].subtraces, 0);
    assert!(matches!(traces[2].action, Action::Selfdestruct(_)));
    assert_eq!(traces[2].trace_address, vec![0]);

    let frame = insp.tracer.export_nested().unwrap();
    assert_eq!(frame.calls.len(), 1);
    assert_eq!(frame.calls[0].calls.len(), 0);
    assert_eq!(frame.from, plain_address(deployer));
    assert_eq!(frame.to, Some(plain_address(addr)));
    assert_eq!(frame.gas_used, res.result.gas_used());
}
