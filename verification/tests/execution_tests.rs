use civitasos::execution::{ExecutionEngine, ExecutionError, OpCode};
use civitasos::state::StateStore;

#[test]
fn test_basic_execution() {
    let mut engine = ExecutionEngine::new(1000);
    let mut program = vec![];
    engine.context.registers[1] = 5;
    engine.context.registers[2] = 3;
    program.push(OpCode::ADD(0, 1, 2));
    let result = engine.execute_program(program).unwrap();
    assert_eq!(engine.context.registers[0], 8);
    assert!(result.success);
    assert!(!result.trace_hash.is_empty());
}

#[test]
fn test_hash_execution() {
    let mut engine = ExecutionEngine::new(1000);
    engine.context.registers[1] = 12345;
    let program = vec![OpCode::HASH(2, 1)];
    let result = engine.execute_program(program).unwrap();
    assert_ne!(engine.context.registers[2], 12345);
    assert!(result.success);
}

#[test]
fn test_complete_execution_flow() {
    let mut engine = ExecutionEngine::new(1000);
    engine.context.registers[1] = 10;
    engine.context.registers[2] = 20;
    let program = vec![OpCode::ADD(0, 1, 2), OpCode::STORE(100, 0)];
    let result = engine.execute_program(program).unwrap();
    assert!(result.success);
    assert_eq!(engine.context.registers[0], 30);
    assert!(!result.trace_hash.is_empty());

    let mut state_store = StateStore::new();
    let state_root = state_store.apply_diff(result.state_diffs).unwrap();
    assert!(!state_root.is_empty());
}

#[test]
fn test_deterministic_execution() {
    let mut engine1 = ExecutionEngine::new(1000);
    let mut engine2 = ExecutionEngine::new(1000);
    engine1.context.registers[1] = 5;
    engine1.context.registers[2] = 7;
    engine2.context.registers[1] = 5;
    engine2.context.registers[2] = 7;
    let program = vec![OpCode::ADD(0, 1, 2), OpCode::RETURN];
    let result1 = engine1.execute_program(program.clone()).unwrap();
    let result2 = engine2.execute_program(program).unwrap();
    assert_eq!(result1.trace_hash, result2.trace_hash);
    assert_eq!(result1.gas_used, result2.gas_used);
    assert_eq!(engine1.context.registers[0], engine2.context.registers[0]);
}

#[test]
fn execution_gas_and_errors() {
    let mut engine = ExecutionEngine::new(1);
    let r = engine.execute_program(vec![OpCode::ADD(0, 1, 2), OpCode::ADD(0, 1, 2)]);
    assert!(matches!(r, Err(ExecutionError::OutOfGas)));
    let mut engine = ExecutionEngine::new(10);
    let r = engine.execute_program(vec![OpCode::ADD(16, 1, 2)]);
    assert!(matches!(r, Err(ExecutionError::InvalidRegister)));
    let mut engine = ExecutionEngine::new(10);
    let r = engine.execute_program(vec![OpCode::REVERT]);
    assert!(matches!(r, Err(ExecutionError::ExecutionReverted)));
    let mut engine = ExecutionEngine::new(10);
    engine.context.registers[1] = u64::MAX;
    engine.context.registers[2] = 2;
    let r = engine.execute_program(vec![OpCode::ADD(0, 1, 2), OpCode::RETURN, OpCode::ADD(3, 1, 2)]).unwrap();
    assert_eq!(engine.context.registers[0], 1);
    assert_eq!(engine.context.registers[3], 0);
    assert_eq!(r.gas_used, 2);
    assert!(r.success);
    assert!(engine.context.halted);
    // An engine that has already returned runs nothing more.
    let again = engine.execute_program(vec![OpCode::ADD(3, 1, 2)]).unwrap();
    assert!(!again.success);
    assert_eq!(again.gas_used, 2);
    assert_eq!(engine.context.registers[3], 0);
}

#[test]
fn execution_add_then_return_succeeds() {
    let mut engine = ExecutionEngine::new(1000000);
    engine.context.registers[1] = 100;
    engine.context.registers[2] = 50;
    let r = engine.execute_program(vec![OpCode::ADD(0, 1, 2), OpCode::RETURN]).unwrap();
    assert_eq!(engine.context.registers[0], 150);
    assert!(r.success);
    assert_eq!(r.gas_used, 2);
    assert_eq!(r.trace_hash.len(), 64);
    assert!(r.trace_hash.chars().all(|c| c.is_ascii_digit() || ('a'..='f').contains(&c)));
    assert_eq!(r.trace_hash, engine.context.trace_hash);
}
