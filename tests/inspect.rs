use evm_interpreter::opcode::{JUMP, JUMPDEST, MSTORE8, PUSH1, RETURN, SSTORE, STOP};
use evm_interpreter::{
    Contract, DummyHost, InstructionResult, Interpreter, SharedMemory, StepLimitHost,
};

fn looping_frame(gas: u64) -> Interpreter {
    let contract = Contract::new(vec![], vec![JUMPDEST, PUSH1, 0, JUMP], 0, 0, 0);
    Interpreter::new(contract, gas, false, SharedMemory::new())
}

#[test]
fn pre_step_hook_stops_run_inspect() {
    let mut interp = looping_frame(1_000);
    let mut host = StepLimitHost::new(5, false);
    let r = interp.run_inspect(&mut host);
    assert_eq!(r, InstructionResult::FatalExternalError);
    // the frame is left as the hook saw it: still running, five instructions in
    assert_eq!(interp.instruction_result(), InstructionResult::Continue);
    assert_eq!(host.steps(), 5);
    // JUMPDEST 1, PUSH1 3, JUMP 8, JUMPDEST 1, PUSH1 3
    assert_eq!(interp.gas().remaining(), 1_000 - 16);
    assert_eq!(interp.program_counter(), 3);
}

#[test]
fn post_step_hook_replaces_fatal_signal() {
    // JUMPDEST 1, PUSH1 3, JUMP 8: the fourth instruction runs out of gas
    let mut interp = looping_frame(12);
    let mut host = StepLimitHost::new(4, true);
    let r = interp.run_inspect(&mut host);
    assert_eq!(interp.instruction_result(), InstructionResult::OutOfGas);
    assert_eq!(r, InstructionResult::FatalExternalError);
    assert_eq!(host.steps(), 4);
}

#[test]
fn post_step_hook_stops_running_frame() {
    let mut interp = looping_frame(1_000);
    let mut host = StepLimitHost::new(2, true);
    let r = interp.run_inspect(&mut host);
    assert_eq!(r, InstructionResult::FatalExternalError);
    assert_eq!(interp.instruction_result(), InstructionResult::Continue);
    assert_eq!(interp.program_counter(), 3);
    assert_eq!(host.steps(), 2);
}

#[test]
fn stopped_frame_is_returned_as_it_is() {
    let contract = Contract::new(vec![], vec![STOP], 0, 0, 0);
    let mut interp = Interpreter::new(contract, 10, false, SharedMemory::new());
    assert_eq!(interp.run(&mut DummyHost::new()), InstructionResult::Stop);
    let mut host = StepLimitHost::new(0, false);
    assert_eq!(interp.run_inspect(&mut host), InstructionResult::Stop);
    assert_eq!(host.steps(), 0);
    let mut dummy = DummyHost::new();
    assert_eq!(interp.run(&mut dummy), InstructionResult::Stop);
    assert!(dummy.writes().is_empty());
}

#[test]
fn run_inspect_writes_reach_host() {
    let code = vec![PUSH1, 2, PUSH1, 1, SSTORE, PUSH1, 4, PUSH1, 3, SSTORE, STOP];
    let contract = Contract::new(vec![], code, 0, 0, 0);
    let mut interp = Interpreter::new(contract, 1_000, false, SharedMemory::new());
    let mut host = StepLimitHost::new(100, false);
    assert_eq!(interp.run_inspect(&mut host), InstructionResult::Stop);
    assert_eq!(host.storage_writes(), &vec![(1u64, 2u64), (3, 4)]);
    assert_eq!(host.steps(), 7);
}

#[test]
fn run_calls_no_hook() {
    let mut interp = looping_frame(100);
    let mut host = StepLimitHost::new(0, false);
    assert_eq!(interp.run(&mut host), InstructionResult::OutOfGas);
    assert_eq!(host.steps(), 0);
}

#[test]
fn memory_lent_to_nested_frame_and_restored() {
    let mut parent = looping_frame(100);
    let memory = parent.take_shared_memory();
    assert_eq!(parent.shared_memory().depth(), 0);
    assert_eq!(memory.depth(), 1);
    let code = vec![PUSH1, 0xcd, PUSH1, 0, MSTORE8, PUSH1, 1, PUSH1, 0, RETURN];
    let contract = Contract::new(vec![], code, 0, 0, 0);
    let mut child = Interpreter::new(contract, 100, false, memory);
    assert_eq!(child.run(&mut DummyHost::new()), InstructionResult::Return);
    assert_eq!(child.return_value(), vec![0xcd]);
    parent.restore_shared_memory(child.into_shared_memory());
    assert_eq!(parent.shared_memory().depth(), 1);
    assert_eq!(parent.shared_memory().len(), 0);
}

#[test]
fn limits() {
    assert_eq!(evm_interpreter::CALL_STACK_LIMIT, 1024);
    assert_eq!(evm_interpreter::MAX_CODE_SIZE, 0x6000);
    assert_eq!(evm_interpreter::MAX_INITCODE_SIZE, 0xc000);
}
