use evm_interpreter::contract::analyze;
use evm_interpreter::opcode::{
    ADD, DUP1, EQ, GAS, GT, INVALID, ISZERO, JUMP, JUMPDEST, JUMPI, LT, MSIZE, MSTORE8, MUL, PC,
    POP, PUSH1, PUSH8, RETURN, REVERT, SSTORE, STOP, SUB, SWAP1,
};
use evm_interpreter::{
    Contract, DummyHost, Gas, InstructionResult, Interpreter, SharedMemory, Stack, STACK_LIMIT,
};

fn frame(code: Vec<u8>, gas_limit: u64, is_static: bool) -> Interpreter {
    let contract = Contract::new(vec![], code, 1, 2, 0);
    Interpreter::new(contract, gas_limit, is_static, SharedMemory::new())
}

fn run_code(code: Vec<u8>, gas_limit: u64) -> (InstructionResult, Interpreter) {
    let mut interp = frame(code, gas_limit, false);
    let mut host = DummyHost::new();
    let r = interp.run(&mut host);
    (r, interp)
}

#[test]
fn stop_program_stops_with_empty_return() {
    for gas in [1u64, 7, 1_000_000] {
        let mut interp = frame(vec![STOP, STOP], gas, false);
        let mut host = DummyHost::new();
        assert_eq!(interp.run(&mut host), InstructionResult::Stop);
        assert_eq!(interp.gas().remaining(), gas);
        assert_eq!(interp.program_counter(), 1);
        assert!(interp.return_value().is_empty());
    }
}

#[test]
fn empty_program_stops_on_padding() {
    let (r, interp) = run_code(vec![], 10);
    assert_eq!(r, InstructionResult::Stop);
    assert_eq!(interp.program_counter(), 1);
}

#[test]
fn jump_to_non_destination_is_invalid_jump() {
    // PUSH1 3, JUMP, STOP, STOP: offset 3 is no JUMPDEST.
    let (r, interp) = run_code(vec![PUSH1, 3, JUMP, STOP, STOP], 100);
    assert_eq!(r, InstructionResult::InvalidJump);
    assert_eq!(interp.shared_memory().buffer().len(), 0);
}

#[test]
fn jump_into_push_data_is_invalid_jump() {
    // PUSH1 0x5b at 0..2; offset 1 holds a JUMPDEST byte inside push data.
    let (r, interp) = run_code(vec![PUSH1, JUMPDEST, PUSH1, 1, JUMP], 100);
    assert_eq!(r, InstructionResult::InvalidJump);
    assert_eq!(interp.shared_memory().buffer().len(), 0);
}

#[test]
fn jump_past_program_is_invalid_jump() {
    let (r, _) = run_code(vec![PUSH1, 200, JUMP], 100);
    assert_eq!(r, InstructionResult::InvalidJump);
}

#[test]
fn valid_jump_lands_on_destination() {
    // PUSH1 4, JUMP, INVALID, JUMPDEST, PUSH1 9, STOP
    let (r, interp) = run_code(vec![PUSH1, 4, JUMP, INVALID, JUMPDEST, PUSH1, 9, STOP], 100);
    assert_eq!(r, InstructionResult::Stop);
    assert_eq!(interp.stack().data(), &vec![9u64]);
    // 3 + 8 + 1 + 3
    assert_eq!(interp.gas().remaining(), 100 - 15);
}

#[test]
fn conditional_jump() {
    // PUSH1 1, PUSH1 6, JUMPI, INVALID, INVALID, INVALID(at 5)... JUMPDEST at 6
    let taken = vec![PUSH1, 1, PUSH1, 7, JUMPI, INVALID, INVALID, JUMPDEST, STOP];
    assert_eq!(run_code(taken, 100).0, InstructionResult::Stop);
    let not_taken = vec![PUSH1, 0, PUSH1, 7, JUMPI, INVALID, INVALID, JUMPDEST, STOP];
    assert_eq!(run_code(not_taken, 100).0, InstructionResult::InvalidOpcode);
}

#[test]
fn static_frame_rejects_storage_write() {
    let code = vec![PUSH1, 2, PUSH1, 1, SSTORE, STOP];
    for gas in [6u64, 50, 1_000_000] {
        let mut interp = frame(code.clone(), gas, true);
        let mut host = DummyHost::new();
        assert_eq!(interp.run(&mut host), InstructionResult::StateChangeDuringStaticCall);
        assert!(host.writes().is_empty());
    }
    // With no gas left for the pushes the frame never reaches the write.
    let mut interp = frame(code, 0, true);
    assert_eq!(interp.run(&mut DummyHost::new()), InstructionResult::OutOfGas);
}

#[test]
fn storage_write_reaches_host() {
    // value 2 under key 1
    let mut interp = frame(vec![PUSH1, 2, PUSH1, 1, SSTORE, STOP], 1000, false);
    let mut host = DummyHost::new();
    assert_eq!(interp.run(&mut host), InstructionResult::Stop);
    assert_eq!(host.writes(), &vec![(1u64, 2u64)]);
    assert_eq!(interp.gas().remaining(), 1000 - 106);
}

fn return_program() -> Vec<u8> {
    // MSTORE8(0, 0xab); RETURN(0, 1)
    vec![PUSH1, 0xab, PUSH1, 0, MSTORE8, PUSH1, 1, PUSH1, 0, RETURN]
}

#[test]
fn run_and_run_inspect_agree_with_passive_hooks() {
    for gas in [0u64, 5, 14, 17, 18, 100] {
        let mut a = frame(return_program(), gas, false);
        let mut b = frame(return_program(), gas, false);
        let ra = a.run(&mut DummyHost::new());
        let rb = b.run_inspect(&mut DummyHost::new());
        assert_eq!(ra, rb);
        assert_eq!(a.gas().remaining(), b.gas().remaining());
        assert_eq!(a.return_value(), b.return_value());
    }
}

#[test]
fn return_copies_memory() {
    let (r, mut interp) = run_code(return_program(), 100);
    assert_eq!(r, InstructionResult::Return);
    // 4 pushes, MSTORE8, one word of memory
    assert_eq!(interp.gas().remaining(), 100 - 18);
    assert_eq!(interp.shared_memory().len(), 32);
    assert_eq!(interp.return_value(), vec![0xab]);
}

#[test]
fn return_value_twice_yields_nothing_the_second_time() {
    let (_, mut interp) = run_code(return_program(), 100);
    assert_eq!(interp.return_value(), vec![0xab]);
    // the frame's own range stays as it was
    assert_eq!(interp.return_range().start, 0);
    assert_eq!(interp.return_range().end, 1);
    assert_eq!(interp.instruction_result(), InstructionResult::Return);
    assert_eq!(interp.shared_memory().buffer().len(), 0);
    assert_eq!(interp.shared_memory().depth(), 0);
    assert!(interp.return_value().is_empty());
    assert_eq!(interp.shared_memory().depth(), 0);
}

#[test]
fn return_value_keeps_parent_context() {
    let mut memory = SharedMemory::new();
    memory.new_context();
    memory.resize(4);
    memory.set_byte(0, 7);
    let contract = Contract::new(vec![], return_program(), 0, 0, 0);
    let mut interp = Interpreter::new(contract, 100, false, memory);
    assert_eq!(interp.shared_memory().depth(), 2);
    interp.run(&mut DummyHost::new());
    assert_eq!(interp.return_value(), vec![0xab]);
    assert!(interp.return_value().is_empty());
    let memory = interp.into_shared_memory();
    assert_eq!(memory.depth(), 1);
    assert_eq!(memory.buffer(), &vec![7u8, 0, 0, 0]);
}

#[test]
fn empty_return_gives_sentinel_and_no_bytes() {
    // MSTORE8(0, 0xab); RETURN(5, 0)
    let code = vec![PUSH1, 0xab, PUSH1, 0, MSTORE8, PUSH1, 0, PUSH1, 5, RETURN];
    let (r, mut interp) = run_code(code, 100);
    assert_eq!(r, InstructionResult::Return);
    assert_eq!(interp.return_range().start, usize::MAX);
    assert!(interp.return_value().is_empty());
}

#[test]
fn revert_keeps_data() {
    let code = vec![PUSH1, 0x11, PUSH1, 1, MSTORE8, PUSH1, 2, PUSH1, 0, REVERT];
    let (r, mut interp) = run_code(code, 100);
    assert_eq!(r, InstructionResult::Revert);
    assert!(r.is_revert());
    assert_eq!(interp.return_value(), vec![0, 0x11]);
}

#[test]
fn huge_memory_offset_runs_out_of_gas() {
    let code = vec![PUSH1, 1, PUSH8, 0xff, 0, 0, 0, 0, 0, 0, 0, MSTORE8];
    let (r, interp) = run_code(code, 1_000_000);
    assert_eq!(r, InstructionResult::OutOfGas);
    assert_eq!(interp.shared_memory().buffer().len(), 0);
}

#[test]
fn memory_growth_short_of_gas_keeps_gas() {
    // two pushes (6) and MSTORE8 (3) paid, then 3 more for the word missing
    let code = vec![PUSH1, 1, PUSH1, 0, MSTORE8];
    let (r, interp) = run_code(code, 10);
    assert_eq!(r, InstructionResult::OutOfGas);
    assert_eq!(interp.gas().remaining(), 1);
    assert_eq!(interp.shared_memory().len(), 0);
}

#[test]
fn charge_beyond_remaining_is_out_of_gas() {
    let mut gas = Gas::new(10);
    assert!(!gas.record_cost(11));
    assert_eq!(gas.remaining(), 10);
    assert!(gas.record_cost(10));
    assert_eq!(gas.remaining(), 0);
    assert_eq!(gas.spent(), 10);
    // PUSH1 costs 3 but only 2 are left.
    let (r, interp) = run_code(vec![PUSH1, 1], 2);
    assert_eq!(r, InstructionResult::OutOfGas);
    assert_eq!(interp.gas().remaining(), 2);
    assert!(interp.stack().is_empty());
}

#[test]
fn refund_counter_saturates() {
    let mut gas = Gas::new(5);
    gas.record_refund(7);
    gas.record_refund(-2);
    assert_eq!(gas.refunded(), 5);
    gas.record_refund(i64::MAX);
    assert_eq!(gas.refunded(), i64::MAX);
}

#[test]
fn stack_limits() {
    let mut stack = Stack::new();
    assert_eq!(stack.pop(), Err(InstructionResult::StackUnderflow));
    assert_eq!(stack.len(), 0);
    for i in 0..STACK_LIMIT {
        assert_eq!(stack.push(i as u64), Ok(()));
    }
    assert_eq!(stack.len(), 1024);
    assert_eq!(stack.push(99), Err(InstructionResult::StackOverflow));
    assert_eq!(stack.len(), 1024);
    assert_eq!(stack.peek(0), Ok(1023));
    assert_eq!(stack.dup(1), Err(InstructionResult::StackOverflow));
    assert_eq!(stack.pop(), Ok(1023));
    assert_eq!(stack.peek(2000), Err(InstructionResult::StackUnderflow));
}

#[test]
fn stack_overflow_in_program() {
    // JUMPDEST, PUSH1 0, PUSH1 0, JUMP: pushes one item per round
    let code = vec![JUMPDEST, PUSH1, 7, PUSH1, 0, JUMP];
    let (r, interp) = run_code(code, 1_000_000);
    assert_eq!(r, InstructionResult::StackOverflow);
    assert_eq!(interp.stack().len(), 1024);
}

#[test]
fn endless_loop_runs_out_of_gas() {
    let code = vec![JUMPDEST, PUSH1, 0, JUMP];
    let (r, interp) = run_code(code, 10_000);
    assert_eq!(r, InstructionResult::OutOfGas);
    assert!(interp.gas().remaining() < 12);
}

#[test]
fn underflow_and_invalid_opcode() {
    assert_eq!(run_code(vec![ADD], 10).0, InstructionResult::StackUnderflow);
    assert_eq!(run_code(vec![POP], 10).0, InstructionResult::StackUnderflow);
    assert_eq!(run_code(vec![INVALID], 10).0, InstructionResult::InvalidOpcode);
    assert_eq!(run_code(vec![0x0c], 10).0, InstructionResult::InvalidOpcode);
    assert!(InstructionResult::InvalidOpcode.is_error());
}

#[test]
fn arithmetic() {
    let (_, i) = run_code(vec![PUSH1, 2, PUSH1, 3, ADD], 100);
    assert_eq!(i.stack().data(), &vec![5u64]);
    // top minus the one below: 3 - 5 wraps
    let (_, i) = run_code(vec![PUSH1, 5, PUSH1, 3, SUB], 100);
    assert_eq!(i.stack().data(), &vec![u64::MAX - 1]);
    let code = vec![PUSH8, 0xff, 0xff, 0xff, 0xff, 0xff, 0xff, 0xff, 0xff, PUSH1, 2, ADD];
    let (_, i) = run_code(code, 100);
    assert_eq!(i.stack().data(), &vec![1u64]);
    let (_, i) = run_code(vec![PUSH1, 6, PUSH1, 7, MUL], 100);
    assert_eq!(i.stack().data(), &vec![42u64]);
    let (_, i) = run_code(vec![PUSH1, 6, PUSH1, 7, LT, PUSH1, 6, PUSH1, 7, GT], 100);
    assert_eq!(i.stack().data(), &vec![0u64, 1]);
    let (_, i) = run_code(vec![PUSH1, 6, PUSH1, 6, EQ, ISZERO, PUSH1, 0, ISZERO], 100);
    assert_eq!(i.stack().data(), &vec![0u64, 1]);
}

#[test]
fn push_reads_big_endian_and_padding() {
    let code = vec![PUSH8, 1, 2, 3, 4, 5, 6, 7, 8];
    let (r, i) = run_code(code, 100);
    assert_eq!(r, InstructionResult::Stop);
    assert_eq!(i.stack().data(), &vec![0x0102030405060708u64]);
    // a push cut off by the end of the program reads zero bytes
    let (_, i) = run_code(vec![PUSH1 + 1, 0xaa], 100);
    assert_eq!(i.stack().data(), &vec![0xaa00u64]);
}

#[test]
fn dup_swap_pc_msize_gas() {
    let (_, i) = run_code(vec![PUSH1, 1, PUSH1, 2, DUP1 + 1, SWAP1, POP], 100);
    assert_eq!(i.stack().data(), &vec![1u64, 1]);
    let (_, i) = run_code(vec![JUMPDEST, PC, MSIZE, GAS], 100);
    // JUMPDEST 1, PC 2, MSIZE 2, GAS 2: GAS pushes what is left after its own charge
    assert_eq!(i.stack().data(), &vec![1u64, 0, 93]);
    assert_eq!(run_code(vec![SWAP1], 100).0, InstructionResult::StackUnderflow);
}

#[test]
fn new_frame_state() {
    let contract = Contract::new(vec![9, 9], vec![PUSH1, 1], 3, 4, 5);
    let interp = Interpreter::new(contract, 77, true, SharedMemory::new());
    assert_eq!(interp.program_counter(), 0);
    assert_eq!(interp.current_opcode(), PUSH1);
    assert_eq!(interp.instruction_result(), InstructionResult::Continue);
    assert_eq!(interp.gas().limit(), 77);
    assert_eq!(interp.gas().remaining(), 77);
    assert!(interp.stack().is_empty());
    assert!(interp.is_static());
    assert!(interp.return_data_buffer().is_empty());
    assert_eq!(interp.shared_memory().depth(), 1);
    assert_eq!(interp.contract().input(), &vec![9u8, 9]);
    assert_eq!(interp.contract().caller(), 3);
    assert_eq!(interp.contract().address(), 4);
    assert_eq!(interp.contract().value(), 5);
    assert_eq!(interp.contract().bytecode(), &vec![PUSH1, 1, 0, 0, 0, 0, 0, 0, 0, 0, 0]);
}

#[test]
fn step_moves_cursor_before_dispatch() {
    let mut interp = frame(vec![PUSH1, 4, JUMP, STOP, JUMPDEST, STOP], 100, false);
    let mut host = DummyHost::new();
    interp.step(&mut host);
    assert_eq!(interp.program_counter(), 2);
    interp.step(&mut host);
    assert_eq!(interp.program_counter(), 4);
    assert_eq!(interp.current_opcode(), JUMPDEST);
}

#[test]
fn jump_table_marks_only_instruction_starts() {
    let code = vec![JUMPDEST, PUSH1, JUMPDEST, JUMPDEST, PUSH1 + 1, JUMPDEST];
    assert_eq!(analyze(&code), vec![true, false, false, true, false, false]);
    let contract = Contract::new(vec![], code, 0, 0, 0);
    assert!(contract.is_valid_jump(0));
    assert!(!contract.is_valid_jump(2));
    assert!(contract.is_valid_jump(3));
    assert!(!contract.is_valid_jump(6));
}

#[test]
fn signal_categories() {
    assert!(InstructionResult::Continue.is_continue());
    assert!(InstructionResult::Stop.is_ok());
    assert!(InstructionResult::Return.is_ok());
    assert!(!InstructionResult::Revert.is_error());
    assert!(InstructionResult::OutOfGas.is_error());
    assert!(InstructionResult::StateChangeDuringStaticCall.is_error());
}

#[test]
fn fatal_stop_discards_return_data() {
    // RETURN(0, 64) with gas for the pushes only: the memory cannot be paid for.
    let code = vec![PUSH1, 64, PUSH1, 0, RETURN];
    let (r, mut interp) = run_code(code, 8);
    assert_eq!(r, InstructionResult::OutOfGas);
    assert_eq!(interp.gas().remaining(), 2);
    assert!(interp.return_value().is_empty());
}

#[test]
fn sub_call_data_is_kept() {
    let mut interp = frame(vec![STOP], 10, false);
    interp.set_return_data_buffer(vec![1, 2, 3]);
    assert_eq!(interp.return_data_buffer(), &vec![1u8, 2, 3]);
    interp.set_return_data_buffer(vec![]);
    assert!(interp.return_data_buffer().is_empty());
}
