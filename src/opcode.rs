//! Opcodes of the machine, the immediates that push instructions carry, and
//! the fixed gas of each instruction.
use vstd::prelude::*;

verus! {

pub const STOP: u8 = 0x00;
pub const ADD: u8 = 0x01;
pub const MUL: u8 = 0x02;
pub const SUB: u8 = 0x03;
pub const LT: u8 = 0x10;
pub const GT: u8 = 0x11;
pub const EQ: u8 = 0x14;
pub const ISZERO: u8 = 0x15;
pub const POP: u8 = 0x50;
pub const MSTORE8: u8 = 0x53;
pub const SSTORE: u8 = 0x55;
pub const JUMP: u8 = 0x56;
pub const JUMPI: u8 = 0x57;
pub const PC: u8 = 0x58;
pub const MSIZE: u8 = 0x59;
pub const GAS: u8 = 0x5a;
pub const JUMPDEST: u8 = 0x5b;
pub const PUSH1: u8 = 0x60;
pub const PUSH8: u8 = 0x67;
pub const DUP1: u8 = 0x80;
pub const DUP16: u8 = 0x8f;
pub const SWAP1: u8 = 0x90;
pub const SWAP16: u8 = 0x9f;
pub const RETURN: u8 = 0xf3;
pub const REVERT: u8 = 0xfd;
pub const INVALID: u8 = 0xfe;

/// Longest immediate that a push instruction carries.
pub const MAX_PUSH_LEN: usize = 8;

/// Gas for each new 32-byte word of memory.
pub const MEMORY_WORD_COST: u64 = 3;

/// How many immediate bytes follow `op` in the program.
pub open spec fn push_len_spec(op: u8) -> nat {
    if PUSH1 <= op && op <= PUSH8 {
        (op - PUSH1 + 1) as nat
    } else {
        0
    }
}

/// How many immediate bytes follow `op` in the program.
pub fn push_len(op: u8) -> (r: usize)
    ensures
        r == push_len_spec(op),
        r <= MAX_PUSH_LEN,
{
    if PUSH1 <= op && op <= PUSH8 {
        (op - PUSH1 + 1) as usize
    } else {
        0
    }
}

/// Whether `op` is an instruction of this machine.
pub open spec fn is_defined_spec(op: u8) -> bool {
    op == STOP || op == ADD || op == MUL || op == SUB || op == LT || op == GT || op == EQ
        || op == ISZERO || op == POP || op == MSTORE8 || op == SSTORE || op == JUMP || op == JUMPI
        || op == PC || op == MSIZE || op == GAS || op == JUMPDEST || (PUSH1 <= op && op <= PUSH8)
        || (DUP1 <= op && op <= SWAP16) || op == RETURN || op == REVERT
}

/// Whether `op` is an instruction of this machine.
pub fn is_defined(op: u8) -> (r: bool)
    ensures
        r == is_defined_spec(op),
{
    op == STOP || op == ADD || op == MUL || op == SUB || op == LT || op == GT || op == EQ
        || op == ISZERO || op == POP || op == MSTORE8 || op == SSTORE || op == JUMP || op == JUMPI
        || op == PC || op == MSIZE || op == GAS || op == JUMPDEST || (PUSH1 <= op && op <= PUSH8)
        || (DUP1 <= op && op <= SWAP16) || op == RETURN || op == REVERT
}

/// The fixed gas an instruction costs before it runs; memory growth is
/// charged on top. Undefined bytes cost nothing: they fail at once.
pub open spec fn base_cost_spec(op: u8) -> u64 {
    if op == STOP || op == RETURN || op == REVERT {
        0
    } else if op == JUMPDEST {
        1
    } else if op == POP || op == PC || op == MSIZE || op == GAS {
        2
    } else if op == ADD || op == SUB || op == LT || op == GT || op == EQ || op == ISZERO || op
        == MSTORE8 || (PUSH1 <= op && op <= PUSH8) || (DUP1 <= op && op <= SWAP16) {
        3
    } else if op == MUL {
        5
    } else if op == JUMP {
        8
    } else if op == JUMPI {
        10
    } else if op == SSTORE {
        100
    } else {
        0
    }
}

/// The fixed gas an instruction costs before it runs.
pub fn base_cost(op: u8) -> (r: u64)
    ensures
        r == base_cost_spec(op),
{
    if op == STOP || op == RETURN || op == REVERT {
        0
    } else if op == JUMPDEST {
        1
    } else if op == POP || op == PC || op == MSIZE || op == GAS {
        2
    } else if op == ADD || op == SUB || op == LT || op == GT || op == EQ || op == ISZERO || op
        == MSTORE8 || (PUSH1 <= op && op <= PUSH8) || (DUP1 <= op && op <= SWAP16) {
        3
    } else if op == MUL {
        5
    } else if op == JUMP {
        8
    } else if op == JUMPI {
        10
    } else if op == SSTORE {
        100
    } else {
        0
    }
}

/// Every defined instruction that may leave the loop running costs gas.
pub proof fn lemma_running_instructions_cost_gas(op: u8)
    requires
        is_defined_spec(op),
        op != STOP && op != RETURN && op != REVERT,
    ensures
        base_cost_spec(op) >= 1,
{
}

} // verus!
