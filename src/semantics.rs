//! The meaning of a frame: a model of what an `Interpreter` holds, one step of
//! the fetch/advance/dispatch cycle and the run to a terminal signal, over
//! that model, with the facts proved of them.
use vstd::prelude::*;
use crate::contract::{jump_table, ContractModel, PADDING};
use crate::gas::Gas;
use crate::host::{apply_writes, Host};
use crate::instruction_result::InstructionResult;
use crate::opcode::{
    base_cost_spec, is_defined_spec, lemma_running_instructions_cost_gas, push_len_spec, ADD, DUP1,
    DUP16, EQ, GAS, GT, ISZERO, JUMP, JUMPDEST, JUMPI, LT, MEMORY_WORD_COST, MSIZE, MSTORE8, MUL, PC,
    POP, PUSH1, PUSH8, RETURN, REVERT, SSTORE, STOP, SUB, SWAP1, SWAP16,
};
use crate::shared_memory::MemoryModel;
use crate::stack::STACK_LIMIT;

verus! {

/// Largest memory offset, and largest length, that an instruction may name;
/// larger ones cannot be paid for and run out of gas.
pub const MAX_MEMORY_OPERAND: u64 = 0x4000_0000;

/// A byte range of the current memory context. A `start` of `usize::MAX`
/// stands for an empty range.
#[derive(Clone, Copy, Debug, PartialEq, Eq, Structural)]
pub struct MemoryRange {
    pub start: usize,
    pub end: usize,
}

impl MemoryRange {
    pub open spec fn is_empty_sentinel(self) -> bool {
        self.start == usize::MAX
    }

    /// The range that stands for "no return data".
    pub open spec fn sentinel() -> MemoryRange {
        MemoryRange { start: usize::MAX, end: usize::MAX }
    }
}

/// What an `Interpreter` holds.
pub struct FrameModel {
    pub pc: int,
    pub result: InstructionResult,
    pub gas: Gas,
    pub stack: Seq<u64>,
    pub memory: MemoryModel,
    pub return_data: Seq<u8>,
    pub return_range: MemoryRange,
    pub is_static: bool,
    pub contract: ContractModel,
    pub context_open: bool,
}

/// Value of the big-endian bytes `s`.
pub open spec fn be_value(s: Seq<u8>) -> nat
    decreases s.len(),
{
    if s.len() == 0 {
        0
    } else {
        (be_value(s.drop_last()) * 256 + s.last()) as nat
    }
}

/// Number of 32-byte words needed for `n` bytes.
pub open spec fn words(n: int) -> int {
    (n + 31) / 32
}

impl FrameModel {
    /// Length of the program before its padding.
    pub open spec fn code_len(self) -> int {
        self.contract.bytecode.len() - PADDING
    }

    /// Gas, stack, memory and return range are each well formed.
    pub open spec fn resources_wf(self) -> bool {
        &&& self.gas.wf()
        &&& self.stack.len() <= STACK_LIMIT
        &&& self.memory.wf()
        &&& self.return_range.start <= self.return_range.end
        &&& self.context_open && !self.return_range.is_empty_sentinel()
            ==> self.return_range.end <= self.memory.context().len()
    }

    /// The program is padded with `STOP` bytes and has a jump table for
    /// each byte before the padding.
    pub open spec fn program_wf(self) -> bool {
        &&& PADDING <= self.contract.bytecode.len() <= usize::MAX
        &&& self.contract.jump_table.len() == self.code_len()
        &&& self.contract.jump_table == jump_table(self.contract.bytecode.subrange(0, self.code_len()))
        &&& forall|i: int|
            self.code_len() <= i < self.contract.bytecode.len() ==> self.contract.bytecode[i] == STOP
    }

    pub open spec fn wf(self) -> bool {
        &&& self.resources_wf()
        &&& self.program_wf()
        &&& 0 <= self.pc <= self.contract.bytecode.len()
        &&& self.result == InstructionResult::Continue ==> self.pc < self.contract.bytecode.len()
        &&& self.result != InstructionResult::Return && self.result != InstructionResult::Revert
            ==> self.return_range.start == self.return_range.end
    }

    /// Byte `i` of the program; past its end, a `STOP`.
    pub open spec fn byte_at(self, i: int) -> u8 {
        if 0 <= i < self.contract.bytecode.len() {
            self.contract.bytecode[i]
        } else {
            STOP
        }
    }

    /// Measure that every instruction of a running frame lowers.
    pub open spec fn measure(self) -> nat {
        self.gas.remaining as nat + if self.result == InstructionResult::Continue {
            1nat
        } else {
            0nat
        }
    }

    pub open spec fn halt(self, r: InstructionResult) -> FrameModel {
        FrameModel { result: r, ..self }
    }

    pub open spec fn charge(self, cost: u64) -> FrameModel {
        FrameModel { gas: Gas { remaining: (self.gas.remaining - cost) as u64, ..self.gas }, ..self }
    }

    pub open spec fn with_stack(self, s: Seq<u64>) -> FrameModel {
        FrameModel { stack: s, ..self }
    }

    /// The stack without its top `n` items.
    pub open spec fn popped(self, n: int) -> FrameModel {
        self.with_stack(self.stack.subrange(0, self.stack.len() - n))
    }

    /// The item `n` places below the top.
    pub open spec fn top(self, n: int) -> u64 {
        self.stack[self.stack.len() - 1 - n]
    }

    pub open spec fn push_value(self, v: u64) -> FrameModel {
        if self.stack.len() >= STACK_LIMIT {
            self.halt(InstructionResult::StackOverflow)
        } else {
            self.with_stack(self.stack.push(v))
        }
    }

    pub open spec fn jump_to(self, dest: u64) -> FrameModel {
        if dest < self.contract.jump_table.len() && self.contract.jump_table[dest as int] {
            FrameModel { pc: dest as int, ..self }
        } else {
            self.halt(InstructionResult::InvalidJump)
        }
    }

    /// Whether the memory that `len` bytes at `offset` need can be had.
    pub open spec fn expand_ok(self, offset: u64, len: u64) -> bool {
        len == 0 || {
            &&& offset <= MAX_MEMORY_OPERAND
            &&& len <= MAX_MEMORY_OPERAND
            &&& offset + len <= self.memory.context().len() || {
                &&& self.memory.base() + words(offset + len) * 32 <= usize::MAX
                &&& MEMORY_WORD_COST * (words(offset + len) - words(
                    self.memory.context().len() as int,
                )) <= self.gas.remaining
            }
        }
    }

    /// The frame with its memory context grown to hold `len` bytes at
    /// `offset`, in whole words, and the growth paid for.
    pub open spec fn expanded(self, offset: u64, len: u64) -> FrameModel {
        let cur = self.memory.context().len() as int;
        if len == 0 || offset + len <= cur {
            self
        } else {
            let cost = MEMORY_WORD_COST * (words(offset + len) - words(cur));
            FrameModel {
                memory: self.memory.grown_to(words(offset + len) * 32),
                ..self.charge(cost as u64)
            }
        }
    }

    /// Ends the frame with `r`, its return data the `len` bytes at `offset`.
    pub open spec fn return_with(self, offset: u64, len: u64, r: InstructionResult) -> FrameModel {
        if len == 0 {
            FrameModel { return_range: MemoryRange::sentinel(), ..self }.halt(r)
        } else if !self.expand_ok(offset, len) {
            self.halt(InstructionResult::OutOfGas)
        } else {
            FrameModel {
                return_range: MemoryRange { start: offset as usize, end: (offset + len) as usize },
                ..self.expanded(offset, len)
            }.halt(r)
        }
    }
}

/// Result of a two-operand instruction on the top item `a` and the one below, `b`.
pub open spec fn binary_spec(op: u8, a: u64, b: u64) -> u64 {
    if op == ADD {
        vstd::wrapping::u64_specs::wrapping_add(a, b)
    } else if op == MUL {
        vstd::wrapping::u64_specs::wrapping_mul(a, b)
    } else if op == SUB {
        vstd::wrapping::u64_specs::wrapping_sub(a, b)
    } else if op == LT {
        if a < b { 1 } else { 0 }
    } else if op == GT {
        if a > b { 1 } else { 0 }
    } else {
        if a == b { 1 } else { 0 }
    }
}

pub open spec fn is_binary(op: u8) -> bool {
    op == ADD || op == MUL || op == SUB || op == LT || op == GT || op == EQ
}

/// What a defined instruction does once its fixed cost is paid; the program
/// counter already stands past the opcode.
pub open spec fn exec_spec(op: u8, f: FrameModel) -> FrameModel {
    let n = f.stack.len() as int;
    if op == STOP {
        f.halt(InstructionResult::Stop)
    } else if is_binary(op) {
        if n < 2 {
            f.halt(InstructionResult::StackUnderflow)
        } else {
            f.popped(2).with_stack(f.popped(2).stack.push(binary_spec(op, f.top(0), f.top(1))))
        }
    } else if op == ISZERO {
        if n < 1 {
            f.halt(InstructionResult::StackUnderflow)
        } else {
            f.with_stack(f.stack.update(n - 1, if f.top(0) == 0 { 1u64 } else { 0u64 }))
        }
    } else if op == POP {
        if n < 1 {
            f.halt(InstructionResult::StackUnderflow)
        } else {
            f.popped(1)
        }
    } else if op == MSTORE8 {
        if n < 2 {
            f.halt(InstructionResult::StackUnderflow)
        } else if !f.popped(2).expand_ok(f.top(0), 1) {
            f.popped(2).halt(InstructionResult::OutOfGas)
        } else {
            let g = f.popped(2).expanded(f.top(0), 1);
            FrameModel { memory: g.memory.with_byte(f.top(0) as int, (f.top(1) % 256) as u8), ..g }
        }
    } else if op == SSTORE {
        if n < 2 {
            f.halt(InstructionResult::StackUnderflow)
        } else {
            f.popped(2)
        }
    } else if op == JUMP {
        if n < 1 {
            f.halt(InstructionResult::StackUnderflow)
        } else {
            f.popped(1).jump_to(f.top(0))
        }
    } else if op == JUMPI {
        if n < 2 {
            f.halt(InstructionResult::StackUnderflow)
        } else if f.top(1) != 0 {
            f.popped(2).jump_to(f.top(0))
        } else {
            f.popped(2)
        }
    } else if op == PC {
        f.push_value((f.pc - 1) as u64)
    } else if op == MSIZE {
        f.push_value(f.memory.context().len() as u64)
    } else if op == GAS {
        f.push_value(f.gas.remaining)
    } else if op == JUMPDEST {
        f
    } else if PUSH1 <= op && op <= PUSH8 {
        let k = push_len_spec(op) as int;
        let v = be_value(Seq::new(k as nat, |j: int| f.byte_at(f.pc + j)));
        FrameModel { pc: f.pc + k, ..f }.push_value(v as u64)
    } else if DUP1 <= op && op <= DUP16 {
        let k = (op - DUP1 + 1) as int;
        if n < k {
            f.halt(InstructionResult::StackUnderflow)
        } else {
            f.push_value(f.top(k - 1))
        }
    } else if SWAP1 <= op && op <= SWAP16 {
        let k = (op - SWAP1 + 1) as int;
        if n <= k {
            f.halt(InstructionResult::StackUnderflow)
        } else {
            f.with_stack(f.stack.update(n - 1, f.top(k)).update(n - 1 - k, f.top(0)))
        }
    } else if op == RETURN || op == REVERT {
        if n < 2 {
            f.halt(InstructionResult::StackUnderflow)
        } else {
            f.popped(2).return_with(
                f.top(0),
                f.top(1),
                if op == RETURN { InstructionResult::Return } else { InstructionResult::Revert },
            )
        }
    } else {
        f.halt(InstructionResult::InvalidOpcode)
    }
}

/// Dispatch of one opcode: the static check, the opcode check and the fixed
/// charge, then the instruction.
pub open spec fn eval_spec(op: u8, f: FrameModel) -> FrameModel {
    if op == SSTORE && f.is_static {
        f.halt(InstructionResult::StateChangeDuringStaticCall)
    } else if !is_defined_spec(op) {
        f.halt(InstructionResult::InvalidOpcode)
    } else if base_cost_spec(op) > f.gas.remaining {
        f.halt(InstructionResult::OutOfGas)
    } else {
        exec_spec(op, f.charge(base_cost_spec(op)))
    }
}

/// One step: fetch the opcode, move past it, dispatch it.
#[verifier::opaque]
pub open spec fn step_spec(f: FrameModel) -> FrameModel {
    eval_spec(f.byte_at(f.pc), FrameModel { pc: f.pc + 1, ..f })
}

/// The frame once the loop has stopped. Every step of a running frame lowers
/// `measure` (see `lemma_step_lowers_measure`), so the last branch is never taken.
#[verifier::opaque]
pub open spec fn run_spec(f: FrameModel) -> FrameModel
    decreases f.measure(),
{
    if f.result != InstructionResult::Continue {
        f
    } else if step_spec(f).measure() < f.measure() {
        run_spec(step_spec(f))
    } else {
        f
    }
}

/// Every instruction of a running frame either stops the loop or pays at
/// least one unit of gas, and none adds gas: the loop cannot spin forever.
pub proof fn lemma_step_lowers_measure(f: FrameModel)
    requires
        f.result == InstructionResult::Continue,
    ensures
        step_spec(f).measure() < f.measure(),
        step_spec(f).gas.remaining <= f.gas.remaining,
        step_spec(f).gas.limit == f.gas.limit,
{
    reveal(step_spec);
    let op = f.byte_at(f.pc);
    if is_defined_spec(op) && op != STOP && op != RETURN && op != REVERT {
        lemma_running_instructions_cost_gas(op);
    }
}

/// A step keeps a frame well formed; in particular a running frame never
/// fetches past its padded program.
pub proof fn lemma_step_keeps_wf(f: FrameModel)
    requires
        f.wf(),
        f.result == InstructionResult::Continue,
    ensures
        step_spec(f).wf(),
{
    reveal(step_spec);
    let op = f.byte_at(f.pc);
    let g = FrameModel { pc: f.pc + 1, ..f };
    if op != STOP {
        assert(f.pc < f.code_len());
    }
    if is_defined_spec(op) && base_cost_spec(op) <= g.gas.remaining && !(op == SSTORE && f.is_static) {
        let h = g.charge(base_cost_spec(op));
        lemma_exec_keeps_wf(op, h);
    }
}

/// The storage writes that instruction `op` hands to the host once its fixed
/// cost is paid.
pub open spec fn exec_writes(op: u8, f: FrameModel) -> Seq<(u64, u64)> {
    if op == SSTORE && f.stack.len() >= 2 {
        seq![(f.top(0), f.top(1))]
    } else {
        Seq::empty()
    }
}

/// The storage writes that dispatching `op` hands to the host: none in a
/// static frame, none when the fixed cost cannot be paid.
pub open spec fn eval_writes(op: u8, f: FrameModel) -> Seq<(u64, u64)> {
    if op == SSTORE && !f.is_static && base_cost_spec(op) <= f.gas.remaining {
        exec_writes(op, f.charge(base_cost_spec(op)))
    } else {
        Seq::empty()
    }
}

/// The storage writes of one step.
#[verifier::opaque]
pub open spec fn step_writes(f: FrameModel) -> Seq<(u64, u64)> {
    eval_writes(f.byte_at(f.pc), FrameModel { pc: f.pc + 1, ..f })
}

/// The storage writes of the whole run, in order.
#[verifier::opaque]
pub open spec fn run_writes(f: FrameModel) -> Seq<(u64, u64)>
    decreases f.measure(),
{
    if f.result != InstructionResult::Continue {
        Seq::empty()
    } else if step_spec(f).measure() < f.measure() {
        step_writes(f) + run_writes(step_spec(f))
    } else {
        Seq::empty()
    }
}

/// A stopped frame is its own outcome and writes nothing more; a running one
/// has the outcome of the frame one step on, after that step's writes.
pub proof fn lemma_run_unfold(f: FrameModel)
    ensures
        f.result != InstructionResult::Continue ==> run_spec(f) == f,
        f.result != InstructionResult::Continue ==> run_writes(f) == Seq::<(u64, u64)>::empty(),
        f.result == InstructionResult::Continue ==> run_spec(f) == run_spec(step_spec(f)),
        f.result == InstructionResult::Continue ==> run_writes(f) == step_writes(f) + run_writes(
            step_spec(f),
        ),
{
    reveal(run_spec);
    reveal(run_writes);
    if f.result == InstructionResult::Continue {
        lemma_step_lowers_measure(f);
    }
}

/// An instruction whose fixed cost exceeds the gas left stops the frame with
/// `OutOfGas` and leaves the gas meter as it was.
pub proof fn lemma_out_of_gas_keeps_gas(f: FrameModel)
    requires
        is_defined_spec(f.byte_at(f.pc)),
        !(f.byte_at(f.pc) == SSTORE && f.is_static),
        base_cost_spec(f.byte_at(f.pc)) > f.gas.remaining,
    ensures
        step_spec(f).result == InstructionResult::OutOfGas,
        step_spec(f).gas == f.gas,
        step_spec(f).stack == f.stack,
        step_spec(f).memory == f.memory,
{
    reveal(step_spec);
}

/// An instruction that adds an item to a full stack, its fixed cost paid,
/// stops the frame with `StackOverflow` and leaves the stack as it was.
pub proof fn lemma_full_stack_overflows(f: FrameModel)
    requires
        f.stack.len() == STACK_LIMIT,
        ({
            let op = f.byte_at(f.pc);
            op == PC || op == MSIZE || op == GAS || (PUSH1 <= op && op <= PUSH8) || (DUP1 <= op
                && op <= DUP16)
        }),
        base_cost_spec(f.byte_at(f.pc)) <= f.gas.remaining,
    ensures
        step_spec(f).result == InstructionResult::StackOverflow,
        step_spec(f).stack == f.stack,
{
    reveal(step_spec);
}

/// An instruction that takes an item from an empty stack, its fixed cost
/// paid and not a state write in a static frame, stops the frame with
/// `StackUnderflow` and leaves the stack as it was.
pub proof fn lemma_empty_stack_underflows(f: FrameModel)
    requires
        f.stack.len() == 0,
        ({
            let op = f.byte_at(f.pc);
            is_binary(op) || op == ISZERO || op == POP || op == MSTORE8 || op == SSTORE || op == JUMP
                || op == JUMPI || (DUP1 <= op && op <= SWAP16) || op == RETURN || op == REVERT
        }),
        !(f.byte_at(f.pc) == SSTORE && f.is_static),
        base_cost_spec(f.byte_at(f.pc)) <= f.gas.remaining,
    ensures
        step_spec(f).result == InstructionResult::StackUnderflow,
        step_spec(f).stack == f.stack,
{
    reveal(step_spec);
}

/// A state write in a static frame stops it with
/// `StateChangeDuringStaticCall`, whatever gas is left, and no write reaches
/// the host.
pub proof fn lemma_static_write_rejected(f: FrameModel)
    requires
        f.is_static,
        f.byte_at(f.pc) == SSTORE,
    ensures
        step_spec(f).result == InstructionResult::StateChangeDuringStaticCall,
        step_spec(f).gas == f.gas,
        step_spec(f).stack == f.stack,
        step_writes(f) == Seq::<(u64, u64)>::empty(),
{
    reveal(step_spec);
    reveal(step_writes);
}

pub(crate) proof fn lemma_expanded_wf(f: FrameModel, offset: u64, len: u64)
    requires
        f.resources_wf(),
        f.expand_ok(offset, len),
    ensures
        f.expanded(offset, len).resources_wf(),
        f.wf() ==> f.expanded(offset, len).wf(),
        len > 0 ==> f.expanded(offset, len).memory.context().len() >= offset + len,
{
    f.memory.lemma_base_in_buffer();
    let cur = f.memory.context().len() as int;
    if len != 0 && offset + len > cur {
        let e = offset + len;
        assert(words(e) * 32 >= e) by (nonlinear_arith);
        assert(words(e) >= words(cur)) by (nonlinear_arith)
            requires e > cur;
        let m = f.memory.grown_to(words(e) * 32);
        assert(m.base() == f.memory.base());
        assert(m.buffer.len() == f.memory.buffer.len() + (words(e) * 32 - cur));
        assert(m.context().len() == words(e) * 32);
    }
}

proof fn lemma_exec_keeps_wf(op: u8, f: FrameModel)
    requires
        f.resources_wf(),
        f.program_wf(),
        0 <= f.pc <= f.contract.bytecode.len(),
        f.result == InstructionResult::Continue,
        f.return_range.start == f.return_range.end,
        is_defined_spec(op),
        op == STOP || op == RETURN || op == REVERT || f.pc <= f.code_len(),
        PUSH1 <= op <= PUSH8 ==> f.pc + 8 < f.contract.bytecode.len(),
    ensures
        exec_spec(op, f).wf(),
{
    let n = f.stack.len() as int;
    if op == MSTORE8 && n >= 2 && f.popped(2).expand_ok(f.top(0), 1) {
        lemma_expanded_wf(f.popped(2), f.top(0), 1);
    } else if (op == RETURN || op == REVERT) && n >= 2 && f.top(1) != 0 && f.popped(2).expand_ok(
        f.top(0),
        f.top(1),
    ) {
        lemma_expanded_wf(f.popped(2), f.top(0), f.top(1));
    }
}

/// The bytes returned by `return_value`, and the frame after it.
pub open spec fn return_value_spec(f: FrameModel) -> (Seq<u8>, FrameModel) {
    let bytes = if !f.context_open || f.return_range.is_empty_sentinel() {
        Seq::<u8>::empty()
    } else {
        f.memory.slice(
            f.return_range.start as int,
            f.return_range.end - f.return_range.start,
        )
    };
    let memory = if f.context_open {
        f.memory.freed()
    } else {
        f.memory
    };
    (
        bytes,
        FrameModel {
            memory,
            context_open: false,
            ..f
        },
    )
}

/// The frame that `Interpreter::new` makes.
pub open spec fn new_frame_spec(
    contract: ContractModel,
    gas_limit: u64,
    is_static: bool,
    memory: MemoryModel,
) -> FrameModel {
    FrameModel {
        pc: 0,
        result: InstructionResult::Continue,
        gas: Gas { limit: gas_limit, remaining: gas_limit, refunded: 0 },
        stack: Seq::empty(),
        memory: memory.entered(),
        return_data: Seq::empty(),
        return_range: MemoryRange { start: 0, end: 0 },
        is_static,
        contract,
        context_open: true,
    }
}

/// With the empty sentinel as return range, `return_value` yields nothing,
/// whatever memory holds, and still releases the frame's context.
pub proof fn lemma_sentinel_returns_nothing(f: FrameModel)
    requires
        f.return_range.is_empty_sentinel(),
    ensures
        return_value_spec(f).0 == Seq::<u8>::empty(),
        return_value_spec(f).1.memory == (if f.context_open {
            f.memory.freed()
        } else {
            f.memory
        }),
{
}

/// A second `return_value` yields nothing and changes nothing: the first one
/// had already released the frame's context.
pub proof fn lemma_return_value_twice(f: FrameModel)
    ensures
        return_value_spec(return_value_spec(f).1).0 == Seq::<u8>::empty(),
        return_value_spec(return_value_spec(f).1).1 == return_value_spec(f).1,
{
}

/// A frame that stopped on anything but a return or a revert yields no return
/// data: fatal signals and normal stops discard it.
pub proof fn lemma_only_return_or_revert_yields_data(f: FrameModel)
    requires
        f.wf(),
        f.result != InstructionResult::Return,
        f.result != InstructionResult::Revert,
    ensures
        return_value_spec(f).0 == Seq::<u8>::empty(),
{
    let r = f.return_range;
    if !r.is_empty_sentinel() && r.start <= f.memory.context().len() {
        assert(f.memory.slice(r.start as int, 0) =~= Seq::<u8>::empty());
    }
}

/// A run with inspection, from frame `f` and a host whose view is `m`: the
/// frame it ends with, the host's view then, and the signal returned. Before
/// each instruction the pre-step hook is asked, after it the post-step hook,
/// with the frame and the signal the instruction left; the first answer that
/// is not `Continue` ends the run and is returned.
#[verifier::opaque]
pub open spec fn inspect_spec<H: Host>(f: FrameModel, m: H::V) -> (FrameModel, H::V, InstructionResult)
    decreases f.measure(),
{
    if f.result != InstructionResult::Continue {
        (f, m, f.result)
    } else {
        let a = H::pre_step_answer(m, f);
        let m1 = H::after_pre_step(m, f);
        if a != InstructionResult::Continue {
            (f, m1, a)
        } else {
            let g = step_spec(f);
            let m2 = apply_writes::<H>(m1, step_writes(f));
            let b = H::post_step_answer(m2, g, g.result);
            let m3 = H::after_post_step(m2, g, g.result);
            if b != InstructionResult::Continue {
                (g, m3, b)
            } else if g.measure() < f.measure() {
                inspect_spec::<H>(g, m3)
            } else {
                (g, m3, g.result)
            }
        }
    }
}

/// One round of `inspect_spec`.
pub proof fn lemma_inspect_unfold<H: Host>(f: FrameModel, m: H::V)
    ensures
        f.result != InstructionResult::Continue ==> inspect_spec::<H>(f, m) == (f, m, f.result),
        f.result == InstructionResult::Continue ==> {
            let a = H::pre_step_answer(m, f);
            let m1 = H::after_pre_step(m, f);
            let g = step_spec(f);
            let m2 = apply_writes::<H>(m1, step_writes(f));
            let b = H::post_step_answer(m2, g, g.result);
            let m3 = H::after_post_step(m2, g, g.result);
            &&& a != InstructionResult::Continue ==> inspect_spec::<H>(f, m) == (f, m1, a)
            &&& a == InstructionResult::Continue && b != InstructionResult::Continue
                ==> inspect_spec::<H>(f, m) == (g, m3, b)
            &&& a == InstructionResult::Continue && b == InstructionResult::Continue
                ==> inspect_spec::<H>(f, m) == inspect_spec::<H>(g, m3)
        },
{
    reveal(inspect_spec);
    if f.result == InstructionResult::Continue {
        lemma_step_lowers_measure(f);
    }
}

} // verus!
