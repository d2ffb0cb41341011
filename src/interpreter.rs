use vstd::prelude::*;
use crate::contract::Contract;
use crate::gas::Gas;
use crate::host::{apply_writes, lemma_apply_writes_concat, Host};
use crate::instruction_result::InstructionResult;
use crate::opcode::{
    base_cost, is_defined, is_defined_spec, push_len, ADD, DUP1, DUP16, EQ, GAS, GT, ISZERO, JUMP,
    JUMPDEST, JUMPI, LT, MEMORY_WORD_COST, MSIZE, MSTORE8, MUL, PC, POP, PUSH1, PUSH8,
    RETURN, REVERT, SSTORE, STOP, SUB, SWAP1, SWAP16,
};
use crate::semantics::{
    be_value, binary_spec, eval_spec, inspect_spec, lemma_inspect_unfold, eval_writes, exec_spec, exec_writes, run_writes, step_writes, lemma_expanded_wf, lemma_run_unfold,
    lemma_step_keeps_wf, lemma_step_lowers_measure, new_frame_spec, return_value_spec, run_spec,
    step_spec, FrameModel, MemoryRange, MAX_MEMORY_OPERAND,
};
use crate::shared_memory::{MemoryModel, SharedMemory};
use crate::stack::Stack;

verus! {

/// Most nested call frames in one call tree.
pub const CALL_STACK_LIMIT: u64 = 1024;

/// Largest size of deployed contract code, in bytes.
pub const MAX_CODE_SIZE: usize = 0x6000;

/// Largest size of contract creation code, in bytes.
pub const MAX_INITCODE_SIZE: usize = 2 * MAX_CODE_SIZE;

/// One call frame: its cursor into the program, halting signal, gas meter,
/// stack, the call tree's memory, return bookkeeping and call record.
#[derive(Debug)]
pub struct Interpreter {
    instruction_pointer: usize,
    instruction_result: InstructionResult,
    gas: Gas,
    shared_memory: SharedMemory,
    stack: Stack,
    return_data_buffer: Vec<u8>,
    return_range: MemoryRange,
    is_static: bool,
    contract: Contract,
    context_open: bool,
}

impl View for Interpreter {
    type V = FrameModel;

    closed spec fn view(&self) -> FrameModel {
        FrameModel {
            pc: self.instruction_pointer as int,
            result: self.instruction_result,
            gas: self.gas,
            stack: self.stack@,
            memory: self.shared_memory@,
            return_data: self.return_data_buffer@,
            return_range: self.return_range,
            is_static: self.is_static,
            contract: self.contract@,
            context_open: self.context_open,
        }
    }
}

/// Powers of 256.
pub open spec fn pow256(n: nat) -> nat
    decreases n,
{
    if n == 0 {
        1
    } else {
        256 * pow256((n - 1) as nat)
    }
}

proof fn lemma_pow256_small(n: nat)
    requires
        n <= 7,
    ensures
        pow256(n) <= 0x100_0000_0000_0000,
    decreases n,
{
    reveal_with_fuel(pow256, 8);
    if n > 0 {
        lemma_pow256_small((n - 1) as nat);
    }
}

impl Interpreter {
    pub open spec fn wf(&self) -> bool {
        self@.wf()
    }

    /// A frame for `contract`, at the start of its program, with `gas_limit`
    /// gas, an empty stack and a new context of `shared_memory` of its own.
    pub fn new(contract: Contract, gas_limit: u64, is_static: bool, shared_memory: SharedMemory) -> (r:
        Interpreter)
        requires
            contract.wf(),
            shared_memory@.wf(),
        ensures
            r@ == new_frame_spec(contract@, gas_limit, is_static, shared_memory@),
            r.wf(),
    {
        let mut shared_memory = shared_memory;
        shared_memory.new_context();
        Interpreter {
            instruction_pointer: 0,
            instruction_result: InstructionResult::Continue,
            gas: Gas::new(gas_limit),
            shared_memory,
            stack: Stack::new(),
            return_data_buffer: Vec::new(),
            return_range: MemoryRange { start: 0, end: 0 },
            is_static,
            contract,
            context_open: true,
        }
    }

    pub fn contract(&self) -> (r: &Contract)
        ensures
            r@ == self@.contract,
    {
        &self.contract
    }

    pub fn gas(&self) -> (r: &Gas)
        ensures
            *r == self@.gas,
    {
        &self.gas
    }

    /// The frame's value stack.
    pub fn stack(&self) -> (r: &Stack)
        ensures
            r@ == self@.stack,
    {
        &self.stack
    }

    /// The call tree's memory.
    pub fn shared_memory(&self) -> (r: &SharedMemory)
        ensures
            r@ == self@.memory,
    {
        &self.shared_memory
    }

    /// Lends the call tree's memory out, to a nested frame, say; the frame
    /// holds an empty memory until `restore_shared_memory` gives it back.
    pub fn take_shared_memory(&mut self) -> (r: SharedMemory)
        ensures
            r@ == old(self)@.memory,
            final(self)@ == (FrameModel {
                memory: MemoryModel { buffer: Seq::empty(), checkpoints: Seq::empty() },
                ..old(self)@
            }),
    {
        let mut memory = SharedMemory::new();
        core::mem::swap(&mut memory, &mut self.shared_memory);
        memory
    }

    /// Puts back the call tree's memory that `take_shared_memory` lent out.
    pub fn restore_shared_memory(&mut self, memory: SharedMemory)
        ensures
            final(self)@ == (FrameModel { memory: memory@, ..old(self)@ }),
    {
        self.shared_memory = memory;
    }

    /// Hands the call tree's memory back, ending the frame.
    pub fn into_shared_memory(self) -> (r: SharedMemory)
        ensures
            r@ == self@.memory,
    {
        self.shared_memory
    }

    /// The halting signal.
    pub fn instruction_result(&self) -> (r: InstructionResult)
        ensures
            r == self@.result,
    {
        self.instruction_result
    }

    pub fn is_static(&self) -> (r: bool)
        ensures
            r == self@.is_static,
    {
        self.is_static
    }

    /// Where in memory this frame's return data lies.
    pub fn return_range(&self) -> (r: MemoryRange)
        ensures
            r == self@.return_range,
    {
        self.return_range
    }

    /// The data that the last sub-call returned.
    pub fn return_data_buffer(&self) -> (r: &Vec<u8>)
        ensures
            r@ == self@.return_data,
    {
        &self.return_data_buffer
    }

    /// Keeps `data` as what the last sub-call returned.
    pub fn set_return_data_buffer(&mut self, data: Vec<u8>)
        ensures
            final(self)@ == (FrameModel { return_data: data@, ..old(self)@ }),
    {
        self.return_data_buffer = data;
    }

    /// Offset of the cursor from the start of the program.
    pub fn program_counter(&self) -> (r: usize)
        ensures
            r == self@.pc,
    {
        self.instruction_pointer
    }

    /// The opcode under the cursor, without moving it; past the program, `STOP`.
    pub fn current_opcode(&self) -> (r: u8)
        ensures
            r == self@.byte_at(self@.pc),
    {
        self.byte_at(self.instruction_pointer)
    }

    fn byte_at(&self, i: usize) -> (r: u8)
        ensures
            r == self@.byte_at(i as int),
    {
        if i < self.contract.bytecode().len() {
            self.contract.bytecode()[i]
        } else {
            STOP
        }
    }

    fn halt(&mut self, r: InstructionResult)
        ensures
            final(self)@ == old(self)@.halt(r),
    {
        self.instruction_result = r;
    }

    /// The `k` immediate bytes after the opcode, read big-endian.
    fn read_immediate(&self, k: usize) -> (v: u64)
        requires
            k <= 8,
            self@.pc + 8 <= usize::MAX,
        ensures
            v == be_value(Seq::new(k as nat, |j: int| self@.byte_at(self@.pc + j))),
    {
        let ghost f = self@;
        let mut v: u64 = 0;
        let mut j: usize = 0;
        while j < k
            invariant
                f == self@,
                j <= k <= 8,
                f.pc + 8 <= usize::MAX,
                v == be_value(Seq::new(j as nat, |t: int| f.byte_at(f.pc + t))),
                v < pow256(j as nat),
            decreases k - j,
        {
            let b = self.byte_at(self.instruction_pointer + j);
            proof {
                lemma_pow256_small(j as nat);
                assert(v * 256 + b < pow256(j as nat) * 256) by (nonlinear_arith)
                    requires
                        v < pow256(j as nat),
                        b < 256,
                ;
                assert(v * 256 + b <= u64::MAX) by (nonlinear_arith)
                    requires
                        v < pow256(j as nat),
                        pow256(j as nat) <= 0x100_0000_0000_0000,
                        b < 256,
                ;
                let s = Seq::new((j + 1) as nat, |t: int| f.byte_at(f.pc + t));
                assert(s.drop_last() =~= Seq::new(j as nat, |t: int| f.byte_at(f.pc + t)));
            }
            v = v * 256 + b as u64;
            j = j + 1;
        }
        v
    }

    /// Grows the memory context to hold `len` bytes at `offset` and pays for
    /// the growth; where that cannot be had, changes nothing and fails.
    fn expand(&mut self, offset: u64, len: u64) -> (ok: bool)
        requires
            old(self)@.resources_wf(),
        ensures
            ok == old(self)@.expand_ok(offset, len),
            ok ==> final(self)@ == old(self)@.expanded(offset, len),
            !ok ==> final(self)@ == old(self)@,
    {
        if len == 0 {
            return true;
        }
        if offset > MAX_MEMORY_OPERAND || len > MAX_MEMORY_OPERAND {
            return false;
        }
        let end: u64 = offset + len;
        let cur: usize = self.shared_memory.len();
        if end <= cur as u64 {
            return true;
        }
        let new_words: u64 = (end + 31) / 32;
        let cur_words: u64 = (cur as u64 + 31) / 32;
        let new_len: u64 = new_words * 32;
        let base: usize = self.shared_memory.context_base();
        proof {
            assert(new_words >= cur_words) by (nonlinear_arith)
                requires
                    end > cur,
                    new_words == (end + 31) / 32,
                    cur_words == (cur + 31) / 32,
            ;
            assert(new_len <= 0x8000_0020) by (nonlinear_arith)
                requires
                    end <= 0x8000_0000,
                    new_words == (end + 31) / 32,
                    new_len == new_words * 32,
            ;
        }
        if base > usize::MAX - new_len as usize {
            return false;
        }
        let cost: u64 = MEMORY_WORD_COST * (new_words - cur_words);
        if !self.gas.record_cost(cost) {
            return false;
        }
        self.shared_memory.resize(new_len as usize);
        true
    }

    /// Pops the two operands of a memory instruction: offset on top, then
    /// value or length.
    fn pop_two(&mut self) -> (r: (u64, u64))
        requires
            old(self)@.stack.len() >= 2,
        ensures
            r == (old(self)@.top(0), old(self)@.top(1)),
            final(self)@ == old(self)@.popped(2),
    {
        let a = match self.stack.pop() {
            Ok(v) => v,
            Err(_) => 0,
        };
        let b = match self.stack.pop() {
            Ok(v) => v,
            Err(_) => 0,
        };
        proof {
            assert(self.stack@ =~= old(self)@.stack.subrange(0, old(self)@.stack.len() - 2));
        }
        (a, b)
    }

    fn push_value(&mut self, v: u64)
        ensures
            final(self)@ == old(self)@.push_value(v),
    {
        if self.stack.push(v).is_err() {
            self.instruction_result = InstructionResult::StackOverflow;
        }
    }

    fn jump_to(&mut self, dest: u64)
        requires
            old(self)@.program_wf(),
        ensures
            final(self)@ == old(self)@.jump_to(dest),
    {
        if self.contract.is_valid_jump(dest) {
            self.instruction_pointer = dest as usize;
        } else {
            self.instruction_result = InstructionResult::InvalidJump;
        }
    }
}

impl Interpreter {
    /// Runs a defined instruction whose fixed cost is paid; the cursor already
    /// stands past the opcode.
    fn exec_op<H: Host>(&mut self, op: u8, host: &mut H)
        requires
            old(self)@.resources_wf(),
            old(self)@.program_wf(),
            is_defined_spec(op),
            old(self)@.pc >= 1,
            PUSH1 <= op <= PUSH8 ==> old(self)@.pc + 8 <= usize::MAX,
        ensures
            final(self)@ == exec_spec(op, old(self)@),
            final(host)@ == apply_writes::<H>(old(host)@, exec_writes(op, old(self)@)),
            H::hooks_continue(old(host)@) ==> H::hooks_continue(final(host)@),
    {
        let n = self.stack.len();
        proof {
            assert(apply_writes::<H>(host@, Seq::empty()) == host@);
        }
        if op == STOP {
            self.halt(InstructionResult::Stop);
        } else if op == ADD || op == MUL || op == SUB || op == LT || op == GT || op == EQ {
            if n < 2 {
                self.halt(InstructionResult::StackUnderflow);
            } else {
                let (a, b) = self.pop_two();
                let r = binary(op, a, b);
                self.push_value(r);
            }
        } else if op == ISZERO {
            if n < 1 {
                self.halt(InstructionResult::StackUnderflow);
            } else {
                let a = match self.stack.pop() {
                    Ok(v) => v,
                    Err(_) => 0,
                };
                self.push_value(if a == 0 { 1 } else { 0 });
                proof {
                    assert(self@.stack =~= old(self)@.stack.update(n - 1, if a == 0 { 1u64 } else { 0u64 }));
                }
            }
        } else if op == POP {
            if n < 1 {
                self.halt(InstructionResult::StackUnderflow);
            } else {
                let _ = self.stack.pop();
                proof {
                    assert(self@.stack =~= old(self)@.stack.subrange(0, n - 1));
                }
            }
        } else if op == MSTORE8 {
            if n < 2 {
                self.halt(InstructionResult::StackUnderflow);
            } else {
                let (offset, value) = self.pop_two();
                if self.expand(offset, 1) {
                    proof {
                        lemma_expanded_wf(old(self)@.popped(2), offset, 1);
                    }
                    self.shared_memory.set_byte(offset as usize, (value % 256) as u8);
                } else {
                    self.halt(InstructionResult::OutOfGas);
                }
            }
        } else if op == SSTORE {
            if n < 2 {
                self.halt(InstructionResult::StackUnderflow);
            } else {
                let ghost m = host@;
                let (key, value) = self.pop_two();
                host.sstore(key, value);
                proof {
                    let w = seq![(key, value)];
                    assert(w.drop_last() =~= Seq::<(u64, u64)>::empty());
                    assert(w.last() == (key, value));
                    assert(apply_writes::<H>(m, w) == H::after_sstore(m, key, value));
                }
            }
        } else if op == JUMP {
            if n < 1 {
                self.halt(InstructionResult::StackUnderflow);
            } else {
                let dest = match self.stack.pop() {
                    Ok(v) => v,
                    Err(_) => 0,
                };
                proof {
                    assert(self@.stack =~= old(self)@.stack.subrange(0, n - 1));
                }
                self.jump_to(dest);
            }
        } else if op == JUMPI {
            if n < 2 {
                self.halt(InstructionResult::StackUnderflow);
            } else {
                let (dest, cond) = self.pop_two();
                if cond != 0 {
                    self.jump_to(dest);
                }
            }
        } else if op == PC {
            let pc = self.instruction_pointer - 1;
            self.push_value(pc as u64);
        } else if op == MSIZE {
            let size = self.shared_memory.len();
            self.push_value(size as u64);
        } else if op == GAS {
            let left = self.gas.remaining();
            self.push_value(left);
        } else if op == JUMPDEST {
        } else if PUSH1 <= op && op <= PUSH8 {
            let k = push_len(op);
            let v = self.read_immediate(k);
            self.instruction_pointer = self.instruction_pointer + k;
            proof {
                assert(be_value(Seq::new(k as nat, |j: int| old(self)@.byte_at(old(self)@.pc + j))) == v);
            }
            self.push_value(v);
        } else if DUP1 <= op && op <= DUP16 {
            let k = (op - DUP1 + 1) as usize;
            match self.stack.dup(k) {
                Ok(()) => {},
                Err(e) => {
                    self.halt(e);
                },
            }
        } else if SWAP1 <= op && op <= SWAP16 {
            let k = (op - SWAP1 + 1) as usize;
            match self.stack.swap(k) {
                Ok(()) => {},
                Err(e) => {
                    self.halt(e);
                },
            }
        } else {
            // RETURN or REVERT
            let r = if op == RETURN {
                InstructionResult::Return
            } else {
                InstructionResult::Revert
            };
            if n < 2 {
                self.halt(InstructionResult::StackUnderflow);
            } else {
                let (offset, len) = self.pop_two();
                if len == 0 {
                    self.return_range = MemoryRange { start: usize::MAX, end: usize::MAX };
                    self.halt(r);
                } else if self.expand(offset, len) {
                    self.return_range = MemoryRange { start: offset as usize, end: (offset + len) as usize };
                    self.halt(r);
                } else {
                    self.halt(InstructionResult::OutOfGas);
                }
            }
        }
    }
}

impl Interpreter {
    /// Dispatches `op`: a state write in a static frame fails, an undefined
    /// byte fails, the fixed cost is charged, then the instruction runs.
    fn eval<H: Host>(&mut self, op: u8, host: &mut H)
        requires
            old(self)@.resources_wf(),
            old(self)@.program_wf(),
            old(self)@.pc >= 1,
            PUSH1 <= op <= PUSH8 ==> old(self)@.pc + 8 <= usize::MAX,
        ensures
            final(self)@ == eval_spec(op, old(self)@),
            final(host)@ == apply_writes::<H>(old(host)@, eval_writes(op, old(self)@)),
            H::hooks_continue(old(host)@) ==> H::hooks_continue(final(host)@),
    {
        if op == SSTORE && self.is_static {
            self.halt(InstructionResult::StateChangeDuringStaticCall);
        } else if !is_defined(op) {
            self.halt(InstructionResult::InvalidOpcode);
        } else if !self.gas.record_cost(base_cost(op)) {
            self.halt(InstructionResult::OutOfGas);
        } else {
            self.exec_op(op, host);
        }
    }

    /// Executes the next instruction: reads the opcode under the cursor,
    /// moves the cursor past it, and dispatches it.
    pub fn step<H: Host>(&mut self, host: &mut H)
        requires
            old(self).wf(),
            old(self)@.result == InstructionResult::Continue,
        ensures
            final(self)@ == step_spec(old(self)@),
            final(host)@ == apply_writes::<H>(old(host)@, step_writes(old(self)@)),
            H::hooks_continue(old(host)@) ==> H::hooks_continue(final(host)@),
            final(self).wf(),
    {
        let ghost f = self@;
        // The cursor stands inside the program: a running frame never moves
        // past the trailing `STOP` padding.
        let opcode = self.contract.bytecode()[self.instruction_pointer];
        self.instruction_pointer = self.instruction_pointer + 1;
        proof {
            if opcode != STOP {
                assert(f.pc < f.code_len());
            }
            lemma_step_keeps_wf(f);
            reveal(step_spec);
            reveal(step_writes);
        }
        self.eval(opcode, host);
    }

    /// Steps until the halting signal leaves `Continue`, and returns it. The
    /// host takes the run's storage writes and no hook call. A frame that has
    /// already stopped is returned as it is, and the host is left alone.
    pub fn run<H: Host>(&mut self, host: &mut H) -> (r: InstructionResult)
        requires
            old(self).wf(),
        ensures
            final(self)@ == run_spec(old(self)@),
            r == final(self)@.result,
            r != InstructionResult::Continue,
            final(self).wf(),
            final(host)@ == apply_writes::<H>(old(host)@, run_writes(old(self)@)),
            old(self)@.result != InstructionResult::Continue ==> *final(host) == *old(host),
            H::hooks_continue(old(host)@) ==> H::hooks_continue(final(host)@),
    {
        while self.instruction_result == InstructionResult::Continue
            invariant
                self.wf(),
                run_spec(self@) == run_spec(old(self)@),
                apply_writes::<H>(old(host)@, run_writes(old(self)@)) == apply_writes::<H>(
                    host@,
                    run_writes(self@),
                ),
                old(self)@.result != InstructionResult::Continue ==> *host == *old(host) && self@
                    == old(self)@,
                H::hooks_continue(old(host)@) ==> H::hooks_continue(host@),
            decreases self@.measure(),
        {
            let ghost before = self@;
            let ghost m = host@;
            proof {
                lemma_step_lowers_measure(self@);
                lemma_run_unfold(self@);
            }
            self.step(host);
            proof {
                lemma_apply_writes_concat::<H>(m, step_writes(before), run_writes(self@));
            }
        }
        proof {
            lemma_run_unfold(self@);
        }
        self.instruction_result
    }

    /// As `run`, with the host's hooks called before and after each
    /// instruction: the run is `inspect_spec`. A hook that answers anything
    /// but `Continue` stops the run at once, and its answer, not the frame's
    /// signal, is returned, the frame left as that hook saw it. A frame that
    /// has already stopped is returned as it is and no hook is called. With
    /// hooks that always continue, the run is the one `run` makes.
    pub fn run_inspect<H: Host>(&mut self, host: &mut H) -> (r: InstructionResult)
        requires
            old(self).wf(),
        ensures
            final(self).wf(),
            (final(self)@, final(host)@, r) == inspect_spec::<H>(old(self)@, old(host)@),
            r != InstructionResult::Continue,
            run_spec(final(self)@) == run_spec(old(self)@),
            old(self)@.result != InstructionResult::Continue ==> *final(host) == *old(host),
            H::hooks_continue(old(host)@) ==> final(self)@ == run_spec(old(self)@),
            H::hooks_continue(old(host)@) ==> r == final(self)@.result,
    {
        let ghost passive = H::hooks_continue(host@);
        while self.instruction_result == InstructionResult::Continue
            invariant
                self.wf(),
                run_spec(self@) == run_spec(old(self)@),
                inspect_spec::<H>(self@, host@) == inspect_spec::<H>(old(self)@, old(host)@),
                old(self)@.result != InstructionResult::Continue ==> *host == *old(host) && self@
                    == old(self)@,
                passive == H::hooks_continue(old(host)@),
                passive ==> H::hooks_continue(host@),
            decreases self@.measure(),
        {
            proof {
                lemma_inspect_unfold::<H>(self@, host@);
                lemma_step_lowers_measure(self@);
                lemma_run_unfold(self@);
            }
            let ret = host.step(self);
            if ret != InstructionResult::Continue {
                return ret;
            }
            self.step(host);
            let ret = host.step_end(self, self.instruction_result);
            if ret != InstructionResult::Continue {
                return ret;
            }
        }
        proof {
            lemma_run_unfold(self@);
            lemma_inspect_unfold::<H>(self@, host@);
        }
        self.instruction_result
    }

    /// Copies out the frame's return data, if any, then releases the frame's
    /// memory context. The frame's other fields stay as they were. Once the
    /// context is gone a further call yields nothing and releases nothing.
    pub fn return_value(&mut self) -> (r: Vec<u8>)
        requires
            old(self).wf(),
        ensures
            (r@, final(self)@) == return_value_spec(old(self)@),
            final(self).wf(),
    {
        let bytes = if !self.context_open || self.return_range.start == usize::MAX {
            Vec::new()
        } else {
            self.shared_memory.get_slice(
                self.return_range.start,
                self.return_range.end - self.return_range.start,
            )
        };
        if self.context_open {
            self.shared_memory.free_context_memory();
            self.context_open = false;
        }
        bytes
    }
}

/// Result of a two-operand instruction.
fn binary(op: u8, a: u64, b: u64) -> (r: u64)
    ensures
        r == binary_spec(op, a, b),
{
    if op == ADD {
        a.wrapping_add(b)
    } else if op == MUL {
        a.wrapping_mul(b)
    } else if op == SUB {
        a.wrapping_sub(b)
    } else if op == LT {
        if a < b { 1 } else { 0 }
    } else if op == GT {
        if a > b { 1 } else { 0 }
    } else {
        if a == b { 1 } else { 0 }
    }
}

} // verus!
