use vstd::prelude::*;
use crate::instruction_result::InstructionResult;

verus! {

/// Most items a frame's stack holds.
pub const STACK_LIMIT: usize = 1024;

/// The value stack of one call frame: last in, first out, at most
/// `STACK_LIMIT` words.
#[derive(Debug)]
pub struct Stack {
    data: Vec<u64>,
}

impl View for Stack {
    type V = Seq<u64>;

    /// The items, bottom first.
    closed spec fn view(&self) -> Seq<u64> {
        self.data@
    }
}

impl Stack {
    pub open spec fn wf(&self) -> bool {
        self@.len() <= STACK_LIMIT
    }

    /// The item `n` places below the top (0 is the top).
    pub open spec fn from_top(s: Seq<u64>, n: int) -> u64 {
        s[s.len() - 1 - n]
    }

    /// An empty stack.
    pub fn new() -> (r: Stack)
        ensures
            r@ == Seq::<u64>::empty(),
            r.wf(),
    {
        Stack { data: Vec::new() }
    }

    pub fn len(&self) -> (r: usize)
        ensures
            r == self@.len(),
    {
        self.data.len()
    }

    pub fn is_empty(&self) -> (r: bool)
        ensures
            r == (self@.len() == 0),
    {
        self.data.len() == 0
    }

    /// The items, bottom first.
    pub fn data(&self) -> (r: &Vec<u64>)
        ensures
            r@ == self@,
    {
        &self.data
    }

    /// Pushes `value`; at capacity, fails with `StackOverflow` and leaves the
    /// stack as it was.
    pub fn push(&mut self, value: u64) -> (r: Result<(), InstructionResult>)
        ensures
            old(self)@.len() < STACK_LIMIT ==> r is Ok && final(self)@ == old(self)@.push(value),
            old(self)@.len() >= STACK_LIMIT ==> r == Err::<(), InstructionResult>(
                InstructionResult::StackOverflow,
            ) && final(self)@ == old(self)@,
    {
        if self.data.len() >= STACK_LIMIT {
            Err(InstructionResult::StackOverflow)
        } else {
            self.data.push(value);
            Ok(())
        }
    }

    /// Removes and returns the top item; on an empty stack, fails with
    /// `StackUnderflow` and leaves it as it was.
    pub fn pop(&mut self) -> (r: Result<u64, InstructionResult>)
        ensures
            old(self)@.len() > 0 ==> r == Ok::<u64, InstructionResult>(old(self)@.last())
                && final(self)@ == old(self)@.drop_last(),
            old(self)@.len() == 0 ==> r == Err::<u64, InstructionResult>(
                InstructionResult::StackUnderflow,
            ) && final(self)@ == old(self)@,
    {
        match self.data.pop() {
            Some(v) => Ok(v),
            None => Err(InstructionResult::StackUnderflow),
        }
    }

    /// The item `n` places below the top, without removing it; fails with
    /// `StackUnderflow` when the stack holds no more than `n` items.
    pub fn peek(&self, n: usize) -> (r: Result<u64, InstructionResult>)
        ensures
            n < self@.len() ==> r == Ok::<u64, InstructionResult>(Stack::from_top(self@, n as int)),
            n >= self@.len() ==> r == Err::<u64, InstructionResult>(
                InstructionResult::StackUnderflow,
            ),
    {
        if n < self.data.len() {
            Ok(self.data[self.data.len() - 1 - n])
        } else {
            Err(InstructionResult::StackUnderflow)
        }
    }

    /// Pushes a copy of the item `n - 1` places below the top (`n` from 1).
    /// Fails with `StackUnderflow` when there is no such item, and with
    /// `StackOverflow` at capacity; a failure leaves the stack as it was.
    pub fn dup(&mut self, n: usize) -> (r: Result<(), InstructionResult>)
        requires
            n >= 1,
        ensures
            n > old(self)@.len() ==> r == Err::<(), InstructionResult>(InstructionResult::StackUnderflow)
                && final(self)@ == old(self)@,
            n <= old(self)@.len() && old(self)@.len() >= STACK_LIMIT ==> r == Err::<(), InstructionResult>(
                InstructionResult::StackOverflow,
            ) && final(self)@ == old(self)@,
            n <= old(self)@.len() && old(self)@.len() < STACK_LIMIT ==> r is Ok && final(self)@
                == old(self)@.push(Stack::from_top(old(self)@, n - 1)),
    {
        let len = self.data.len();
        if n > len {
            Err(InstructionResult::StackUnderflow)
        } else if len >= STACK_LIMIT {
            Err(InstructionResult::StackOverflow)
        } else {
            let v = self.data[len - n];
            self.data.push(v);
            Ok(())
        }
    }

    /// Exchanges the top item with the one `n` places below it (`n` from 1).
    /// Fails with `StackUnderflow`, the stack unchanged, when there is no such
    /// item.
    pub fn swap(&mut self, n: usize) -> (r: Result<(), InstructionResult>)
        requires
            n >= 1,
        ensures
            n >= old(self)@.len() ==> r == Err::<(), InstructionResult>(InstructionResult::StackUnderflow)
                && final(self)@ == old(self)@,
            n < old(self)@.len() ==> r is Ok && final(self)@ == old(self)@.update(
                old(self)@.len() - 1,
                Stack::from_top(old(self)@, n as int),
            ).update(old(self)@.len() - 1 - n, old(self)@.last()),
    {
        let len = self.data.len();
        if n >= len {
            Err(InstructionResult::StackUnderflow)
        } else {
            let top = self.data[len - 1];
            let other = self.data[len - 1 - n];
            self.data.set(len - 1, other);
            self.data.set(len - 1 - n, top);
            Ok(())
        }
    }
}

} // verus!
