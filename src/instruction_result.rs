use vstd::prelude::*;

verus! {

/// The halting signal of a call frame: `Continue` while the loop runs, and
/// otherwise the reason it stopped.
#[derive(Clone, Copy, Debug, PartialEq, Eq, Structural)]
pub enum InstructionResult {
    /// The loop keeps fetching.
    Continue,
    /// Normal stop, no return data.
    Stop,
    /// Normal return, with return data.
    Return,
    /// Revert: the host undoes state changes; return data is still produced.
    Revert,
    /// Too many items on the stack.
    StackOverflow,
    /// Too few items on the stack.
    StackUnderflow,
    /// A charge exceeded the remaining gas.
    OutOfGas,
    /// The byte has no defined instruction.
    InvalidOpcode,
    /// The jump target is not a validated jump destination.
    InvalidJump,
    /// A nested call would exceed the call depth limit.
    CallDepthExceeded,
    /// A state-mutating operation in a static frame.
    StateChangeDuringStaticCall,
    /// An opaque failure reported by the host.
    FatalExternalError,
}

/// The three families of terminal signals, beside `Continue`.
#[derive(Clone, Copy, Debug, PartialEq, Eq, Structural)]
pub enum SignalCategory {
    Running,
    Success,
    Revert,
    Fatal,
}

impl InstructionResult {
    pub open spec fn category_spec(self) -> SignalCategory {
        match self {
            InstructionResult::Continue => SignalCategory::Running,
            InstructionResult::Stop | InstructionResult::Return => SignalCategory::Success,
            InstructionResult::Revert => SignalCategory::Revert,
            _ => SignalCategory::Fatal,
        }
    }

    /// Which family the signal belongs to.
    pub fn category(&self) -> (r: SignalCategory)
        ensures
            r == self.category_spec(),
    {
        match self {
            InstructionResult::Continue => SignalCategory::Running,
            InstructionResult::Stop | InstructionResult::Return => SignalCategory::Success,
            InstructionResult::Revert => SignalCategory::Revert,
            _ => SignalCategory::Fatal,
        }
    }

    /// True for `Continue`, the one non-terminal signal.
    pub fn is_continue(&self) -> (r: bool)
        ensures
            r == (*self == InstructionResult::Continue),
    {
        matches!(self, InstructionResult::Continue)
    }

    /// True for a normal stop or return: state is committed and data kept.
    pub fn is_ok(&self) -> (r: bool)
        ensures
            r == (self.category_spec() == SignalCategory::Success),
    {
        matches!(self, InstructionResult::Stop | InstructionResult::Return)
    }

    /// True for a revert: state is undone, data kept.
    pub fn is_revert(&self) -> (r: bool)
        ensures
            r == (self.category_spec() == SignalCategory::Revert),
    {
        matches!(self, InstructionResult::Revert)
    }

    /// True for a fatal signal: state is undone and return data discarded.
    pub fn is_error(&self) -> (r: bool)
        ensures
            r == (self.category_spec() == SignalCategory::Fatal),
    {
        !matches!(
            self,
            InstructionResult::Continue | InstructionResult::Stop | InstructionResult::Return
                | InstructionResult::Revert
        )
    }
}

} // verus!
