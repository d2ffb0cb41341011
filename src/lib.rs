//! Execution core of a bytecode virtual machine for account-based contracts:
//! a fetch/advance/dispatch loop over a padded program, with a gas meter, a
//! bounded value stack and a memory arena shared by the frames of a call tree.
use vstd::prelude::*;

pub mod contract;
pub mod gas;
pub mod host;
pub mod instruction_result;
pub mod interpreter;
pub mod opcode;
pub mod semantics;
pub mod shared_memory;
pub mod stack;

pub use contract::Contract;
pub use gas::Gas;
pub use host::{DummyHost, Host, StepLimitHost};
pub use instruction_result::{InstructionResult, SignalCategory};
pub use interpreter::{Interpreter, CALL_STACK_LIMIT, MAX_CODE_SIZE, MAX_INITCODE_SIZE};
pub use semantics::MemoryRange;
pub use shared_memory::SharedMemory;
pub use stack::{Stack, STACK_LIMIT};
