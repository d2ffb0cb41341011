use vstd::prelude::*;
use crate::opcode::{push_len, push_len_spec, JUMPDEST};

verus! {

/// Zero bytes appended to every program, so that the last instruction and
/// any immediate it announces are followed by a `STOP`.
pub const PADDING: usize = 9;

/// The table of valid jump destinations of `code` from instruction start `i`
/// on: a `JUMPDEST` byte at an instruction start is valid; bytes inside a push
/// immediate never are.
pub open spec fn jump_table_from(code: Seq<u8>, i: nat) -> Seq<bool>
    decreases code.len() - i,
{
    if i >= code.len() {
        Seq::empty()
    } else {
        let next = i + 1 + push_len_spec(code[i as int]);
        let stop: nat = if next < code.len() {
            next
        } else {
            code.len()
        };
        seq![code[i as int] == JUMPDEST] + Seq::new((stop - i - 1) as nat, |k: int| false)
            + jump_table_from(code, stop)
    }
}

/// The valid jump destinations of a whole program.
pub open spec fn jump_table(code: Seq<u8>) -> Seq<bool> {
    jump_table_from(code, 0)
}

pub proof fn lemma_jump_table_from_len(code: Seq<u8>, i: nat)
    requires
        i <= code.len(),
    ensures
        jump_table_from(code, i).len() == code.len() - i,
    decreases code.len() - i,
{
    if i < code.len() {
        let next = i + 1 + push_len_spec(code[i as int]);
        let stop: nat = if next < code.len() {
            next
        } else {
            code.len()
        };
        lemma_jump_table_from_len(code, stop);
    }
}

/// What a `Contract` holds.
pub struct ContractModel {
    pub bytecode: Seq<u8>,
    pub jump_table: Seq<bool>,
    pub input: Seq<u8>,
    pub caller: u64,
    pub address: u64,
    pub value: u64,
}

/// The immutable record of one call: the analysed, padded program, the call
/// input and the call's parties.
#[derive(Debug)]
pub struct Contract {
    bytecode: Vec<u8>,
    jump_table: Vec<bool>,
    input: Vec<u8>,
    caller: u64,
    address: u64,
    value: u64,
}

impl View for Contract {
    type V = ContractModel;

    closed spec fn view(&self) -> ContractModel {
        ContractModel {
            bytecode: self.bytecode@,
            jump_table: self.jump_table@,
            input: self.input@,
            caller: self.caller,
            address: self.address,
            value: self.value,
        }
    }
}

/// Analyses `code`: its table of valid jump destinations.
pub fn analyze(code: &Vec<u8>) -> (r: Vec<bool>)
    ensures
        r@ == jump_table(code@),
{
    let len = code.len();
    let mut table: Vec<bool> = Vec::new();
    let mut i: usize = 0;
    proof {
        lemma_jump_table_from_len(code@, 0);
    }
    while i < len
        invariant
            len == code@.len(),
            i <= len,
            table@.len() == i,
            table@ + jump_table_from(code@, i as nat) == jump_table(code@),
        decreases len - i,
    {
        let op = code[i];
        let n = push_len(op);
        let stop: usize = if n < len - i - 1 {
            i + 1 + n
        } else {
            len
        };
        let ghost before = table@;
        table.push(op == JUMPDEST);
        let mut k: usize = i + 1;
        while k < stop
            invariant
                i < k <= stop <= len,
                table@ == before.push(op == JUMPDEST) + Seq::new((k - i - 1) as nat, |j: int| false),
            decreases stop - k,
        {
            table.push(false);
            k = k + 1;
            assert(table@ =~= before.push(op == JUMPDEST) + Seq::new((k - i - 1) as nat, |j: int| false));
        }
        proof {
            let next: nat = (i + 1 + push_len_spec(code@[i as int])) as nat;
            assert(stop as nat == (if next < code@.len() { next } else { code@.len() }));
            let tail = jump_table_from(code@, stop as nat);
            assert(jump_table_from(code@, i as nat) == seq![op == JUMPDEST] + Seq::new(
                (stop - i - 1) as nat,
                |j: int| false,
            ) + tail);
            assert(before + jump_table_from(code@, i as nat) =~= table@ + tail);
        }
        i = stop;
    }
    table
}

impl Contract {
    pub open spec fn wf(&self) -> bool {
        &&& PADDING <= self@.bytecode.len() <= usize::MAX
        &&& forall|i: int|
            self@.bytecode.len() - PADDING <= i < self@.bytecode.len() ==> self@.bytecode[i] == 0
        &&& self@.jump_table == jump_table(self@.bytecode.subrange(0, self@.bytecode.len() - PADDING))
        &&& self@.jump_table.len() == self@.bytecode.len() - PADDING
    }

    /// A record for running `code`: the program is padded with `PADDING` zero
    /// (`STOP`) bytes and its jump destinations analysed.
    pub fn new(input: Vec<u8>, code: Vec<u8>, caller: u64, address: u64, value: u64) -> (r: Contract)
        requires
            code@.len() + PADDING <= usize::MAX,
        ensures
            r@.bytecode == code@ + Seq::new(PADDING as nat, |i: int| 0u8),
            r@.jump_table == jump_table(code@),
            r@.input == input@,
            r@.caller == caller,
            r@.address == address,
            r@.value == value,
            r.wf(),
    {
        let jump_table = analyze(&code);
        let mut bytecode = code;
        let len = bytecode.len();
        bytecode.resize(len + PADDING, 0u8);
        let padded_len = bytecode.len();
        assert(padded_len == len + PADDING);
        proof {
            lemma_jump_table_from_len(code@, 0);
        }
        assert(bytecode@ =~= code@ + Seq::new(PADDING as nat, |i: int| 0u8));
        assert(bytecode@.subrange(0, bytecode@.len() - PADDING) =~= code@);
        Contract { bytecode, jump_table, input, caller, address, value }
    }

    /// The padded program.
    pub fn bytecode(&self) -> (r: &Vec<u8>)
        ensures
            r@ == self@.bytecode,
    {
        &self.bytecode
    }

    /// The call input.
    pub fn input(&self) -> (r: &Vec<u8>)
        ensures
            r@ == self@.input,
    {
        &self.input
    }

    pub fn caller(&self) -> (r: u64)
        ensures
            r == self@.caller,
    {
        self.caller
    }

    pub fn address(&self) -> (r: u64)
        ensures
            r == self@.address,
    {
        self.address
    }

    pub fn value(&self) -> (r: u64)
        ensures
            r == self@.value,
    {
        self.value
    }

    /// Whether `dest` is a valid jump destination of the program.
    pub open spec fn is_valid_jump_spec(&self, dest: u64) -> bool {
        dest < self@.jump_table.len() && self@.jump_table[dest as int]
    }

    /// Whether `dest` is a valid jump destination of the program.
    pub fn is_valid_jump(&self, dest: u64) -> (r: bool)
        ensures
            r == self.is_valid_jump_spec(dest),
    {
        if dest < self.jump_table.len() as u64 {
            self.jump_table[dest as usize]
        } else {
            false
        }
    }
}

} // verus!
