//! The instruction set: a closed enumeration of opcodes, each with an optional
//! immediate operand.
use vstd::prelude::*;

verus! {

/// The opcodes understood by the virtual machine.
#[allow(non_camel_case_types)]
#[derive(Clone, Copy, Debug, PartialEq, Eq, Structural)]
pub enum ByteCode {
    /// Push the immediate operand.
    LOADC,
    /// Pop an address and push the memory word stored there.
    LOAD,
    /// Pop an address and write the new stack top to memory there.
    STORE,
    /// Discard the stack top.
    POP,
    /// Pop a length, reserve that many zeroed heap words, push their base address.
    NEW,
    /// Continue at the instruction named by the immediate operand.
    JUMP,
    /// Pop a value; if it is zero, continue at the immediate operand.
    JUMPZ,
    /// Stop the run successfully.
    HALT,
    ADD,
    SUB,
    MUL,
    DIV,
    MOD,
    AND,
    OR,
    EQ,
    NEQ,
    /// Less than.
    LE,
    /// Less than or equal.
    LEQ,
    /// Greater than.
    GE,
    /// Greater than or equal.
    GEQ,
    /// Arithmetic negation.
    NEG,
    /// Logical complement.
    NOT,
}

/// One instruction: an opcode and its immediate operand, if it takes one.
#[derive(Clone, Copy, Debug, PartialEq, Eq, Structural)]
pub struct Inst {
    pub inst: ByteCode,
    pub data: Option<i64>,
}

/// The opcodes that carry an immediate operand.
pub open spec fn takes_operand(op: ByteCode) -> bool {
    op == ByteCode::LOADC || op == ByteCode::JUMP || op == ByteCode::JUMPZ
}

impl Inst {
    /// An instruction is well formed when it has an operand exactly where its
    /// opcode reads one.
    pub open spec fn well_formed(self) -> bool {
        takes_operand(self.inst) ==> self.data is Some
    }

    /// The immediate operand, or zero where there is none.
    pub open spec fn operand(self) -> i64 {
        match self.data {
            Some(d) => d,
            None => 0,
        }
    }

    /// An instruction without an immediate operand.
    pub fn new_inst(inst: ByteCode) -> (r: Inst)
        ensures
            r.inst == inst,
            r.data is None,
    {
        Inst { inst, data: None }
    }

    /// An instruction with the immediate operand `data`.
    pub fn new_data(inst: ByteCode, data: i64) -> (r: Inst)
        ensures
            r.inst == inst,
            r.data == Some(data),
    {
        Inst { inst, data: Some(data) }
    }
}

/// Every instruction of the program is well formed.
pub open spec fn well_formed_program(prog: Seq<Inst>) -> bool {
    forall|i: int| 0 <= i < prog.len() ==> (#[trigger] prog[i]).well_formed()
}

/// Whether every instruction of `prog` has an operand where its opcode reads
/// one: the condition under which a machine may run `prog`.
pub fn is_well_formed_program(prog: &Vec<Inst>) -> (r: bool)
    ensures
        r == well_formed_program(prog@),
{
    let mut i: usize = 0;
    while i < prog.len()
        invariant
            i <= prog@.len(),
            forall|j: int| 0 <= j < i ==> (#[trigger] prog@[j]).well_formed(),
        decreases prog@.len() - i,
    {
        let ir = prog[i];
        let needs = match ir.inst {
            ByteCode::LOADC | ByteCode::JUMP | ByteCode::JUMPZ => true,
            _ => false,
        };
        if needs && ir.data.is_none() {
            assert(!prog@[i as int].well_formed());
            return false;
        }
        i = i + 1;
    }
    true
}

} // verus!
