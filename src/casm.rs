use vstd::prelude::*;

verus! {

/// Where an instruction reads or writes a value.
#[derive(Debug, Clone, Copy, PartialEq, Eq)]
pub enum Operand {
    /// An unsigned literal.
    Int(u64),
    /// The memory cell at `fp + offset`.
    DerefFp(i32),
    /// The memory cell at `ap + offset`.
    DerefAp(i32),
}

/// The abstract assembly produced by lowering and consumed by the assembler.
#[derive(Debug, PartialEq, Eq)]
pub enum CasmInstruction {
    Ret,
    /// A call to a label, rewritten into `CallRel` before encoding.
    Call(String),
    CallRel(i32),
    CallAbs(u64),
    IncrFp(u64),
    IncrAp(u64),
    /// A named program point; it occupies no space and is erased on resolution.
    Label(String),
    Store { left: Operand, op: Operand, incr_ap: bool },
    Add { left: Operand, op1: Operand, op2: Operand },
    Mul { left: Operand, op1: Operand, op2: Operand },
    Deref { left: Operand, op: Operand },
    Jmp(String),
    JmpRel(i32),
    /// A conditional jump whose distance is counted in instructions.
    JmpIfNeq(i32, Operand),
    JmpIfNeqRel(i32, Operand),
}

impl Operand {
    pub open spec fn is_deref(self) -> bool {
        !(self is Int)
    }
}

impl Clone for CasmInstruction {
    fn clone(&self) -> (r: Self)
        ensures
            r == *self,
    {
        match self {
            CasmInstruction::Ret => CasmInstruction::Ret,
            CasmInstruction::Call(l) => CasmInstruction::Call(l.clone()),
            CasmInstruction::CallRel(k) => CasmInstruction::CallRel(*k),
            CasmInstruction::CallAbs(a) => CasmInstruction::CallAbs(*a),
            CasmInstruction::IncrFp(n) => CasmInstruction::IncrFp(*n),
            CasmInstruction::IncrAp(n) => CasmInstruction::IncrAp(*n),
            CasmInstruction::Label(l) => CasmInstruction::Label(l.clone()),
            CasmInstruction::Store { left, op, incr_ap } => CasmInstruction::Store {
                left: *left,
                op: *op,
                incr_ap: *incr_ap,
            },
            CasmInstruction::Add { left, op1, op2 } => CasmInstruction::Add {
                left: *left,
                op1: *op1,
                op2: *op2,
            },
            CasmInstruction::Mul { left, op1, op2 } => CasmInstruction::Mul {
                left: *left,
                op1: *op1,
                op2: *op2,
            },
            CasmInstruction::Deref { left, op } => CasmInstruction::Deref { left: *left, op: *op },
            CasmInstruction::Jmp(l) => CasmInstruction::Jmp(l.clone()),
            CasmInstruction::JmpRel(k) => CasmInstruction::JmpRel(*k),
            CasmInstruction::JmpIfNeq(k, op) => CasmInstruction::JmpIfNeq(*k, *op),
            CasmInstruction::JmpIfNeqRel(k, op) => CasmInstruction::JmpIfNeqRel(*k, *op),
        }
    }
}

} // verus!
