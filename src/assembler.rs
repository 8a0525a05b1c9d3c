use vstd::prelude::*;
use crate::casm::{CasmInstruction, Operand};
use crate::error::CompileError;
use crate::symbols::SymbolTable;

verus! {

/// The field prime of the target machine; a negative relative call distance
/// `k` is carried in the immediate as `PRIME + k`.
pub const PRIME: u64 = 0x7fff_ffff;

/// One machine instruction, field by field, before packing.
#[derive(Debug, Clone, PartialEq, Eq)]
pub struct Instruction {
    pub offdst: i32,
    pub offop0: i32,
    pub offop1: i32,
    pub imm: Option<u64>,
    pub dst: u8,
    pub op0: u8,
    pub op1: u8,
    pub res: u8,
    pub pc_update: u8,
    pub ap_update: u8,
    pub opcode: u8,
}

/// An offset that fits the 16-bit field once biased by `0x8000`.
pub open spec fn fits_offset(k: i32) -> bool {
    -0x8000 <= k < 0x8000
}

/// The ten fields laid out in one word, least significant first.
pub open spec fn pack(
    offdst: u64,
    offop0: u64,
    offop1: u64,
    dst: u64,
    op0: u64,
    op1: u64,
    res: u64,
    pc_update: u64,
    ap_update: u64,
    opcode: u64,
) -> u64 {
    offdst | offop0 << 16u64 | offop1 << 32u64 | dst << 48u64 | op0 << 49u64 | op1 << 50u64 | res
        << 53u64 | pc_update << 55u64 | ap_update << 58u64 | opcode << 60u64
}

/// The bits of `word` from position `lo` on, kept by `mask`.
pub open spec fn field(word: u64, lo: u64, mask: u64) -> u64 {
    (word >> lo) & mask
}

/// An offset as stored in its field.
pub open spec fn biased(k: i32) -> u64 {
    (k + 0x8000) as u64
}

impl Instruction {
    /// Offsets fit their 16-bit fields and flags fit their widths.
    pub open spec fn wf(self) -> bool {
        &&& fits_offset(self.offdst)
        &&& fits_offset(self.offop0)
        &&& fits_offset(self.offop1)
        &&& self.dst < 2
        &&& self.op0 < 2
        &&& self.op1 < 8
        &&& self.res < 4
        &&& self.pc_update < 8
        &&& self.ap_update < 4
        &&& self.opcode < 8
    }

    pub open spec fn word(self) -> u64 {
        pack(
            biased(self.offdst),
            biased(self.offop0),
            biased(self.offop1),
            self.dst as u64,
            self.op0 as u64,
            self.op1 as u64,
            self.res as u64,
            self.pc_update as u64,
            self.ap_update as u64,
            self.opcode as u64,
        )
    }

    /// Number of words the instruction occupies: one, plus one for an immediate.
    pub open spec fn size(self) -> nat {
        if self.imm is Some {
            2
        } else {
            1
        }
    }

    /// The packed word and the immediate that follows it, if any.
    pub fn to_bytes(&self) -> (r: (u64, Option<u64>))
        requires
            self.wf(),
        ensures
            r.0 == self.word(),
            r.1 == self.imm,
            r.0 < 0x8000_0000_0000_0000,
    {
        let offdst = (self.offdst + 0x8000) as u64;
        let offop0 = (self.offop0 + 0x8000) as u64;
        let offop1 = (self.offop1 + 0x8000) as u64;
        let dst = self.dst as u64;
        let op0 = self.op0 as u64;
        let op1 = self.op1 as u64;
        let res = self.res as u64;
        let pc_update = self.pc_update as u64;
        let ap_update = self.ap_update as u64;
        let opcode = self.opcode as u64;
        let word = offdst | offop0 << 16u64 | offop1 << 32u64 | dst << 48u64 | op0 << 49u64 | op1
            << 50u64 | res << 53u64 | pc_update << 55u64 | ap_update << 58u64 | opcode << 60u64;
        proof {
            lemma_pack_fields(offdst, offop0, offop1, dst, op0, op1, res, pc_update, ap_update, opcode);
        }
        (word, self.imm)
    }
}

/// Unpacking a packed word gives back each field.
proof fn lemma_pack_fields(
    offdst: u64,
    offop0: u64,
    offop1: u64,
    dst: u64,
    op0: u64,
    op1: u64,
    res: u64,
    pc_update: u64,
    ap_update: u64,
    opcode: u64,
)
    by (bit_vector)
    requires
        offdst < 0x10000,
        offop0 < 0x10000,
        offop1 < 0x10000,
        dst < 2,
        op0 < 2,
        op1 < 8,
        res < 4,
        pc_update < 8,
        ap_update < 4,
        opcode < 8,
    ensures
        field(pack(offdst, offop0, offop1, dst, op0, op1, res, pc_update, ap_update, opcode), 0, 0xffff) == offdst,
        field(pack(offdst, offop0, offop1, dst, op0, op1, res, pc_update, ap_update, opcode), 16, 0xffff) == offop0,
        field(pack(offdst, offop0, offop1, dst, op0, op1, res, pc_update, ap_update, opcode), 32, 0xffff) == offop1,
        field(pack(offdst, offop0, offop1, dst, op0, op1, res, pc_update, ap_update, opcode), 48, 1) == dst,
        field(pack(offdst, offop0, offop1, dst, op0, op1, res, pc_update, ap_update, opcode), 49, 1) == op0,
        field(pack(offdst, offop0, offop1, dst, op0, op1, res, pc_update, ap_update, opcode), 50, 7) == op1,
        field(pack(offdst, offop0, offop1, dst, op0, op1, res, pc_update, ap_update, opcode), 53, 3) == res,
        field(pack(offdst, offop0, offop1, dst, op0, op1, res, pc_update, ap_update, opcode), 55, 7) == pc_update,
        field(pack(offdst, offop0, offop1, dst, op0, op1, res, pc_update, ap_update, opcode), 58, 3) == ap_update,
        field(pack(offdst, offop0, offop1, dst, op0, op1, res, pc_update, ap_update, opcode), 60, 7) == opcode,
        pack(offdst, offop0, offop1, dst, op0, op1, res, pc_update, ap_update, opcode) < 0x8000_0000_0000_0000u64,
{
}

/// Decoding the ten fields of a well-formed instruction's word gives back the
/// instruction's fields; the three offsets come back once the `0x8000` bias
/// is taken off.
pub proof fn lemma_word_round_trip(i: Instruction)
    requires
        i.wf(),
    ensures
        field(i.word(), 0, 0xffff) - 0x8000 == i.offdst,
        field(i.word(), 16, 0xffff) - 0x8000 == i.offop0,
        field(i.word(), 32, 0xffff) - 0x8000 == i.offop1,
        field(i.word(), 48, 1) == i.dst,
        field(i.word(), 49, 1) == i.op0,
        field(i.word(), 50, 7) == i.op1,
        field(i.word(), 53, 3) == i.res,
        field(i.word(), 55, 7) == i.pc_update,
        field(i.word(), 58, 3) == i.ap_update,
        field(i.word(), 60, 7) == i.opcode,
{
    lemma_pack_fields(
        biased(i.offdst),
        biased(i.offop0),
        biased(i.offop1),
        i.dst as u64,
        i.op0 as u64,
        i.op1 as u64,
        i.res as u64,
        i.pc_update as u64,
        i.ap_update as u64,
        i.opcode as u64,
    );
}

pub open spec fn mk(
    offdst: i32,
    offop0: i32,
    offop1: i32,
    imm: Option<u64>,
    dst: u8,
    op0: u8,
    op1: u8,
    res: u8,
    pc_update: u8,
    ap_update: u8,
    opcode: u8,
) -> Instruction {
    Instruction { offdst, offop0, offop1, imm, dst, op0, op1, res, pc_update, ap_update, opcode }
}

/// The offset of a memory operand (`1` for a literal, which is read from the
/// word after the instruction).
pub open spec fn operand_offset(op: Operand) -> i32 {
    match op {
        Operand::Int(_) => 1,
        Operand::DerefFp(k) => k,
        Operand::DerefAp(k) => k,
    }
}

/// The source flag of an operand in the `op1` position.
pub open spec fn source_flag(op: Operand) -> u8 {
    match op {
        Operand::Int(_) => 1,
        Operand::DerefFp(_) => 2,
        Operand::DerefAp(_) => 4,
    }
}

/// The register flag of a memory operand in the `dst` or `op0` position.
pub open spec fn register_flag(op: Operand) -> u8 {
    if op is DerefFp {
        1
    } else {
        0
    }
}

pub open spec fn immediate_of(op: Operand) -> Option<u64> {
    match op {
        Operand::Int(n) => Some(n),
        _ => None,
    }
}

/// The immediate that carries a relative call distance.
pub open spec fn call_rel_immediate(k: i32) -> u64 {
    if k < 0 {
        (PRIME + k) as u64
    } else {
        k as u64
    }
}

/// A memory operand whose offset fits its field.
pub open spec fn cell_ok(op: Operand) -> bool {
    op.is_deref() && fits_offset(operand_offset(op))
}

/// An operand that can stand in the `op1` position.
pub open spec fn source_ok(op: Operand) -> bool {
    op is Int || cell_ok(op)
}

/// The fields of an arithmetic instruction; `res` tells addition from
/// multiplication.
pub open spec fn arith(left: Operand, op1: Operand, op2: Operand, res: u8) -> Result<
    Instruction,
    CompileError,
> {
    if cell_ok(left) && cell_ok(op1) && source_ok(op2) {
        Ok(
            mk(
                operand_offset(left),
                operand_offset(op1),
                operand_offset(op2),
                immediate_of(op2),
                register_flag(left),
                register_flag(op1),
                source_flag(op2),
                res,
                0,
                2,
                4,
            ),
        )
    } else {
        Err(CompileError::InvalidOperandShape)
    }
}

/// What the encoder makes of each resolved instruction.
pub open spec fn encode(c: CasmInstruction) -> Result<Instruction, CompileError> {
    match c {
        CasmInstruction::Ret => Ok(mk(-2i32, -1i32, -1i32, None, 1, 1, 2, 0, 1, 0, 2)),
        CasmInstruction::CallAbs(a) => Ok(mk(0, 1, 1, Some(a), 0, 0, 1, 0, 1, 0, 1)),
        CasmInstruction::CallRel(k) => Ok(
            mk(0, 1, 1, Some(call_rel_immediate(k)), 0, 0, 1, 0, 2, 0, 1),
        ),
        CasmInstruction::IncrAp(n) => Ok(mk(-1i32, -1i32, 1, Some(n), 1, 1, 1, 0, 0, 1, 0)),
        CasmInstruction::Store { left, op, incr_ap } => {
            if cell_ok(left) && source_ok(op) {
                Ok(
                    mk(
                        operand_offset(left),
                        -1i32,
                        operand_offset(op),
                        immediate_of(op),
                        register_flag(left),
                        1,
                        source_flag(op),
                        0,
                        0,
                        if incr_ap {
                            2
                        } else {
                            0
                        },
                        4,
                    ),
                )
            } else {
                Err(CompileError::InvalidOperandShape)
            }
        },
        CasmInstruction::Add { left, op1, op2 } => arith(left, op1, op2, 1),
        CasmInstruction::Mul { left, op1, op2 } => arith(left, op1, op2, 2),
        _ => Err(CompileError::UnsupportedConstruct),
    }
}

/// Some operand of the instruction is a literal.
pub open spec fn mentions_int(c: CasmInstruction) -> bool {
    match c {
        CasmInstruction::Store { left, op, .. } => left is Int || op is Int,
        CasmInstruction::Add { left, op1, op2 } => left is Int || op1 is Int || op2 is Int,
        CasmInstruction::Mul { left, op1, op2 } => left is Int || op1 is Int || op2 is Int,
        CasmInstruction::Deref { left, op } => left is Int || op is Int,
        CasmInstruction::JmpIfNeq(_, op) => op is Int,
        CasmInstruction::JmpIfNeqRel(_, op) => op is Int,
        _ => false,
    }
}

/// An encodable instruction carries an immediate exactly when one of its
/// operands is a literal or it is an absolute call, a relative call or an
/// `ap` increment.
pub proof fn lemma_immediate_iff(c: CasmInstruction)
    requires
        encode(c) is Ok,
    ensures
        encode(c)->Ok_0.imm is Some <==> (mentions_int(c) || c is CallAbs || c is CallRel
            || c is IncrAp),
{
}

/// The offset and register flag of a memory operand in the `dst` or `op0`
/// position.
fn cell_fields(op: Operand) -> (r: Result<(i32, u8), CompileError>)
    ensures
        cell_ok(op) ==> r == Ok::<(i32, u8), CompileError>((operand_offset(op), register_flag(op))),
        !cell_ok(op) ==> r == Err::<(i32, u8), CompileError>(CompileError::InvalidOperandShape),
{
    match op {
        Operand::DerefFp(k) => {
            if -0x8000 <= k && k < 0x8000 {
                Ok((k, 1))
            } else {
                Err(CompileError::InvalidOperandShape)
            }
        },
        Operand::DerefAp(k) => {
            if -0x8000 <= k && k < 0x8000 {
                Ok((k, 0))
            } else {
                Err(CompileError::InvalidOperandShape)
            }
        },
        Operand::Int(_) => Err(CompileError::InvalidOperandShape),
    }
}

/// The offset, source flag and immediate of an operand in the `op1` position.
fn source_fields(op: Operand) -> (r: Result<(i32, u8, Option<u64>), CompileError>)
    ensures
        source_ok(op) ==> r == Ok::<(i32, u8, Option<u64>), CompileError>(
            (operand_offset(op), source_flag(op), immediate_of(op)),
        ),
        !source_ok(op) ==> r == Err::<(i32, u8, Option<u64>), CompileError>(
            CompileError::InvalidOperandShape,
        ),
{
    match op {
        Operand::Int(n) => Ok((1, 1, Some(n))),
        Operand::DerefFp(k) => {
            if -0x8000 <= k && k < 0x8000 {
                Ok((k, 2, None))
            } else {
                Err(CompileError::InvalidOperandShape)
            }
        },
        Operand::DerefAp(k) => {
            if -0x8000 <= k && k < 0x8000 {
                Ok((k, 4, None))
            } else {
                Err(CompileError::InvalidOperandShape)
            }
        },
    }
}

/// Encodes one resolved instruction. Labels, symbolic calls and jumps have no
/// encoding and are refused.
pub fn build_instruction(instruction: CasmInstruction) -> (r: Result<Instruction, CompileError>)
    ensures
        r == encode(instruction),
        r is Ok ==> r->Ok_0.wf(),
{
    match instruction {
        CasmInstruction::CallRel(offset) => {
            let imm: u64 = if offset < 0 {
                (0x7fff_ffffi64 + offset as i64) as u64
            } else {
                offset as u64
            };
            Ok(
                Instruction {
                    offdst: 0,
                    offop0: 1,
                    offop1: 1,
                    imm: Some(imm),
                    dst: 0,
                    op0: 0,
                    op1: 1,
                    res: 0,
                    pc_update: 2,
                    ap_update: 0,
                    opcode: 1,
                },
            )
        },
        CasmInstruction::CallAbs(address) => Ok(
            Instruction {
                offdst: 0,
                offop0: 1,
                offop1: 1,
                imm: Some(address),
                dst: 0,
                op0: 0,
                op1: 1,
                res: 0,
                pc_update: 1,
                ap_update: 0,
                opcode: 1,
            },
        ),
        CasmInstruction::Store { left, op, incr_ap } => {
            let (offdst, dst) = match cell_fields(left) {
                Ok(f) => f,
                Err(e) => {
                    return Err(e);
                },
            };
            let (offop1, op1, imm) = match source_fields(op) {
                Ok(f) => f,
                Err(e) => {
                    return Err(e);
                },
            };
            let ap_update: u8 = if incr_ap {
                2
            } else {
                0
            };
            Ok(
                Instruction {
                    offdst,
                    offop0: -1,
                    offop1,
                    imm,
                    dst,
                    op0: 1,
                    op1,
                    res: 0,
                    pc_update: 0,
                    ap_update,
                    opcode: 4,
                },
            )
        },
        CasmInstruction::Add { left, op1, op2 } => build_arith(left, op1, op2, 1),
        CasmInstruction::Mul { left, op1, op2 } => build_arith(left, op1, op2, 2),
        CasmInstruction::Ret => Ok(
            Instruction {
                offdst: -2,
                offop0: -1,
                offop1: -1,
                imm: None,
                dst: 1,
                op0: 1,
                op1: 2,
                res: 0,
                pc_update: 1,
                ap_update: 0,
                opcode: 2,
            },
        ),
        CasmInstruction::IncrAp(n) => Ok(
            Instruction {
                offdst: -1,
                offop0: -1,
                offop1: 1,
                imm: Some(n),
                dst: 1,
                op0: 1,
                op1: 1,
                res: 0,
                pc_update: 0,
                ap_update: 1,
                opcode: 0,
            },
        ),
        _ => Err(CompileError::UnsupportedConstruct),
    }
}

/// Encodes `left = op1 (+|*) op2, ap++`, with `res` 1 for addition and 2 for
/// multiplication.
fn build_arith(left: Operand, op1: Operand, op2: Operand, res: u8) -> (r: Result<
    Instruction,
    CompileError,
>)
    requires
        res == 1 || res == 2,
    ensures
        r == arith(left, op1, op2, res),
{
    let (offdst, dst) = match cell_fields(left) {
        Ok(f) => f,
        Err(e) => {
            return Err(e);
        },
    };
    let (offop0, op0) = match cell_fields(op1) {
        Ok(f) => f,
        Err(e) => {
            return Err(e);
        },
    };
    let (offop1, op1_flag, imm) = match source_fields(op2) {
        Ok(f) => f,
        Err(e) => {
            return Err(e);
        },
    };
    Ok(
        Instruction {
            offdst,
            offop0,
            offop1,
            imm,
            dst,
            op0,
            op1: op1_flag,
            res,
            pc_update: 0,
            ap_update: 2,
            opcode: 4,
        },
    )
}

/// The number of words an encodable instruction occupies.
fn nops(i: &CasmInstruction) -> (r: Result<u64, CompileError>)
    ensures
        match encode(*i) {
            Ok(ins) => r == Ok::<u64, CompileError>(ins.size() as u64),
            Err(e) => r == Err::<u64, CompileError>(e),
        },
{
    match build_instruction(i.clone()) {
        Ok(bytecode) => {
            if bytecode.imm.is_some() {
                Ok(2)
            } else {
                Ok(1)
            }
        },
        Err(e) => Err(e),
    }
}

/// Words an instruction occupies in the resolved stream: none for a label,
/// two for a symbolic call, and its encoded size for the rest.
pub open spec fn casm_size(c: CasmInstruction) -> nat {
    match c {
        CasmInstruction::Label(_) => 0,
        CasmInstruction::Call(_) => 2,
        _ => match encode(c) {
            Ok(i) => i.size(),
            Err(_) => 0,
        },
    }
}

/// The address of the `n`-th instruction of `s`: the words before it.
pub open spec fn address(s: Seq<CasmInstruction>, n: int) -> nat
    decreases n,
{
    if n <= 0 {
        0
    } else {
        address(s, n - 1) + casm_size(s[n - 1])
    }
}

/// The address of each label among the first `n` instructions of `s`; a later
/// label of the same name wins.
pub open spec fn labels(s: Seq<CasmInstruction>, n: int) -> Map<Seq<char>, u64>
    decreases n,
{
    if n <= 0 {
        Map::empty()
    } else {
        match s[n - 1] {
            CasmInstruction::Label(l) => labels(s, n - 1).insert(l@, address(s, n - 1) as u64),
            _ => labels(s, n - 1),
        }
    }
}

/// The first encoding error among the first `n` instructions, labels and
/// symbolic calls aside.
pub open spec fn first_encode_error(s: Seq<CasmInstruction>, n: int) -> Option<CompileError>
    decreases n,
{
    if n <= 0 {
        None
    } else {
        match first_encode_error(s, n - 1) {
            Some(e) => Some(e),
            None => match s[n - 1] {
                CasmInstruction::Label(_) => None,
                CasmInstruction::Call(_) => None,
                c => match encode(c) {
                    Ok(_) => None,
                    Err(e) => Some(e),
                },
            },
        }
    }
}

/// The first call among the first `n` instructions whose label `m` lacks.
pub open spec fn first_unknown_label(s: Seq<CasmInstruction>, n: int, m: Map<Seq<char>, u64>) -> Option<String>
    decreases n,
{
    if n <= 0 {
        None
    } else {
        match first_unknown_label(s, n - 1, m) {
            Some(l) => Some(l),
            None => match s[n - 1] {
                CasmInstruction::Call(l) => if m.contains_key(l@) {
                    None
                } else {
                    Some(l)
                },
                _ => None,
            },
        }
    }
}

/// The relative call that replaces a call at address `site` to a label at
/// address `target`.
pub open spec fn call_rel(target: u64, site: nat) -> CasmInstruction {
    CasmInstruction::CallRel((target - site) as i32)
}

/// The first `n` instructions of `s` with labels erased and each call
/// replaced by a relative call to its label's address in `m`.
pub open spec fn rewrite(s: Seq<CasmInstruction>, n: int, m: Map<Seq<char>, u64>) -> Seq<CasmInstruction>
    decreases n,
{
    if n <= 0 {
        Seq::empty()
    } else {
        match s[n - 1] {
            CasmInstruction::Label(_) => rewrite(s, n - 1, m),
            CasmInstruction::Call(l) => rewrite(s, n - 1, m).push(call_rel(m[l@], address(s, n - 1))),
            c => rewrite(s, n - 1, m).push(c),
        }
    }
}

/// Encodes the first `n` instructions of `s`, or gives the first error.
pub open spec fn encode_prefix(s: Seq<CasmInstruction>, n: int) -> Result<Seq<Instruction>, CompileError>
    decreases n,
{
    if n <= 0 {
        Ok(Seq::empty())
    } else {
        match encode_prefix(s, n - 1) {
            Err(e) => Err(e),
            Ok(v) => match encode(s[n - 1]) {
                Ok(i) => Ok(v.push(i)),
                Err(e) => Err(e),
            },
        }
    }
}

/// The data words of a program: each instruction's word, followed by its
/// immediate when it has one.
pub open spec fn data_words(v: Seq<Instruction>) -> Seq<u64>
    decreases v.len(),
{
    if v.len() == 0 {
        Seq::empty()
    } else {
        let w = data_words(v.drop_last()).push(v.last().word());
        match v.last().imm {
            Some(imm) => w.push(imm),
            None => w,
        }
    }
}

proof fn lemma_address_bound(s: Seq<CasmInstruction>, n: int)
    requires
        0 <= n <= s.len(),
    ensures
        address(s, n) <= 2 * n,
    decreases n,
{
    if n > 0 {
        lemma_address_bound(s, n - 1);
    }
}

proof fn lemma_label_bound(s: Seq<CasmInstruction>, n: int, k: Seq<char>)
    requires
        0 <= n <= s.len(),
        labels(s, n).contains_key(k),
    ensures
        labels(s, n)[k] <= 2 * n,
    decreases n,
{
    if n > 0 {
        lemma_address_bound(s, n - 1);
        if labels(s, n - 1).contains_key(k) {
            lemma_label_bound(s, n - 1, k);
        }
    }
}

proof fn lemma_no_encode_error(s: Seq<CasmInstruction>, n: int, i: int)
    requires
        0 <= i < n <= s.len(),
        first_encode_error(s, n) is None,
        !(s[i] is Label),
        !(s[i] is Call),
    ensures
        encode(s[i]) is Ok,
    decreases n,
{
    if i < n - 1 {
        lemma_no_encode_error(s, n - 1, i);
    }
}

proof fn lemma_no_unknown_label(s: Seq<CasmInstruction>, n: int, m: Map<Seq<char>, u64>, i: int)
    requires
        0 <= i < n <= s.len(),
        first_unknown_label(s, n, m) is None,
        s[i] is Call,
    ensures
        m.contains_key(s[i]->Call_0@),
    decreases n,
{
    if i < n - 1 {
        lemma_no_unknown_label(s, n - 1, m, i);
    }
}

proof fn lemma_encode_error_stable(s: Seq<CasmInstruction>, i: int, n: int)
    requires
        0 <= i <= n,
        first_encode_error(s, i) is Some,
    ensures
        first_encode_error(s, n) == first_encode_error(s, i),
    decreases n - i,
{
    if n > i {
        lemma_encode_error_stable(s, i, n - 1);
    }
}

proof fn lemma_unknown_label_stable(s: Seq<CasmInstruction>, m: Map<Seq<char>, u64>, i: int, n: int)
    requires
        0 <= i <= n,
        first_unknown_label(s, i, m) is Some,
    ensures
        first_unknown_label(s, n, m) == first_unknown_label(s, i, m),
    decreases n - i,
{
    if n > i {
        lemma_unknown_label_stable(s, m, i, n - 1);
    }
}

proof fn lemma_encode_prefix_error_stable(s: Seq<CasmInstruction>, i: int, n: int)
    requires
        0 <= i <= n,
        encode_prefix(s, i) is Err,
    ensures
        encode_prefix(s, n) == encode_prefix(s, i),
    decreases n - i,
{
    if n > i {
        lemma_encode_prefix_error_stable(s, i, n - 1);
    }
}

proof fn lemma_rewrite_prefix(s: Seq<CasmInstruction>, m: Map<Seq<char>, u64>, i: int, j: int)
    requires
        0 <= i <= j,
    ensures
        rewrite(s, i, m).len() <= rewrite(s, j, m).len(),
        forall|k: int| 0 <= k < rewrite(s, i, m).len() ==> #[trigger] rewrite(s, j, m)[k] == rewrite(s, i, m)[k],
    decreases j - i,
{
    if j > i {
        lemma_rewrite_prefix(s, m, i, j - 1);
    }
}

/// Each call of the input becomes, at its place in the resolved stream, a
/// relative call whose distance is its label's address minus the address of
/// the call itself, both as the first pass assigns them.
pub proof fn lemma_call_resolution(s: Seq<CasmInstruction>, i: int)
    requires
        0 <= i < s.len() < 0x4000_0000,
        s[i] is Call,
        labels(s, s.len() as int).contains_key(s[i]->Call_0@),
    ensures
        ({
            let m = labels(s, s.len() as int);
            let out = rewrite(s, s.len() as int, m);
            let at = rewrite(s, i, m).len() as int;
            &&& at < out.len()
            &&& out[at] is CallRel
            &&& out[at]->CallRel_0 == m[s[i]->Call_0@] - address(s, i)
        }),
{
    let m = labels(s, s.len() as int);
    lemma_rewrite_prefix(s, m, i + 1, s.len() as int);
    lemma_label_bound(s, s.len() as int, s[i]->Call_0@);
    lemma_address_bound(s, i);
}

/// The assembler: resolves labels and calls, then encodes.
pub struct Assembler {
    pub casm: Vec<CasmInstruction>,
    pub instructions: Vec<Instruction>,
    pub function_addresses: SymbolTable<u64>,
}

impl Assembler {
    pub open spec fn wf(&self) -> bool {
        &&& self.function_addresses.wf()
        &&& forall|i: int| 0 <= i < self.instructions@.len() ==> #[trigger] self.instructions@[i].wf()
    }

    pub fn new() -> (r: Self)
        ensures
            r.wf(),
            r.casm@.len() == 0,
            r.instructions@.len() == 0,
            r.function_addresses@ == Map::<Seq<char>, u64>::empty(),
    {
        Assembler { casm: Vec::new(), instructions: Vec::new(), function_addresses: SymbolTable::new() }
    }

    /// Assigns an address to every label, then erases the labels and replaces
    /// every symbolic call by a relative call to its label. Fails on the first
    /// instruction that cannot be encoded, then on the first call to a label
    /// the program lacks.
    pub fn resolve_calls(&mut self) -> (r: Result<(), CompileError>)
        requires
            old(self).wf(),
            old(self).casm@.len() < 0x4000_0000,
        ensures
            final(self).wf(),
            final(self).instructions == old(self).instructions,
            ({
                let s = old(self).casm@;
                let m = labels(s, s.len() as int);
                match first_encode_error(s, s.len() as int) {
                    Some(e) => r == Err::<(), CompileError>(e),
                    None => match first_unknown_label(s, s.len() as int, m) {
                        Some(l) => r == Err::<(), CompileError>(CompileError::UnknownLabel(l)),
                        None => {
                            &&& r is Ok
                            &&& final(self).casm@ == rewrite(s, s.len() as int, m)
                            &&& final(self).function_addresses@ == m
                        },
                    },
                }
            }),
    {
        let ghost s = self.casm@;
        let n = self.casm.len();
        self.function_addresses.clear();
        let mut instruction_number: u64 = 0;
        let mut i: usize = 0;
        while i < n
            invariant
                n == s.len(),
                s == self.casm@,
                s == old(self).casm@,
                n < 0x4000_0000,
                i <= n,
                self.wf(),
                self.instructions == old(self).instructions,
                instruction_number == address(s, i as int),
                self.function_addresses@ == labels(s, i as int),
                first_encode_error(s, i as int) is None,
            decreases n - i,
        {
            proof {
                lemma_address_bound(s, i as int);
            }
            match &self.casm[i] {
                CasmInstruction::Label(label) => {
                    self.function_addresses.insert(label.clone(), instruction_number);
                },
                CasmInstruction::Call(_) => {
                    instruction_number = instruction_number + 2;
                },
                other => {
                    match nops(other) {
                        Ok(size) => {
                            instruction_number = instruction_number + size;
                        },
                        Err(e) => {
                            proof {
                                lemma_encode_error_stable(s, i + 1, n as int);
                            }
                            return Err(e);
                        },
                    }
                },
            }
            i = i + 1;
        }
        let ghost m = labels(s, n as int);
        let mut resolved: Vec<CasmInstruction> = Vec::new();
        instruction_number = 0;
        i = 0;
        while i < n
            invariant
                n == s.len(),
                s == self.casm@,
                s == old(self).casm@,
                n < 0x4000_0000,
                i <= n,
                self.wf(),
                self.instructions == old(self).instructions,
                m == labels(s, n as int),
                self.function_addresses@ == m,
                first_encode_error(s, n as int) is None,
                instruction_number == address(s, i as int),
                first_unknown_label(s, i as int, m) is None,
                resolved@ == rewrite(s, i as int, m),
            decreases n - i,
        {
            proof {
                lemma_address_bound(s, i as int);
            }
            match &self.casm[i] {
                CasmInstruction::Call(label) => {
                    match self.function_addresses.get(label) {
                        Some(target) => {
                            proof {
                                lemma_label_bound(s, n as int, label@);
                            }
                            let offset = (target as i64 - instruction_number as i64) as i32;
                            resolved.push(CasmInstruction::CallRel(offset));
                            instruction_number = instruction_number + 2;
                        },
                        None => {
                            proof {
                                lemma_unknown_label_stable(s, m, i + 1, n as int);
                            }
                            return Err(CompileError::UnknownLabel(label.clone()));
                        },
                    }
                },
                CasmInstruction::Label(_) => {},
                other => {
                    proof {
                        lemma_no_encode_error(s, n as int, i as int);
                    }
                    match nops(other) {
                        Ok(size) => {
                            instruction_number = instruction_number + size;
                        },
                        Err(e) => {
                            return Err(e);
                        },
                    }
                    resolved.push(other.clone());
                },
            }
            i = i + 1;
        }
        self.casm = resolved;
        Ok(())
    }

    /// Encodes the resolved stream, appending to `instructions`; fails on the
    /// first instruction that has no encoding.
    pub fn build_instructions(&mut self) -> (r: Result<(), CompileError>)
        requires
            old(self).wf(),
        ensures
            final(self).wf(),
            final(self).casm == old(self).casm,
            final(self).function_addresses == old(self).function_addresses,
            match encode_prefix(old(self).casm@, old(self).casm@.len() as int) {
                Ok(v) => r is Ok && final(self).instructions@ == old(self).instructions@ + v,
                Err(e) => r == Err::<(), CompileError>(e),
            },
    {
        let n = self.casm.len();
        let mut i: usize = 0;
        while i < n
            invariant
                n == self.casm@.len(),
                i <= n,
                self.wf(),
                self.casm == old(self).casm,
                self.function_addresses == old(self).function_addresses,
                encode_prefix(self.casm@, i as int) is Ok,
                self.instructions@ == old(self).instructions@ + encode_prefix(
                    self.casm@,
                    i as int,
                )->Ok_0,
            decreases n - i,
        {
            match build_instruction(self.casm[i].clone()) {
                Ok(ins) => {
                    self.instructions.push(ins);
                    assert(self.instructions@ =~= old(self).instructions@ + encode_prefix(
                        self.casm@,
                        i + 1,
                    )->Ok_0);
                },
                Err(e) => {
                    proof {
                        lemma_encode_prefix_error_stable(self.casm@, i + 1, n as int);
                    }
                    return Err(e);
                },
            }
            i = i + 1;
        }
        Ok(())
    }

    /// The data words of the encoded program, in program order.
    pub fn data(&self) -> (r: Vec<u64>)
        requires
            self.wf(),
        ensures
            r@ == data_words(self.instructions@),
    {
        let mut r: Vec<u64> = Vec::new();
        let mut i: usize = 0;
        while i < self.instructions.len()
            invariant
                i <= self.instructions@.len(),
                self.wf(),
                r@ == data_words(self.instructions@.subrange(0, i as int)),
            decreases self.instructions@.len() - i,
        {
            let (word, imm) = self.instructions[i].to_bytes();
            r.push(word);
            match imm {
                Some(v) => r.push(v),
                None => {},
            }
            assert(self.instructions@.subrange(0, i + 1).drop_last() =~= self.instructions@.subrange(0, i as int));
            i = i + 1;
        }
        assert(self.instructions@.subrange(0, i as int) =~= self.instructions@);
        r
    }
}

} // verus!
