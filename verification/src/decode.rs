//! Instruction decoding: the bit fields of a 32-bit instruction word, the
//! five immediate formats and the table from encodings to instructions.

use vstd::prelude::*;
use crate::alu::{lemma_signed64, sign_extend, signed64, AluOp};

verus! {

/// The word that stops the processor: the canonical no-op `addi zero, zero, 0`.
pub const HALT_WORD: u32 = 0x0000_0013;

/// The loads, by width and extension.
#[derive(Clone, Copy, Debug, PartialEq, Eq, Structural)]
pub enum LoadOp {
    Lb,
    Lh,
    Lw,
    Ld,
    Lbu,
    Lhu,
    Lwu,
}

/// The stores, by width.
#[derive(Clone, Copy, Debug, PartialEq, Eq, Structural)]
pub enum StoreOp {
    Sb,
    Sh,
    Sw,
    Sd,
}

/// The conditions of the conditional branches.
#[derive(Clone, Copy, Debug, PartialEq, Eq, Structural)]
pub enum BranchOp {
    Beq,
    Bne,
    Blt,
    Bge,
    Bltu,
    Bgeu,
}

/// A decoded instruction. Immediates are sign-extended to 64 bits; the
/// immediate of a shift is its shift amount.
#[allow(inconsistent_fields)]
#[derive(Clone, Copy, Debug, PartialEq, Eq, Structural)]
pub enum Instr {
    /// The halt word.
    Halt,
    /// `rd` gets what is read at `rs1 + imm`.
    Load { op: LoadOp, rd: u32, rs1: u32, imm: u64 },
    /// The low bytes of `rs2` are written at `rs1 + imm`.
    Store { op: StoreOp, rs1: u32, rs2: u32, imm: u64 },
    /// `rd` gets `op` of `rs1` and the immediate.
    OpImm { op: AluOp, rd: u32, rs1: u32, imm: u64 },
    /// `rd` gets `op` of `rs1` and `rs2`.
    Op { op: AluOp, rd: u32, rs1: u32, rs2: u32 },
    /// `rd` gets the immediate.
    Lui { rd: u32, imm: u64 },
    /// `rd` gets the address of the instruction plus the immediate.
    Auipc { rd: u32, imm: u64 },
    /// Where the condition holds of `rs1` and `rs2`, execution goes on at
    /// the address of the instruction plus the immediate.
    Branch { op: BranchOp, rs1: u32, rs2: u32, imm: u64 },
    /// `rd` gets the address of the next instruction, and execution goes on
    /// at `rs1 + imm` with bit 0 cleared.
    Jalr { rd: u32, rs1: u32, imm: u64 },
    /// `rd` gets the address of the next instruction, and execution goes on
    /// at the address of the instruction plus the immediate.
    Jal { rd: u32, imm: u64 },
}

impl Instr {
    /// Every register number of the instruction names one of the 32 registers.
    pub open spec fn wf(self) -> bool {
        match self {
            Instr::Halt => true,
            Instr::Load { op, rd, rs1, imm } => rd < 32 && rs1 < 32,
            Instr::Store { op, rs1, rs2, imm } => rs1 < 32 && rs2 < 32,
            Instr::OpImm { op, rd, rs1, imm } => rd < 32 && rs1 < 32,
            Instr::Op { op, rd, rs1, rs2 } => rd < 32 && rs1 < 32 && rs2 < 32,
            Instr::Lui { rd, imm } => rd < 32,
            Instr::Auipc { rd, imm } => rd < 32,
            Instr::Branch { op, rs1, rs2, imm } => rs1 < 32 && rs2 < 32,
            Instr::Jalr { rd, rs1, imm } => rd < 32 && rs1 < 32,
            Instr::Jal { rd, imm } => rd < 32,
        }
    }
}

/// Bits 6 to 0.
pub open spec fn opcode(w: u32) -> u32 {
    w & 0x7f
}

/// Bits 11 to 7.
pub open spec fn rd(w: u32) -> u32 {
    (w >> 7) & 0x1f
}

/// Bits 14 to 12.
pub open spec fn funct3(w: u32) -> u32 {
    (w >> 12) & 0x7
}

/// Bits 19 to 15.
pub open spec fn rs1(w: u32) -> u32 {
    (w >> 15) & 0x1f
}

/// Bits 24 to 20.
pub open spec fn rs2(w: u32) -> u32 {
    (w >> 20) & 0x1f
}

/// Bits 31 to 25.
pub open spec fn funct7(w: u32) -> u32 {
    w >> 25
}

/// Bits 31 to 26: what is left of `funct7` above a six-bit shift amount.
pub open spec fn funct6(w: u32) -> u32 {
    w >> 26
}

/// Bits 25 to 20: the shift amount of a shift on the full register.
pub open spec fn shamt(w: u32) -> u32 {
    (w >> 20) & 0x3f
}

/// The twelve bits of an I-type immediate: bits 31 to 20.
pub open spec fn field_i(w: u32) -> u32 {
    w >> 20
}

/// The twelve bits of an S-type immediate: bits 31 to 25, then bits 11 to 7.
pub open spec fn field_s(w: u32) -> u32 {
    ((w >> 25) << 5) | ((w >> 7) & 0x1f)
}

/// The thirteen bits of a B-type immediate: bit 31, bit 7, bits 30 to 25,
/// bits 11 to 8, and a zero.
pub open spec fn field_b(w: u32) -> u32 {
    ((w >> 31) << 12) | (((w >> 7) & 0x1) << 11) | (((w >> 25) & 0x3f) << 5) | (((w >> 8) & 0xf)
        << 1)
}

/// The 32 bits of a U-type immediate: bits 31 to 12, then twelve zeros.
pub open spec fn field_u(w: u32) -> u32 {
    w & 0xFFFF_F000
}

/// The 21 bits of a J-type immediate: bit 31, bits 19 to 12, bit 20,
/// bits 30 to 21, and a zero.
pub open spec fn field_j(w: u32) -> u32 {
    ((w >> 31) << 20) | (((w >> 12) & 0xff) << 12) | (((w >> 20) & 0x1) << 11) | (((w >> 21)
        & 0x3ff) << 1)
}

/// The I-type immediate, sign-extended.
pub open spec fn imm_i(w: u32) -> u64 {
    sign_extend(field_i(w), 0x800)
}

/// The S-type immediate, sign-extended.
pub open spec fn imm_s(w: u32) -> u64 {
    sign_extend(field_s(w), 0x800)
}

/// The B-type immediate, sign-extended.
pub open spec fn imm_b(w: u32) -> u64 {
    sign_extend(field_b(w), 0x1000)
}

/// The U-type immediate, sign-extended.
pub open spec fn imm_u(w: u32) -> u64 {
    sign_extend(field_u(w), 0x8000_0000)
}

/// The J-type immediate, sign-extended.
pub open spec fn imm_j(w: u32) -> u64 {
    sign_extend(field_j(w), 0x10_0000)
}

/// Extracts the I-type immediate of `w`.
pub fn decode_imm_i(w: u32) -> (imm: u64)
    ensures
        imm == imm_i(w),
{
    assert(((w as i32) >> 20u32) as i64 as u64 == if (w >> 20u32) < 0x800u32 {
        (w >> 20u32) as u64
    } else {
        ((w >> 20u32) as u64 + 0xFFFF_FFFF_FFFF_F000u64) as u64
    }) by (bit_vector);
    ((w as i32) >> 20u32) as i64 as u64
}

/// Extracts the S-type immediate of `w`.
pub fn decode_imm_s(w: u32) -> (imm: u64)
    ensures
        imm == imm_s(w),
{
    let hi: u32 = ((w & 0xFE00_0000) as i32 >> 20u32) as u32;
    let lo: u32 = (w >> 7u32) & 0x1f;
    assert((((w & 0xFE00_0000u32) as i32 >> 20u32) as u32 | ((w >> 7u32) & 0x1fu32)) as i32 as i64
        as u64 == if (((w >> 25u32) << 5u32) | ((w >> 7u32) & 0x1f)) < 0x800u32 {
        (((w >> 25u32) << 5u32) | ((w >> 7u32) & 0x1f)) as u64
    } else {
        ((((w >> 25u32) << 5u32) | ((w >> 7u32) & 0x1f)) as u64 + 0xFFFF_FFFF_FFFF_F000u64) as u64
    }) by (bit_vector);
    (hi | lo) as i32 as i64 as u64
}

/// Extracts the B-type immediate of `w`.
pub fn decode_imm_b(w: u32) -> (imm: u64)
    ensures
        imm == imm_b(w),
{
    let sign: u32 = ((w & 0x8000_0000) as i32 >> 19u32) as u32;
    let b11: u32 = (w & 0x80) << 4u32;
    let mid: u32 = (w >> 20u32) & 0x7e0;
    let low: u32 = (w >> 7u32) & 0x1e;
    assert((((w & 0x8000_0000u32) as i32 >> 19u32) as u32 | ((w & 0x80u32) << 4u32) | ((w >> 20u32)
        & 0x7e0u32) | ((w >> 7u32) & 0x1eu32)) as i32 as i64 as u64 == if (((w >> 31u32) << 12u32)
        | (((w >> 7u32) & 0x1) << 11u32) | (((w >> 25u32) & 0x3f) << 5u32) | (((w >> 8u32) & 0xf)
        << 1u32)) < 0x1000u32 {
        (((w >> 31u32) << 12u32) | (((w >> 7u32) & 0x1) << 11u32) | (((w >> 25u32) & 0x3f) << 5u32)
            | (((w >> 8u32) & 0xf) << 1u32)) as u64
    } else {
        ((((w >> 31u32) << 12u32) | (((w >> 7u32) & 0x1) << 11u32) | (((w >> 25u32) & 0x3f)
            << 5u32) | (((w >> 8u32) & 0xf) << 1u32)) as u64 + 0xFFFF_FFFF_FFFF_E000u64) as u64
    }) by (bit_vector);
    (sign | b11 | mid | low) as i32 as i64 as u64
}

/// Extracts the U-type immediate of `w`.
pub fn decode_imm_u(w: u32) -> (imm: u64)
    ensures
        imm == imm_u(w),
{
    assert((w & 0xFFFF_F000u32) as i32 as i64 as u64 == if (w & 0xFFFF_F000u32) < 0x8000_0000u32 {
        (w & 0xFFFF_F000u32) as u64
    } else {
        ((w & 0xFFFF_F000u32) as u64 + 0xFFFF_FFFF_0000_0000u64) as u64
    }) by (bit_vector);
    (w & 0xFFFF_F000) as i32 as i64 as u64
}

/// Extracts the J-type immediate of `w`.
pub fn decode_imm_j(w: u32) -> (imm: u64)
    ensures
        imm == imm_j(w),
{
    let sign: u32 = ((w & 0x8000_0000) as i32 >> 11u32) as u32;
    let high: u32 = w & 0xf_f000;
    let b11: u32 = (w >> 9u32) & 0x800;
    let low: u32 = (w >> 20u32) & 0x7fe;
    assert((((w & 0x8000_0000u32) as i32 >> 11u32) as u32 | (w & 0xf_f000u32) | ((w >> 9u32)
        & 0x800u32) | ((w >> 20u32) & 0x7feu32)) as i32 as i64 as u64 == if (((w >> 31u32) << 20u32)
        | (((w >> 12u32) & 0xff) << 12u32) | (((w >> 20u32) & 0x1) << 11u32) | (((w >> 21u32)
        & 0x3ff) << 1u32)) < 0x10_0000u32 {
        (((w >> 31u32) << 20u32) | (((w >> 12u32) & 0xff) << 12u32) | (((w >> 20u32) & 0x1)
            << 11u32) | (((w >> 21u32) & 0x3ff) << 1u32)) as u64
    } else {
        ((((w >> 31u32) << 20u32) | (((w >> 12u32) & 0xff) << 12u32) | (((w >> 20u32) & 0x1)
            << 11u32) | (((w >> 21u32) & 0x3ff) << 1u32)) as u64 + 0xFFFF_FFFF_FFE0_0000u64)
            as u64
    }) by (bit_vector);
    (sign | high | b11 | low) as i32 as i64 as u64
}

/// The load selected by `funct3`.
pub open spec fn load_op(f3: u32) -> Option<LoadOp> {
    if f3 == 0 {
        Some(LoadOp::Lb)
    } else if f3 == 1 {
        Some(LoadOp::Lh)
    } else if f3 == 2 {
        Some(LoadOp::Lw)
    } else if f3 == 3 {
        Some(LoadOp::Ld)
    } else if f3 == 4 {
        Some(LoadOp::Lbu)
    } else if f3 == 5 {
        Some(LoadOp::Lhu)
    } else if f3 == 6 {
        Some(LoadOp::Lwu)
    } else {
        None
    }
}

/// The store selected by `funct3`.
pub open spec fn store_op(f3: u32) -> Option<StoreOp> {
    if f3 == 0 {
        Some(StoreOp::Sb)
    } else if f3 == 1 {
        Some(StoreOp::Sh)
    } else if f3 == 2 {
        Some(StoreOp::Sw)
    } else if f3 == 3 {
        Some(StoreOp::Sd)
    } else {
        None
    }
}

/// The branch selected by `funct3`.
pub open spec fn branch_op(f3: u32) -> Option<BranchOp> {
    if f3 == 0 {
        Some(BranchOp::Beq)
    } else if f3 == 1 {
        Some(BranchOp::Bne)
    } else if f3 == 4 {
        Some(BranchOp::Blt)
    } else if f3 == 5 {
        Some(BranchOp::Bge)
    } else if f3 == 6 {
        Some(BranchOp::Bltu)
    } else if f3 == 7 {
        Some(BranchOp::Bgeu)
    } else {
        None
    }
}

/// The operation of a register-immediate instruction on the full register.
/// A shift is legal only with the bits above its six-bit amount as given here.
pub open spec fn op_imm(f3: u32, f6: u32) -> Option<AluOp> {
    if f3 == 0 {
        Some(AluOp::Add)
    } else if f3 == 1 {
        if f6 == 0 { Some(AluOp::Sll) } else { None }
    } else if f3 == 2 {
        Some(AluOp::Slt)
    } else if f3 == 3 {
        Some(AluOp::Sltu)
    } else if f3 == 4 {
        Some(AluOp::Xor)
    } else if f3 == 5 {
        if f6 == 0 { Some(AluOp::Srl) } else if f6 == 0x10 { Some(AluOp::Sra) } else { None }
    } else if f3 == 6 {
        Some(AluOp::Or)
    } else if f3 == 7 {
        Some(AluOp::And)
    } else {
        None
    }
}

/// The operation of a register-immediate instruction on 32-bit words.
/// A shift is legal only with the bits above its five-bit amount as given here.
pub open spec fn op_imm32(f3: u32, f7: u32) -> Option<AluOp> {
    if f3 == 0 {
        Some(AluOp::Addw)
    } else if f3 == 1 {
        if f7 == 0 { Some(AluOp::Sllw) } else { None }
    } else if f3 == 5 {
        if f7 == 0 { Some(AluOp::Srlw) } else if f7 == 0x20 { Some(AluOp::Sraw) } else { None }
    } else {
        None
    }
}

/// The operation of a register-register instruction on the full registers.
pub open spec fn op_reg(f3: u32, f7: u32) -> Option<AluOp> {
    if f7 == 0 {
        if f3 == 0 {
            Some(AluOp::Add)
        } else if f3 == 1 {
            Some(AluOp::Sll)
        } else if f3 == 2 {
            Some(AluOp::Slt)
        } else if f3 == 3 {
            Some(AluOp::Sltu)
        } else if f3 == 4 {
            Some(AluOp::Xor)
        } else if f3 == 5 {
            Some(AluOp::Srl)
        } else if f3 == 6 {
            Some(AluOp::Or)
        } else if f3 == 7 {
            Some(AluOp::And)
        } else {
            None
        }
    } else if f7 == 0x20 {
        if f3 == 0 {
            Some(AluOp::Sub)
        } else if f3 == 5 {
            Some(AluOp::Sra)
        } else {
            None
        }
    } else if f7 == 1 {
        if f3 == 0 {
            Some(AluOp::Mul)
        } else if f3 == 1 {
            Some(AluOp::Mulh)
        } else if f3 == 2 {
            Some(AluOp::Mulhsu)
        } else if f3 == 3 {
            Some(AluOp::Mulhu)
        } else if f3 == 4 {
            Some(AluOp::Div)
        } else if f3 == 5 {
            Some(AluOp::Divu)
        } else if f3 == 6 {
            Some(AluOp::Rem)
        } else if f3 == 7 {
            Some(AluOp::Remu)
        } else {
            None
        }
    } else {
        None
    }
}

/// The operation of a register-register instruction on 32-bit words.
pub open spec fn op_reg32(f3: u32, f7: u32) -> Option<AluOp> {
    if f7 == 0 {
        if f3 == 0 {
            Some(AluOp::Addw)
        } else if f3 == 1 {
            Some(AluOp::Sllw)
        } else if f3 == 5 {
            Some(AluOp::Srlw)
        } else {
            None
        }
    } else if f7 == 0x20 {
        if f3 == 0 {
            Some(AluOp::Subw)
        } else if f3 == 5 {
            Some(AluOp::Sraw)
        } else {
            None
        }
    } else if f7 == 1 {
        if f3 == 0 {
            Some(AluOp::Mulw)
        } else if f3 == 4 {
            Some(AluOp::Divw)
        } else if f3 == 5 {
            Some(AluOp::Divuw)
        } else if f3 == 6 {
            Some(AluOp::Remw)
        } else if f3 == 7 {
            Some(AluOp::Remuw)
        } else {
            None
        }
    } else {
        None
    }
}

/// Whether `op` is a shift, whose immediate form carries a shift amount.
pub open spec fn is_shift(op: AluOp) -> bool {
    match op {
        AluOp::Sll | AluOp::Srl | AluOp::Sra | AluOp::Sllw | AluOp::Srlw | AluOp::Sraw => true,
        _ => false,
    }
}

/// The instruction that the word `w` encodes, or `None` for an illegal
/// instruction: an opcode outside the table, a combination of `funct3` and
/// `funct7` that its opcode does not list, or a shift-immediate with
/// reserved bits set.
pub open spec fn decode_spec(w: u32) -> Option<Instr> {
    if w == HALT_WORD {
        Some(Instr::Halt)
    } else if opcode(w) == 0x03 {
        match load_op(funct3(w)) {
            Some(op) => Some(Instr::Load { op, rd: rd(w), rs1: rs1(w), imm: imm_i(w) }),
            None => None,
        }
    } else if opcode(w) == 0x13 {
        match op_imm(funct3(w), funct6(w)) {
            Some(op) => Some(
                Instr::OpImm {
                    op,
                    rd: rd(w),
                    rs1: rs1(w),
                    imm: if is_shift(op) { shamt(w) as u64 } else { imm_i(w) },
                },
            ),
            None => None,
        }
    } else if opcode(w) == 0x17 {
        Some(Instr::Auipc { rd: rd(w), imm: imm_u(w) })
    } else if opcode(w) == 0x1B {
        match op_imm32(funct3(w), funct7(w)) {
            Some(op) => Some(
                Instr::OpImm {
                    op,
                    rd: rd(w),
                    rs1: rs1(w),
                    imm: if is_shift(op) { rs2(w) as u64 } else { imm_i(w) },
                },
            ),
            None => None,
        }
    } else if opcode(w) == 0x23 {
        match store_op(funct3(w)) {
            Some(op) => Some(Instr::Store { op, rs1: rs1(w), rs2: rs2(w), imm: imm_s(w) }),
            None => None,
        }
    } else if opcode(w) == 0x33 {
        match op_reg(funct3(w), funct7(w)) {
            Some(op) => Some(Instr::Op { op, rd: rd(w), rs1: rs1(w), rs2: rs2(w) }),
            None => None,
        }
    } else if opcode(w) == 0x37 {
        Some(Instr::Lui { rd: rd(w), imm: imm_u(w) })
    } else if opcode(w) == 0x3B {
        match op_reg32(funct3(w), funct7(w)) {
            Some(op) => Some(Instr::Op { op, rd: rd(w), rs1: rs1(w), rs2: rs2(w) }),
            None => None,
        }
    } else if opcode(w) == 0x63 {
        match branch_op(funct3(w)) {
            Some(op) => Some(Instr::Branch { op, rs1: rs1(w), rs2: rs2(w), imm: imm_b(w) }),
            None => None,
        }
    } else if opcode(w) == 0x67 {
        Some(Instr::Jalr { rd: rd(w), rs1: rs1(w), imm: imm_i(w) })
    } else if opcode(w) == 0x6F {
        Some(Instr::Jal { rd: rd(w), imm: imm_j(w) })
    } else {
        None
    }
}

/// The register fields of any word name one of the 32 registers.
pub proof fn lemma_register_fields(w: u32)
    ensures
        rd(w) < 32,
        rs1(w) < 32,
        rs2(w) < 32,
        shamt(w) < 64,
{
    assert((w >> 7u32) & 0x1f < 32) by (bit_vector);
    assert((w >> 15u32) & 0x1f < 32) by (bit_vector);
    assert((w >> 20u32) & 0x1f < 32) by (bit_vector);
    assert((w >> 20u32) & 0x3f < 64) by (bit_vector);
}

/// The bit fields as quotients and remainders: a shift to the right by
/// `n` divides by 2^n, a mask of `n` bits takes the remainder modulo 2^n,
/// and the pieces of an immediate add up.
pub proof fn lemma_fields_arithmetic(w: u32)
    ensures
        opcode(w) == w % 0x80,
        rd(w) == (w / 0x80) % 0x20,
        funct3(w) == (w / 0x1000) % 8,
        rs1(w) == (w / 0x8000) % 0x20,
        rs2(w) == (w / 0x10_0000) % 0x20,
        funct7(w) == w / 0x200_0000,
        funct6(w) == w / 0x400_0000,
        shamt(w) == (w / 0x10_0000) % 0x40,
        field_i(w) == w / 0x10_0000,
        field_s(w) == (w / 0x200_0000) * 0x20 + (w / 0x80) % 0x20,
        field_b(w) == (w / 0x8000_0000) * 0x1000 + ((w / 0x80) % 2) * 0x800 + ((w / 0x200_0000)
            % 0x40) * 0x20 + ((w / 0x100) % 0x10) * 2,
        field_u(w) == (w / 0x1000) * 0x1000,
        field_j(w) == (w / 0x8000_0000) * 0x10_0000 + ((w / 0x1000) % 0x100) * 0x1000 + ((w
            / 0x10_0000) % 2) * 0x800 + ((w / 0x20_0000) % 0x400) * 2,
{
    assert(w & 0x7f == w % 0x80 && (w >> 7u32) & 0x1f == (w / 0x80) % 0x20 && (w >> 12u32) & 0x7
        == (w / 0x1000) % 8 && (w >> 15u32) & 0x1f == (w / 0x8000) % 0x20 && (w >> 20u32) & 0x1f
        == (w / 0x10_0000) % 0x20 && w >> 25u32 == w / 0x200_0000 && w >> 26u32 == w / 0x400_0000
        && (w >> 20u32) & 0x3f == (w / 0x10_0000) % 0x40 && w >> 20u32 == w / 0x10_0000)
        by (bit_vector);
    assert((((w >> 25u32) << 5u32) | ((w >> 7u32) & 0x1f)) == (w / 0x200_0000) * 0x20 + (w / 0x80)
        % 0x20 && (((w >> 31u32) << 12u32) | (((w >> 7u32) & 0x1) << 11u32) | (((w >> 25u32)
        & 0x3f) << 5u32) | (((w >> 8u32) & 0xf) << 1u32)) == (w / 0x8000_0000) * 0x1000 + ((w
        / 0x80) % 2) * 0x800 + ((w / 0x200_0000) % 0x40) * 0x20 + ((w / 0x100) % 0x10) * 2)
        by (bit_vector);
    assert(w & 0xFFFF_F000u32 == (w / 0x1000) * 0x1000 && (((w >> 31u32) << 20u32) | (((w >> 12u32)
        & 0xff) << 12u32) | (((w >> 20u32) & 0x1) << 11u32) | (((w >> 21u32) & 0x3ff) << 1u32))
        == (w / 0x8000_0000) * 0x10_0000 + ((w / 0x1000) % 0x100) * 0x1000 + ((w / 0x10_0000) % 2)
        * 0x800 + ((w / 0x20_0000) % 0x400) * 2) by (bit_vector);
}

/// The ranges of the immediates, as two's-complement values: twelve bits
/// for the I and S types; thirteen bits and even for the B type; 21 bits
/// and even for the J type; 32 bits and a multiple of 4096 for the U type.
pub proof fn lemma_immediate_ranges(w: u32)
    ensures
        -0x800 <= signed64(imm_i(w)) < 0x800,
        -0x800 <= signed64(imm_s(w)) < 0x800,
        -0x1000 <= signed64(imm_b(w)) < 0x1000,
        signed64(imm_b(w)) % 2 == 0,
        -0x10_0000 <= signed64(imm_j(w)) < 0x10_0000,
        signed64(imm_j(w)) % 2 == 0,
        -0x8000_0000 <= signed64(imm_u(w)) < 0x8000_0000,
        signed64(imm_u(w)) % 0x1000 == 0,
{
    assert(w >> 20u32 < 0x1000u32) by (bit_vector);
    assert((((w >> 25u32) << 5u32) | ((w >> 7u32) & 0x1f)) < 0x1000u32) by (bit_vector);
    assert((((w >> 31u32) << 12u32) | (((w >> 7u32) & 0x1) << 11u32) | (((w >> 25u32) & 0x3f)
        << 5u32) | (((w >> 8u32) & 0xf) << 1u32)) < 0x2000u32 && (((w >> 31u32) << 12u32) | (((w
        >> 7u32) & 0x1) << 11u32) | (((w >> 25u32) & 0x3f) << 5u32) | (((w >> 8u32) & 0xf)
        << 1u32)) % 2u32 == 0) by (bit_vector);
    assert((((w >> 31u32) << 20u32) | (((w >> 12u32) & 0xff) << 12u32) | (((w >> 20u32) & 0x1)
        << 11u32) | (((w >> 21u32) & 0x3ff) << 1u32)) < 0x20_0000u32 && (((w >> 31u32) << 20u32)
        | (((w >> 12u32) & 0xff) << 12u32) | (((w >> 20u32) & 0x1) << 11u32) | (((w >> 21u32)
        & 0x3ff) << 1u32)) % 2u32 == 0) by (bit_vector);
    assert((w & 0xFFFF_F000u32) % 0x1000u32 == 0) by (bit_vector);
    lemma_signed64(imm_i(w));
    lemma_signed64(imm_s(w));
    lemma_signed64(imm_b(w));
    lemma_signed64(imm_j(w));
    lemma_signed64(imm_u(w));
}

/// The halt word, and no other, decodes to `Instr::Halt`.
pub proof fn lemma_halt_word(w: u32)
    ensures
        decode_spec(w) == Some(Instr::Halt) <==> w == HALT_WORD,
{
}

/// Every register number of a decoded instruction names one of the 32 registers.
pub proof fn lemma_decode_wf(w: u32)
    ensures
        decode_spec(w) matches Some(i) ==> i.wf(),
{
    lemma_register_fields(w);
}

fn decode_load(f3: u32) -> (r: Option<LoadOp>)
    ensures
        r == load_op(f3),
{
    match f3 {
        0 => Some(LoadOp::Lb),
        1 => Some(LoadOp::Lh),
        2 => Some(LoadOp::Lw),
        3 => Some(LoadOp::Ld),
        4 => Some(LoadOp::Lbu),
        5 => Some(LoadOp::Lhu),
        6 => Some(LoadOp::Lwu),
        _ => None,
    }
}

fn decode_store(f3: u32) -> (r: Option<StoreOp>)
    ensures
        r == store_op(f3),
{
    match f3 {
        0 => Some(StoreOp::Sb),
        1 => Some(StoreOp::Sh),
        2 => Some(StoreOp::Sw),
        3 => Some(StoreOp::Sd),
        _ => None,
    }
}

fn decode_branch(f3: u32) -> (r: Option<BranchOp>)
    ensures
        r == branch_op(f3),
{
    match f3 {
        0 => Some(BranchOp::Beq),
        1 => Some(BranchOp::Bne),
        4 => Some(BranchOp::Blt),
        5 => Some(BranchOp::Bge),
        6 => Some(BranchOp::Bltu),
        7 => Some(BranchOp::Bgeu),
        _ => None,
    }
}

fn decode_op_imm(f3: u32, f6: u32) -> (r: Option<AluOp>)
    ensures
        r == op_imm(f3, f6),
{
    match (f3, f6) {
        (0, _) => Some(AluOp::Add),
        (1, 0) => Some(AluOp::Sll),
        (2, _) => Some(AluOp::Slt),
        (3, _) => Some(AluOp::Sltu),
        (4, _) => Some(AluOp::Xor),
        (5, 0) => Some(AluOp::Srl),
        (5, 0x10) => Some(AluOp::Sra),
        (6, _) => Some(AluOp::Or),
        (7, _) => Some(AluOp::And),
        _ => None,
    }
}

fn decode_op_imm32(f3: u32, f7: u32) -> (r: Option<AluOp>)
    ensures
        r == op_imm32(f3, f7),
{
    match (f3, f7) {
        (0, _) => Some(AluOp::Addw),
        (1, 0) => Some(AluOp::Sllw),
        (5, 0) => Some(AluOp::Srlw),
        (5, 0x20) => Some(AluOp::Sraw),
        _ => None,
    }
}

fn decode_op_reg(f3: u32, f7: u32) -> (r: Option<AluOp>)
    ensures
        r == op_reg(f3, f7),
{
    match (f3, f7) {
        (0, 0) => Some(AluOp::Add),
        (0, 0x20) => Some(AluOp::Sub),
        (1, 0) => Some(AluOp::Sll),
        (2, 0) => Some(AluOp::Slt),
        (3, 0) => Some(AluOp::Sltu),
        (4, 0) => Some(AluOp::Xor),
        (5, 0) => Some(AluOp::Srl),
        (5, 0x20) => Some(AluOp::Sra),
        (6, 0) => Some(AluOp::Or),
        (7, 0) => Some(AluOp::And),
        (0, 1) => Some(AluOp::Mul),
        (1, 1) => Some(AluOp::Mulh),
        (2, 1) => Some(AluOp::Mulhsu),
        (3, 1) => Some(AluOp::Mulhu),
        (4, 1) => Some(AluOp::Div),
        (5, 1) => Some(AluOp::Divu),
        (6, 1) => Some(AluOp::Rem),
        (7, 1) => Some(AluOp::Remu),
        _ => None,
    }
}

fn decode_op_reg32(f3: u32, f7: u32) -> (r: Option<AluOp>)
    ensures
        r == op_reg32(f3, f7),
{
    match (f3, f7) {
        (0, 0) => Some(AluOp::Addw),
        (0, 0x20) => Some(AluOp::Subw),
        (1, 0) => Some(AluOp::Sllw),
        (5, 0) => Some(AluOp::Srlw),
        (5, 0x20) => Some(AluOp::Sraw),
        (0, 1) => Some(AluOp::Mulw),
        (4, 1) => Some(AluOp::Divw),
        (5, 1) => Some(AluOp::Divuw),
        (6, 1) => Some(AluOp::Remw),
        (7, 1) => Some(AluOp::Remuw),
        _ => None,
    }
}

fn shift_op(op: AluOp) -> (r: bool)
    ensures
        r == is_shift(op),
{
    match op {
        AluOp::Sll | AluOp::Srl | AluOp::Sra | AluOp::Sllw | AluOp::Srlw | AluOp::Sraw => true,
        _ => false,
    }
}

/// Decodes the instruction word `w`; `None` stands for an illegal instruction.
pub fn decode(w: u32) -> (r: Option<Instr>)
    ensures
        r == decode_spec(w),
        r matches Some(i) ==> i.wf(),
{
    proof {
            lemma_register_fields(w);
    }
    if w == HALT_WORD {
        return Some(Instr::Halt);
    }
    let f3: u32 = (w >> 12u32) & 0x7;
    let f7: u32 = w >> 25u32;
    let rd: u32 = (w >> 7u32) & 0x1f;
    let rs1: u32 = (w >> 15u32) & 0x1f;
    let rs2: u32 = (w >> 20u32) & 0x1f;
    match w & 0x7f {
        0x03 => match decode_load(f3) {
            Some(op) => Some(Instr::Load { op, rd, rs1, imm: decode_imm_i(w) }),
            None => None,
        },
        0x13 => match decode_op_imm(f3, w >> 26u32) {
            Some(op) => {
                let imm: u64 = if shift_op(op) {
                    ((w >> 20u32) & 0x3f) as u64
                } else {
                    decode_imm_i(w)
                };
                Some(Instr::OpImm { op, rd, rs1, imm })
            },
            None => None,
        },
        0x17 => Some(Instr::Auipc { rd, imm: decode_imm_u(w) }),
        0x1B => match decode_op_imm32(f3, f7) {
            Some(op) => {
                let imm: u64 = if shift_op(op) {
                    rs2 as u64
                } else {
                    decode_imm_i(w)
                };
                Some(Instr::OpImm { op, rd, rs1, imm })
            },
            None => None,
        },
        0x23 => match decode_store(f3) {
            Some(op) => Some(Instr::Store { op, rs1, rs2, imm: decode_imm_s(w) }),
            None => None,
        },
        0x33 => match decode_op_reg(f3, f7) {
            Some(op) => Some(Instr::Op { op, rd, rs1, rs2 }),
            None => None,
        },
        0x37 => Some(Instr::Lui { rd, imm: decode_imm_u(w) }),
        0x3B => match decode_op_reg32(f3, f7) {
            Some(op) => Some(Instr::Op { op, rd, rs1, rs2 }),
            None => None,
        },
        0x63 => match decode_branch(f3) {
            Some(op) => Some(Instr::Branch { op, rs1, rs2, imm: decode_imm_b(w) }),
            None => None,
        },
        0x67 => Some(Instr::Jalr { rd, rs1, imm: decode_imm_i(w) }),
        0x6F => Some(Instr::Jal { rd, imm: decode_imm_j(w) }),
        _ => None,
    }
}

} // verus!
