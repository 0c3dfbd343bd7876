//! The disassembler: the assembler text of an instruction word.

use vstd::prelude::*;
use crate::alu::{lemma_signed64, signed64, AluOp};
use crate::decode::{
    decode, decode_spec, funct3, opcode, rd, rs1, BranchOp, Instr, LoadOp, StoreOp,
};

verus! {

/// The ABI name of register `r`.
pub open spec fn reg_name(r: u32) -> Seq<char> {
    if r == 0 {
        "zero"@
    } else if r == 1 {
        "ra"@
    } else if r == 2 {
        "sp"@
    } else if r == 3 {
        "gp"@
    } else if r == 4 {
        "tp"@
    } else if r == 5 {
        "t0"@
    } else if r == 6 {
        "t1"@
    } else if r == 7 {
        "t2"@
    } else if r == 8 {
        "s0"@
    } else if r == 9 {
        "s1"@
    } else if r == 10 {
        "a0"@
    } else if r == 11 {
        "a1"@
    } else if r == 12 {
        "a2"@
    } else if r == 13 {
        "a3"@
    } else if r == 14 {
        "a4"@
    } else if r == 15 {
        "a5"@
    } else if r == 16 {
        "a6"@
    } else if r == 17 {
        "a7"@
    } else if r == 18 {
        "s2"@
    } else if r == 19 {
        "s3"@
    } else if r == 20 {
        "s4"@
    } else if r == 21 {
        "s5"@
    } else if r == 22 {
        "s6"@
    } else if r == 23 {
        "s7"@
    } else if r == 24 {
        "s8"@
    } else if r == 25 {
        "s9"@
    } else if r == 26 {
        "s10"@
    } else if r == 27 {
        "s11"@
    } else if r == 28 {
        "t3"@
    } else if r == 29 {
        "t4"@
    } else if r == 30 {
        "t5"@
    } else {
        "t6"@
    }
}

/// The character of the digit `d`, below 16, in lower case.
pub open spec fn digit(d: nat) -> Seq<char> {
    if d == 0 {
        "0"@
    } else if d == 1 {
        "1"@
    } else if d == 2 {
        "2"@
    } else if d == 3 {
        "3"@
    } else if d == 4 {
        "4"@
    } else if d == 5 {
        "5"@
    } else if d == 6 {
        "6"@
    } else if d == 7 {
        "7"@
    } else if d == 8 {
        "8"@
    } else if d == 9 {
        "9"@
    } else if d == 10 {
        "a"@
    } else if d == 11 {
        "b"@
    } else if d == 12 {
        "c"@
    } else if d == 13 {
        "d"@
    } else if d == 14 {
        "e"@
    } else {
        "f"@
    }
}

/// The decimal digits of `n`, without leading zeros.
pub open spec fn dec_digits(n: nat) -> Seq<char>
    decreases n,
{
    if n < 10 {
        digit(n)
    } else {
        dec_digits(n / 10) + digit(n % 10)
    }
}

/// The hexadecimal digits of `n`, padded with zeros on the left to at least
/// `width` digits.
pub open spec fn hex_digits(n: nat, width: nat) -> Seq<char>
    decreases n, width,
{
    if n < 16 && width <= 1 {
        digit(n)
    } else {
        hex_digits(n / 16, if width == 0 { 0 } else { (width - 1) as nat }) + digit(n % 16)
    }
}

/// The decimal text of the two's-complement value of `v`, with a minus sign
/// in front of a negative one.
pub open spec fn signed_dec(v: u64) -> Seq<char> {
    if signed64(v) < 0 {
        "-"@ + dec_digits((-signed64(v)) as nat)
    } else {
        dec_digits(signed64(v) as nat)
    }
}

/// The mnemonic of a load.
pub open spec fn load_name(op: LoadOp) -> Seq<char> {
    match op {
        LoadOp::Lb => "lb"@,
        LoadOp::Lh => "lh"@,
        LoadOp::Lw => "lw"@,
        LoadOp::Ld => "ld"@,
        LoadOp::Lbu => "lbu"@,
        LoadOp::Lhu => "lhu"@,
        LoadOp::Lwu => "lwu"@,
    }
}

/// The mnemonic of a store.
pub open spec fn store_name(op: StoreOp) -> Seq<char> {
    match op {
        StoreOp::Sb => "sb"@,
        StoreOp::Sh => "sh"@,
        StoreOp::Sw => "sw"@,
        StoreOp::Sd => "sd"@,
    }
}

/// The mnemonic of a branch.
pub open spec fn branch_name(op: BranchOp) -> Seq<char> {
    match op {
        BranchOp::Beq => "beq"@,
        BranchOp::Bne => "bne"@,
        BranchOp::Blt => "blt"@,
        BranchOp::Bge => "bge"@,
        BranchOp::Bltu => "bltu"@,
        BranchOp::Bgeu => "bgeu"@,
    }
}

/// The mnemonic of a register-register operation.
pub open spec fn alu_name(op: AluOp) -> Seq<char> {
    match op {
        AluOp::Add => "add"@,
        AluOp::Sub => "sub"@,
        AluOp::Sll => "sll"@,
        AluOp::Slt => "slt"@,
        AluOp::Sltu => "sltu"@,
        AluOp::Xor => "xor"@,
        AluOp::Srl => "srl"@,
        AluOp::Sra => "sra"@,
        AluOp::Or => "or"@,
        AluOp::And => "and"@,
        AluOp::Mul => "mul"@,
        AluOp::Mulh => "mulh"@,
        AluOp::Mulhsu => "mulhsu"@,
        AluOp::Mulhu => "mulhu"@,
        AluOp::Div => "div"@,
        AluOp::Divu => "divu"@,
        AluOp::Rem => "rem"@,
        AluOp::Remu => "remu"@,
        AluOp::Addw => "addw"@,
        AluOp::Subw => "subw"@,
        AluOp::Sllw => "sllw"@,
        AluOp::Srlw => "srlw"@,
        AluOp::Sraw => "sraw"@,
        AluOp::Mulw => "mulw"@,
        AluOp::Divw => "divw"@,
        AluOp::Divuw => "divuw"@,
        AluOp::Remw => "remw"@,
        AluOp::Remuw => "remuw"@,
    }
}

/// The mnemonic of a register-immediate operation. An operation that has
/// no immediate form keeps its register-register mnemonic.
pub open spec fn alu_imm_name(op: AluOp) -> Seq<char> {
    match op {
        AluOp::Add => "addi"@,
        AluOp::Sll => "slli"@,
        AluOp::Slt => "slti"@,
        AluOp::Sltu => "sltiu"@,
        AluOp::Xor => "xori"@,
        AluOp::Srl => "srli"@,
        AluOp::Sra => "srai"@,
        AluOp::Or => "ori"@,
        AluOp::And => "andi"@,
        AluOp::Addw => "addiw"@,
        AluOp::Sllw => "slliw"@,
        AluOp::Srlw => "srliw"@,
        AluOp::Sraw => "sraiw"@,
        _ => alu_name(op),
    }
}

/// The text of the immediate of a register-immediate operation: three or
/// more hexadecimal digits for the bitwise operations, signed decimal for
/// the others.
pub open spec fn alu_imm_text(op: AluOp, imm: u64) -> Seq<char> {
    match op {
        AluOp::Xor | AluOp::Or | AluOp::And => hex_digits(imm as nat, 3),
        _ => signed_dec(imm),
    }
}

/// A mnemonic, a space and the name of the first register.
pub open spec fn head(name: Seq<char>, reg: u32) -> Seq<char> {
    name + " "@ + reg_name(reg)
}

/// An offset and its base register in brackets.
pub open spec fn based(imm: u64, reg: u32) -> Seq<char> {
    signed_dec(imm) + "("@ + reg_name(reg) + ")"@
}

/// The assembler text of a decoded instruction: the mnemonic, then the
/// operands with a comma and a space between them.
pub open spec fn instr_text(i: Instr) -> Seq<char> {
    match i {
        Instr::Halt => "addi zero, zero, 0"@,
        Instr::Load { op, rd, rs1, imm } => head(load_name(op), rd) + ", "@ + based(imm, rs1),
        Instr::Store { op, rs1, rs2, imm } => head(store_name(op), rs2) + ", "@ + based(imm, rs1),
        Instr::OpImm { op, rd, rs1, imm } => head(alu_imm_name(op), rd) + ", "@ + reg_name(rs1)
            + ", "@ + alu_imm_text(op, imm),
        Instr::Op { op, rd, rs1, rs2 } => head(alu_name(op), rd) + ", "@ + reg_name(rs1) + ", "@
            + reg_name(rs2),
        Instr::Lui { rd, imm } => head("lui"@, rd) + ", "@ + hex_digits(imm as nat, 16),
        Instr::Auipc { rd, imm } => head("auipc"@, rd) + ", "@ + hex_digits(imm as nat, 8),
        Instr::Branch { op, rs1, rs2, imm } => head(branch_name(op), rs1) + ", "@ + reg_name(rs2)
            + ", "@ + signed_dec(imm),
        Instr::Jalr { rd, rs1, imm } => head("jalr"@, rd) + ", "@ + based(imm, rs1),
        Instr::Jal { rd, imm } => head("jal"@, rd) + ", "@ + signed_dec(imm),
    }
}

/// The number of the control and status register that `w` names: bits 31 to 20.
pub open spec fn csr(w: u32) -> u32 {
    w >> 20
}

/// The text of a control and status register instruction: the mnemonic, the
/// destination register, the register number in four or more hexadecimal
/// digits, and the source register, or for the immediate forms its number
/// in two hexadecimal digits.
pub open spec fn csr_text(name: Seq<char>, w: u32, immediate: bool) -> Seq<char> {
    head(name, rd(w)) + ", "@ + hex_digits(csr(w) as nat, 4) + ", "@ + if immediate {
        hex_digits(rs1(w) as nat, 2)
    } else {
        reg_name(rs1(w))
    }
}

/// The text of a word that the processor does not execute but that the
/// disassembler knows: a fence, an environment call or breakpoint, or an
/// access to a control and status register.
pub open spec fn system_text(w: u32) -> Option<Seq<char>> {
    if opcode(w) == 0x0F {
        Some("fence"@)
    } else if opcode(w) == 0x73 {
        if funct3(w) == 0 {
            if csr(w) % 2 == 0 {
                Some("ecall"@)
            } else {
                Some("ebreak"@)
            }
        } else if funct3(w) == 1 {
            Some(csr_text("csrrw"@, w, false))
        } else if funct3(w) == 2 {
            Some(csr_text("csrrs"@, w, false))
        } else if funct3(w) == 3 {
            Some(csr_text("csrrc"@, w, false))
        } else if funct3(w) == 5 {
            Some(csr_text("csrrwi"@, w, true))
        } else if funct3(w) == 6 {
            Some(csr_text("csrrsi"@, w, true))
        } else if funct3(w) == 7 {
            Some(csr_text("csrrci"@, w, true))
        } else {
            None
        }
    } else {
        None
    }
}

/// The assembler text of the instruction word `w`, or `None` where the
/// disassembler does not know `w`.
pub open spec fn disasm_spec(w: u32) -> Option<Seq<char>> {
    match decode_spec(w) {
        Some(i) => Some(instr_text(i)),
        None => system_text(w),
    }
}

/// The disassembler knows every word that the processor executes.
pub proof fn lemma_disasm_covers_decode(w: u32)
    requires
        decode_spec(w) is Some,
    ensures
        disasm_spec(w) == Some(instr_text(decode_spec(w).unwrap())),
{
}

fn reg_str(reg: u32) -> (name: &'static str)
    ensures
        name@ == reg_name(reg),
{
    match reg {
        0 => "zero",
        1 => "ra",
        2 => "sp",
        3 => "gp",
        4 => "tp",
        5 => "t0",
        6 => "t1",
        7 => "t2",
        8 => "s0",
        9 => "s1",
        10 => "a0",
        11 => "a1",
        12 => "a2",
        13 => "a3",
        14 => "a4",
        15 => "a5",
        16 => "a6",
        17 => "a7",
        18 => "s2",
        19 => "s3",
        20 => "s4",
        21 => "s5",
        22 => "s6",
        23 => "s7",
        24 => "s8",
        25 => "s9",
        26 => "s10",
        27 => "s11",
        28 => "t3",
        29 => "t4",
        30 => "t5",
        _ => "t6",
    }
}

/// The ABI name of register `reg`.
pub fn get_reg_name(reg: u32) -> (name: String)
    requires
        reg < 32,
    ensures
        name@ == reg_name(reg),
{
    String::from_str(reg_str(reg))
}

fn digit_str(d: u64) -> (c: &'static str)
    requires
        d < 16,
    ensures
        c@ == digit(d as nat),
{
    match d {
        0 => "0",
        1 => "1",
        2 => "2",
        3 => "3",
        4 => "4",
        5 => "5",
        6 => "6",
        7 => "7",
        8 => "8",
        9 => "9",
        10 => "a",
        11 => "b",
        12 => "c",
        13 => "d",
        14 => "e",
        _ => "f",
    }
}

fn push_dec(s: &mut String, n: u64)
    ensures
        final(s)@ == old(s)@ + dec_digits(n as nat),
    decreases n,
{
    if n >= 10 {
        push_dec(s, n / 10);
    }
    s.append(digit_str(n % 10));
    assert(s@ =~= old(s)@ + dec_digits(n as nat));
}

fn push_hex(s: &mut String, n: u64, width: u8)
    ensures
        final(s)@ == old(s)@ + hex_digits(n as nat, width as nat),
    decreases n, width,
{
    if n >= 16 || width > 1 {
        push_hex(s, n / 16, if width == 0 { 0 } else { width - 1 });
    }
    s.append(digit_str(n % 16));
    assert(s@ =~= old(s)@ + hex_digits(n as nat, width as nat));
}

fn push_signed(s: &mut String, v: u64)
    ensures
        final(s)@ == old(s)@ + signed_dec(v),
{
    proof {
        lemma_signed64(v);
    }
    if v >= 0x8000_0000_0000_0000 {
        s.append("-");
        push_dec(s, 0u64.wrapping_sub(v));
    } else {
        push_dec(s, v);
    }
    assert(s@ =~= old(s)@ + signed_dec(v));
}

fn load_str(op: LoadOp) -> (name: &'static str)
    ensures
        name@ == load_name(op),
{
    match op {
        LoadOp::Lb => "lb",
        LoadOp::Lh => "lh",
        LoadOp::Lw => "lw",
        LoadOp::Ld => "ld",
        LoadOp::Lbu => "lbu",
        LoadOp::Lhu => "lhu",
        LoadOp::Lwu => "lwu",
    }
}

fn store_str(op: StoreOp) -> (name: &'static str)
    ensures
        name@ == store_name(op),
{
    match op {
        StoreOp::Sb => "sb",
        StoreOp::Sh => "sh",
        StoreOp::Sw => "sw",
        StoreOp::Sd => "sd",
    }
}

fn branch_str(op: BranchOp) -> (name: &'static str)
    ensures
        name@ == branch_name(op),
{
    match op {
        BranchOp::Beq => "beq",
        BranchOp::Bne => "bne",
        BranchOp::Blt => "blt",
        BranchOp::Bge => "bge",
        BranchOp::Bltu => "bltu",
        BranchOp::Bgeu => "bgeu",
    }
}

fn alu_str(op: AluOp) -> (name: &'static str)
    ensures
        name@ == alu_name(op),
{
    match op {
        AluOp::Add => "add",
        AluOp::Sub => "sub",
        AluOp::Sll => "sll",
        AluOp::Slt => "slt",
        AluOp::Sltu => "sltu",
        AluOp::Xor => "xor",
        AluOp::Srl => "srl",
        AluOp::Sra => "sra",
        AluOp::Or => "or",
        AluOp::And => "and",
        AluOp::Mul => "mul",
        AluOp::Mulh => "mulh",
        AluOp::Mulhsu => "mulhsu",
        AluOp::Mulhu => "mulhu",
        AluOp::Div => "div",
        AluOp::Divu => "divu",
        AluOp::Rem => "rem",
        AluOp::Remu => "remu",
        AluOp::Addw => "addw",
        AluOp::Subw => "subw",
        AluOp::Sllw => "sllw",
        AluOp::Srlw => "srlw",
        AluOp::Sraw => "sraw",
        AluOp::Mulw => "mulw",
        AluOp::Divw => "divw",
        AluOp::Divuw => "divuw",
        AluOp::Remw => "remw",
        AluOp::Remuw => "remuw",
    }
}

fn alu_imm_str(op: AluOp) -> (name: &'static str)
    ensures
        name@ == alu_imm_name(op),
{
    match op {
        AluOp::Add => "addi",
        AluOp::Sll => "slli",
        AluOp::Slt => "slti",
        AluOp::Sltu => "sltiu",
        AluOp::Xor => "xori",
        AluOp::Srl => "srli",
        AluOp::Sra => "srai",
        AluOp::Or => "ori",
        AluOp::And => "andi",
        AluOp::Addw => "addiw",
        AluOp::Sllw => "slliw",
        AluOp::Srlw => "srliw",
        AluOp::Sraw => "sraiw",
        _ => alu_str(op),
    }
}

/// Starts a line: the mnemonic, a space and the name of the first register.
fn begin(name: &str, reg: u32) -> (s: String)
    ensures
        s@ == head(name@, reg),
{
    let mut s = String::from_str(name);
    s.append(" ");
    s.append(reg_str(reg));
    s
}

/// Appends a comma, a space and the name of a register.
fn push_reg(s: &mut String, reg: u32)
    ensures
        final(s)@ == old(s)@ + ", "@ + reg_name(reg),
{
    s.append(", ");
    s.append(reg_str(reg));
}

/// Appends a comma, a space, an offset and its base register in brackets.
fn push_base(s: &mut String, imm: u64, reg: u32)
    ensures
        final(s)@ == old(s)@ + ", "@ + based(imm, reg),
{
    let mut t = String::new();
    push_signed(&mut t, imm);
    t.append("(");
    t.append(reg_str(reg));
    t.append(")");
    assert(t@ =~= based(imm, reg));
    s.append(", ");
    s.append(t.as_str());
}

/// Writes a decoded instruction in assembler syntax.
pub fn disasm_instr(i: Instr) -> (text: String)
    ensures
        text@ == instr_text(i),
{
    match i {
        Instr::Halt => String::from_str("addi zero, zero, 0"),
        Instr::Load { op, rd, rs1, imm } => {
            let mut s = begin(load_str(op), rd);
            push_base(&mut s, imm, rs1);
            s
        },
        Instr::Store { op, rs1, rs2, imm } => {
            let mut s = begin(store_str(op), rs2);
            push_base(&mut s, imm, rs1);
            s
        },
        Instr::OpImm { op, rd, rs1, imm } => {
            let mut s = begin(alu_imm_str(op), rd);
            push_reg(&mut s, rs1);
            s.append(", ");
            match op {
                AluOp::Xor | AluOp::Or | AluOp::And => push_hex(&mut s, imm, 3),
                _ => push_signed(&mut s, imm),
            }
            s
        },
        Instr::Op { op, rd, rs1, rs2 } => {
            let mut s = begin(alu_str(op), rd);
            push_reg(&mut s, rs1);
            push_reg(&mut s, rs2);
            s
        },
        Instr::Lui { rd, imm } => {
            let mut s = begin("lui", rd);
            s.append(", ");
            push_hex(&mut s, imm, 16);
            s
        },
        Instr::Auipc { rd, imm } => {
            let mut s = begin("auipc", rd);
            s.append(", ");
            push_hex(&mut s, imm, 8);
            s
        },
        Instr::Branch { op, rs1, rs2, imm } => {
            let mut s = begin(branch_str(op), rs1);
            push_reg(&mut s, rs2);
            s.append(", ");
            push_signed(&mut s, imm);
            s
        },
        Instr::Jalr { rd, rs1, imm } => {
            let mut s = begin("jalr", rd);
            push_base(&mut s, imm, rs1);
            s
        },
        Instr::Jal { rd, imm } => {
            let mut s = begin("jal", rd);
            s.append(", ");
            push_signed(&mut s, imm);
            s
        },
    }
}

fn disasm_csr(name: &str, w: u32, immediate: bool) -> (text: String)
    ensures
        text@ == csr_text(name@, w, immediate),
{
    let mut s = begin(name, (w >> 7u32) & 0x1f);
    s.append(", ");
    push_hex(&mut s, (w >> 20u32) as u64, 4);
    s.append(", ");
    let rs1: u32 = (w >> 15u32) & 0x1f;
    if immediate {
        push_hex(&mut s, rs1 as u64, 2);
    } else {
        s.append(reg_str(rs1));
    }
    s
}

fn disasm_system(w: u32) -> (text: Option<String>)
    ensures
        match text {
            Some(s) => system_text(w) == Some(s@),
            None => system_text(w) is None,
        },
{
    let f3: u32 = (w >> 12u32) & 0x7;
    match w & 0x7f {
        0x0F => Some(String::from_str("fence")),
        0x73 => match f3 {
            0 => if (w >> 20u32) % 2 == 0 {
                Some(String::from_str("ecall"))
            } else {
                Some(String::from_str("ebreak"))
            },
            1 => Some(disasm_csr("csrrw", w, false)),
            2 => Some(disasm_csr("csrrs", w, false)),
            3 => Some(disasm_csr("csrrc", w, false)),
            5 => Some(disasm_csr("csrrwi", w, true)),
            6 => Some(disasm_csr("csrrsi", w, true)),
            7 => Some(disasm_csr("csrrci", w, true)),
            _ => None,
        },
        _ => None,
    }
}

/// Writes the instruction word `instr` in assembler syntax, or returns
/// `None` where the disassembler does not know the word.
pub fn try_disasm(instr: u32) -> (text: Option<String>)
    ensures
        match text {
            Some(s) => disasm_spec(instr) == Some(s@),
            None => disasm_spec(instr) is None,
        },
{
    match decode(instr) {
        Some(i) => Some(disasm_instr(i)),
        None => disasm_system(instr),
    }
}

/// Writes the instruction word `instr`, which the disassembler knows, in
/// assembler syntax.
pub fn disasm_general(instr: u32) -> (text: String)
    requires
        disasm_spec(instr) is Some,
    ensures
        Some(text@) == disasm_spec(instr),
{
    match try_disasm(instr) {
        Some(s) => s,
        None => String::new(),
    }
}

} // verus!
