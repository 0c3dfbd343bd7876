use rv64emu::alu::AluOp;
use rv64emu::decode::{
    decode, decode_imm_b, decode_imm_i, decode_imm_j, decode_imm_s, decode_imm_u, BranchOp, Instr,
    LoadOp, StoreOp, HALT_WORD,
};

fn neg(v: i64) -> u64 {
    v as u64
}

fn enc_i(opcode: u32, funct3: u32, rd: u32, rs1: u32, imm: i32) -> u32 {
    (((imm as u32) & 0xfff) << 20) | (rs1 << 15) | (funct3 << 12) | (rd << 7) | opcode
}

fn enc_r(opcode: u32, funct3: u32, funct7: u32, rd: u32, rs1: u32, rs2: u32) -> u32 {
    (funct7 << 25) | (rs2 << 20) | (rs1 << 15) | (funct3 << 12) | (rd << 7) | opcode
}

fn enc_s(funct3: u32, rs1: u32, rs2: u32, imm: i32) -> u32 {
    let imm = imm as u32;
    (((imm >> 5) & 0x7f) << 25) | (rs2 << 20) | (rs1 << 15) | (funct3 << 12) | ((imm & 0x1f) << 7)
        | 0x23
}

fn enc_b(funct3: u32, rs1: u32, rs2: u32, imm: i32) -> u32 {
    let imm = imm as u32;
    (((imm >> 12) & 1) << 31) | (((imm >> 5) & 0x3f) << 25) | (rs2 << 20) | (rs1 << 15)
        | (funct3 << 12) | (((imm >> 1) & 0xf) << 8) | (((imm >> 11) & 1) << 7) | 0x63
}

fn enc_j(rd: u32, imm: i32) -> u32 {
    let imm = imm as u32;
    (((imm >> 20) & 1) << 31) | (((imm >> 1) & 0x3ff) << 21) | (((imm >> 11) & 1) << 20)
        | (((imm >> 12) & 0xff) << 12) | (rd << 7) | 0x6f
}

#[test]
fn halt_word_decodes_to_halt() {
    assert_eq!(HALT_WORD, 0x0000_0013);
    assert_eq!(decode(0x0000_0013), Some(Instr::Halt));
}

#[test]
fn other_no_ops_are_plain_additions() {
    assert_eq!(
        decode(enc_i(0x13, 0, 0, 1, 0)),
        Some(Instr::OpImm { op: AluOp::Add, rd: 0, rs1: 1, imm: 0 })
    );
}

#[test]
fn known_encodings() {
    assert_eq!(enc_j(0, 0), 0x0000_006f);
    assert_eq!(enc_j(1, 8), 0x0080_00ef);
    assert_eq!(enc_b(0, 0, 0, -4), 0xfe00_0ee3);
    assert_eq!(enc_s(3, 2, 1, 8), 0x0011_3423);
    assert_eq!(enc_i(0x03, 3, 10, 2, -16), 0xff01_3503);
    assert_eq!(enc_r(0x33, 0, 1, 10, 11, 12), 0x02c5_8533);
    assert_eq!(decode(0x0000_006f), Some(Instr::Jal { rd: 0, imm: 0 }));
    assert_eq!(decode(0x0080_00ef), Some(Instr::Jal { rd: 1, imm: 8 }));
    assert_eq!(
        decode(0xfe00_0ee3),
        Some(Instr::Branch { op: BranchOp::Beq, rs1: 0, rs2: 0, imm: neg(-4) })
    );
    assert_eq!(decode(0x0000_8067), Some(Instr::Jalr { rd: 0, rs1: 1, imm: 0 }));
    assert_eq!(decode(0x1234_5537), Some(Instr::Lui { rd: 10, imm: 0x1234_5000 }));
    assert_eq!(
        decode(0x0011_3423),
        Some(Instr::Store { op: StoreOp::Sd, rs1: 2, rs2: 1, imm: 8 })
    );
    assert_eq!(
        decode(0xff01_3503),
        Some(Instr::Load { op: LoadOp::Ld, rd: 10, rs1: 2, imm: neg(-16) })
    );
    assert_eq!(
        decode(0x0015_051b),
        Some(Instr::OpImm { op: AluOp::Addw, rd: 10, rs1: 10, imm: 1 })
    );
    assert_eq!(
        decode(0x02c5_8533),
        Some(Instr::Op { op: AluOp::Mul, rd: 10, rs1: 11, rs2: 12 })
    );
    assert_eq!(
        decode(0x43f5_5513),
        Some(Instr::OpImm { op: AluOp::Sra, rd: 10, rs1: 10, imm: 63 })
    );
    assert_eq!(
        decode(0x41f5_551b),
        Some(Instr::OpImm { op: AluOp::Sraw, rd: 10, rs1: 10, imm: 31 })
    );
}

#[test]
fn immediate_of_i_type() {
    assert_eq!(decode_imm_i(enc_i(0x13, 0, 1, 2, 0x7ff)), 0x7ff);
    assert_eq!(decode_imm_i(enc_i(0x13, 0, 1, 2, -1)), neg(-1));
    assert_eq!(decode_imm_i(enc_i(0x13, 0, 1, 2, -2048)), neg(-2048));
    assert_eq!(decode_imm_i(enc_i(0x13, 0, 31, 31, 0)), 0);
}

#[test]
fn immediate_of_s_type() {
    assert_eq!(decode_imm_s(enc_s(3, 31, 31, 0)), 0);
    assert_eq!(decode_imm_s(enc_s(3, 2, 1, 2047)), 2047);
    assert_eq!(decode_imm_s(enc_s(3, 2, 1, -1)), neg(-1));
    assert_eq!(decode_imm_s(enc_s(3, 2, 1, -2048)), neg(-2048));
    assert_eq!(decode_imm_s(enc_s(3, 2, 1, 0x555)), 0x555);
    assert_eq!(decode_imm_s(enc_s(3, 2, 1, 0x2aa)), 0x2aa);
}

#[test]
fn immediate_of_b_type() {
    assert_eq!(decode_imm_b(enc_b(0, 31, 31, 0)), 0);
    assert_eq!(decode_imm_b(enc_b(0, 1, 2, 4094)), 4094);
    assert_eq!(decode_imm_b(enc_b(0, 1, 2, -4096)), neg(-4096));
    assert_eq!(decode_imm_b(enc_b(0, 1, 2, -2)), neg(-2));
    assert_eq!(decode_imm_b(enc_b(0, 1, 2, 0x800)), 0x800);
    assert_eq!(decode_imm_b(enc_b(0, 1, 2, 0x7fe)), 0x7fe);
    assert_eq!(decode_imm_b(enc_b(0, 1, 2, 0x554)), 0x554);
}

#[test]
fn immediate_of_u_type() {
    assert_eq!(decode_imm_u(0x1234_5537), 0x1234_5000);
    assert_eq!(decode_imm_u(0x8000_0037), 0xFFFF_FFFF_8000_0000);
    assert_eq!(decode_imm_u(0xFFFF_F037), 0xFFFF_FFFF_FFFF_F000);
    assert_eq!(decode_imm_u(0x0000_0FFF), 0);
}

#[test]
fn immediate_of_j_type() {
    assert_eq!(decode_imm_j(enc_j(1, 0)), 0);
    assert_eq!(decode_imm_j(enc_j(1, 2)), 2);
    assert_eq!(decode_imm_j(enc_j(1, 0x800)), 0x800);
    assert_eq!(decode_imm_j(enc_j(1, 0x7fe)), 0x7fe);
    assert_eq!(decode_imm_j(enc_j(1, 0xff000)), 0xff000);
    assert_eq!(decode_imm_j(enc_j(1, 0xffffe)), 0xffffe);
    assert_eq!(decode_imm_j(enc_j(1, -2)), neg(-2));
    assert_eq!(decode_imm_j(enc_j(1, -0x100000)), neg(-0x100000));
    assert_eq!(decode_imm_j(enc_j(31, 0x12344)), 0x12344);
}

#[test]
fn loads_by_funct3() {
    let ops = [
        (0, LoadOp::Lb),
        (1, LoadOp::Lh),
        (2, LoadOp::Lw),
        (3, LoadOp::Ld),
        (4, LoadOp::Lbu),
        (5, LoadOp::Lhu),
        (6, LoadOp::Lwu),
    ];
    for (f3, op) in ops {
        assert_eq!(
            decode(enc_i(0x03, f3, 5, 6, -3)),
            Some(Instr::Load { op, rd: 5, rs1: 6, imm: neg(-3) })
        );
    }
    assert_eq!(decode(enc_i(0x03, 7, 5, 6, 0)), None);
}

#[test]
fn stores_by_funct3() {
    let ops = [(0, StoreOp::Sb), (1, StoreOp::Sh), (2, StoreOp::Sw), (3, StoreOp::Sd)];
    for (f3, op) in ops {
        assert_eq!(
            decode(enc_s(f3, 7, 8, -9)),
            Some(Instr::Store { op, rs1: 7, rs2: 8, imm: neg(-9) })
        );
    }
    for f3 in 4..8 {
        assert_eq!(decode(enc_s(f3, 7, 8, 0)), None);
    }
}

#[test]
fn branches_by_funct3() {
    let ops = [
        (0, BranchOp::Beq),
        (1, BranchOp::Bne),
        (4, BranchOp::Blt),
        (5, BranchOp::Bge),
        (6, BranchOp::Bltu),
        (7, BranchOp::Bgeu),
    ];
    for (f3, op) in ops {
        assert_eq!(
            decode(enc_b(f3, 3, 4, 16)),
            Some(Instr::Branch { op, rs1: 3, rs2: 4, imm: 16 })
        );
    }
    assert_eq!(decode(enc_b(2, 3, 4, 16)), None);
    assert_eq!(decode(enc_b(3, 3, 4, 16)), None);
}

#[test]
fn register_immediate_operations() {
    let ops = [
        (0, AluOp::Add),
        (2, AluOp::Slt),
        (3, AluOp::Sltu),
        (4, AluOp::Xor),
        (6, AluOp::Or),
        (7, AluOp::And),
    ];
    for (f3, op) in ops {
        assert_eq!(
            decode(enc_i(0x13, f3, 9, 10, -7)),
            Some(Instr::OpImm { op, rd: 9, rs1: 10, imm: neg(-7) })
        );
    }
    assert_eq!(
        decode(enc_i(0x13, 1, 9, 10, 63)),
        Some(Instr::OpImm { op: AluOp::Sll, rd: 9, rs1: 10, imm: 63 })
    );
    assert_eq!(
        decode(enc_i(0x13, 5, 9, 10, 32)),
        Some(Instr::OpImm { op: AluOp::Srl, rd: 9, rs1: 10, imm: 32 })
    );
    assert_eq!(
        decode(enc_i(0x13, 5, 9, 10, 0x400 | 33)),
        Some(Instr::OpImm { op: AluOp::Sra, rd: 9, rs1: 10, imm: 33 })
    );
}

#[test]
fn shift_immediates_with_reserved_bits_are_illegal() {
    assert_eq!(decode(enc_i(0x13, 1, 9, 10, 0x040)), None);
    assert_eq!(decode(enc_i(0x13, 1, 9, 10, 0x400)), None);
    assert_eq!(decode(enc_i(0x13, 5, 9, 10, 0x040 | 3)), None);
    assert_eq!(decode(enc_i(0x13, 5, 9, 10, 0x800 | 3)), None);
    assert_eq!(decode(enc_i(0x13, 5, 9, 10, 0xc00 | 3)), None);
    assert_eq!(decode(enc_i(0x1B, 1, 9, 10, 0x020)), None);
    assert_eq!(decode(enc_i(0x1B, 5, 9, 10, 0x020 | 1)), None);
    assert_eq!(decode(enc_i(0x1B, 5, 9, 10, 0x420 | 1)), None);
    assert_eq!(decode(enc_i(0x1B, 5, 9, 10, 0x800 | 1)), None);
}

#[test]
fn word_immediate_operations() {
    assert_eq!(
        decode(enc_i(0x1B, 0, 1, 2, -1)),
        Some(Instr::OpImm { op: AluOp::Addw, rd: 1, rs1: 2, imm: neg(-1) })
    );
    assert_eq!(
        decode(enc_i(0x1B, 1, 1, 2, 31)),
        Some(Instr::OpImm { op: AluOp::Sllw, rd: 1, rs1: 2, imm: 31 })
    );
    assert_eq!(
        decode(enc_i(0x1B, 5, 1, 2, 7)),
        Some(Instr::OpImm { op: AluOp::Srlw, rd: 1, rs1: 2, imm: 7 })
    );
    assert_eq!(
        decode(enc_i(0x1B, 5, 1, 2, 0x400 | 7)),
        Some(Instr::OpImm { op: AluOp::Sraw, rd: 1, rs1: 2, imm: 7 })
    );
    for f3 in [2, 3, 4, 6, 7] {
        assert_eq!(decode(enc_i(0x1B, f3, 1, 2, 0)), None);
    }
}

#[test]
fn register_register_operations() {
    let ops = [
        (0, 0x00, AluOp::Add),
        (0, 0x20, AluOp::Sub),
        (1, 0x00, AluOp::Sll),
        (2, 0x00, AluOp::Slt),
        (3, 0x00, AluOp::Sltu),
        (4, 0x00, AluOp::Xor),
        (5, 0x00, AluOp::Srl),
        (5, 0x20, AluOp::Sra),
        (6, 0x00, AluOp::Or),
        (7, 0x00, AluOp::And),
        (0, 0x01, AluOp::Mul),
        (1, 0x01, AluOp::Mulh),
        (2, 0x01, AluOp::Mulhsu),
        (3, 0x01, AluOp::Mulhu),
        (4, 0x01, AluOp::Div),
        (5, 0x01, AluOp::Divu),
        (6, 0x01, AluOp::Rem),
        (7, 0x01, AluOp::Remu),
    ];
    for (f3, f7, op) in ops {
        assert_eq!(
            decode(enc_r(0x33, f3, f7, 20, 21, 22)),
            Some(Instr::Op { op, rd: 20, rs1: 21, rs2: 22 })
        );
    }
    assert_eq!(decode(enc_r(0x33, 1, 0x20, 20, 21, 22)), None);
    assert_eq!(decode(enc_r(0x33, 0, 0x02, 20, 21, 22)), None);
    assert_eq!(decode(enc_r(0x33, 0, 0x21, 20, 21, 22)), None);
    assert_eq!(decode(enc_r(0x33, 0, 0x40, 20, 21, 22)), None);
}

#[test]
fn word_register_operations() {
    let ops = [
        (0, 0x00, AluOp::Addw),
        (0, 0x20, AluOp::Subw),
        (1, 0x00, AluOp::Sllw),
        (5, 0x00, AluOp::Srlw),
        (5, 0x20, AluOp::Sraw),
        (0, 0x01, AluOp::Mulw),
        (4, 0x01, AluOp::Divw),
        (5, 0x01, AluOp::Divuw),
        (6, 0x01, AluOp::Remw),
        (7, 0x01, AluOp::Remuw),
    ];
    for (f3, f7, op) in ops {
        assert_eq!(
            decode(enc_r(0x3B, f3, f7, 1, 2, 3)),
            Some(Instr::Op { op, rd: 1, rs1: 2, rs2: 3 })
        );
    }
    assert_eq!(decode(enc_r(0x3B, 2, 0x00, 1, 2, 3)), None);
    assert_eq!(decode(enc_r(0x3B, 1, 0x01, 1, 2, 3)), None);
    assert_eq!(decode(enc_r(0x3B, 4, 0x00, 1, 2, 3)), None);
    assert_eq!(decode(enc_r(0x3B, 1, 0x20, 1, 2, 3)), None);
}

#[test]
fn upper_immediates_and_jumps_ignore_funct3() {
    assert_eq!(decode(0xFFFF_F0B7), Some(Instr::Lui { rd: 1, imm: 0xFFFF_FFFF_FFFF_F000 }));
    assert_eq!(decode(0x0000_1117), Some(Instr::Auipc { rd: 2, imm: 0x1000 }));
    assert_eq!(
        decode(enc_i(0x67, 0, 1, 5, -4)),
        Some(Instr::Jalr { rd: 1, rs1: 5, imm: neg(-4) })
    );
    assert_eq!(
        decode(enc_i(0x67, 3, 1, 5, 12)),
        Some(Instr::Jalr { rd: 1, rs1: 5, imm: 12 })
    );
}

#[test]
fn unknown_opcodes_are_illegal() {
    assert_eq!(decode(0x0000_0000), None);
    assert_eq!(decode(0xFFFF_FFFF), None);
    assert_eq!(decode(0x0000_000F), None);
    assert_eq!(decode(0x0000_0073), None);
    assert_eq!(decode(0x0000_0007), None);
    assert_eq!(decode(0x0000_002F), None);
    assert_eq!(decode(0x0000_0001), None);
}

#[test]
fn immediates_stay_in_their_ranges() {
    let words = [0u32, 0xFFFF_FFFF, 0x8000_0000, 0x7FFF_FFFF, 0x0010_0000, 0xFFF0_0000, 0x0000_0F80];
    for w in words {
        let i = decode_imm_i(w) as i64;
        assert!(-2048 <= i && i < 2048);
        let s = decode_imm_s(w) as i64;
        assert!(-2048 <= s && s < 2048);
        let b = decode_imm_b(w) as i64;
        assert!(-4096 <= b && b < 4096 && b % 2 == 0);
        let j = decode_imm_j(w) as i64;
        assert!(-0x10_0000 <= j && j < 0x10_0000 && j % 2 == 0);
        let u = decode_imm_u(w) as i64;
        assert!(-0x8000_0000 <= u && u < 0x8000_0000 && u % 4096 == 0);
    }
    assert_eq!(decode_imm_i(0xFFFF_FFFF), neg(-1));
    assert_eq!(decode_imm_s(0xFFFF_FFFF), neg(-1));
    assert_eq!(decode_imm_b(0xFFFF_FFFF), neg(-2));
    assert_eq!(decode_imm_j(0xFFFF_FFFF), neg(-2));
    assert_eq!(decode_imm_u(0xFFFF_FFFF), neg(-4096));
    assert_eq!(decode_imm_s(0x0000_0F80), 31);
    assert_eq!(decode_imm_b(0x0000_0F80), 0x81e);
}
