use rv64emu::alu::{compute, sign_extend_16, sign_extend_32, sign_extend_8, AluOp};

const MIN64: u64 = 0x8000_0000_0000_0000;
const ALL: u64 = 0xFFFF_FFFF_FFFF_FFFF;

#[test]
fn add_and_sub_wrap_around() {
    assert_eq!(compute(AluOp::Add, 2, 3), 5);
    assert_eq!(compute(AluOp::Add, ALL, 1), 0);
    assert_eq!(compute(AluOp::Add, ALL, ALL), ALL - 1);
    assert_eq!(compute(AluOp::Sub, 3, 5), ALL - 1);
    assert_eq!(compute(AluOp::Sub, 0, 1), ALL);
    assert_eq!(compute(AluOp::Sub, 10, 4), 6);
}

#[test]
fn comparisons_signed_and_unsigned() {
    assert_eq!(compute(AluOp::Slt, ALL, 0), 1);
    assert_eq!(compute(AluOp::Slt, 0, ALL), 0);
    assert_eq!(compute(AluOp::Slt, 5, 5), 0);
    assert_eq!(compute(AluOp::Slt, MIN64, MIN64 - 1), 1);
    assert_eq!(compute(AluOp::Sltu, ALL, 0), 0);
    assert_eq!(compute(AluOp::Sltu, 0, ALL), 1);
    assert_eq!(compute(AluOp::Sltu, 7, 7), 0);
}

#[test]
fn bitwise_operations() {
    assert_eq!(compute(AluOp::Xor, 0b1100, 0b1010), 0b0110);
    assert_eq!(compute(AluOp::Or, 0b1100, 0b1010), 0b1110);
    assert_eq!(compute(AluOp::And, 0b1100, 0b1010), 0b1000);
    assert_eq!(compute(AluOp::Xor, ALL, 0xFF), ALL - 0xFF);
}

#[test]
fn shifts_use_the_low_six_bits() {
    assert_eq!(compute(AluOp::Sll, 1, 63), MIN64);
    assert_eq!(compute(AluOp::Sll, 1, 64), 1);
    assert_eq!(compute(AluOp::Sll, 3, 65), 6);
    assert_eq!(compute(AluOp::Srl, MIN64, 63), 1);
    assert_eq!(compute(AluOp::Srl, ALL, 32), 0xFFFF_FFFF);
    assert_eq!(compute(AluOp::Srl, ALL, 64 + 4), 0x0FFF_FFFF_FFFF_FFFF);
    assert_eq!(compute(AluOp::Sra, MIN64, 63), ALL);
    assert_eq!(compute(AluOp::Sra, MIN64, 4), 0xF800_0000_0000_0000);
    assert_eq!(compute(AluOp::Sra, 0x4000_0000_0000_0000, 62), 1);
    assert_eq!(compute(AluOp::Sra, ALL, 0x400 | 5), ALL);
}

#[test]
fn word_shifts_use_the_low_five_bits() {
    assert_eq!(compute(AluOp::Sllw, 1, 31), 0xFFFF_FFFF_8000_0000);
    assert_eq!(compute(AluOp::Sllw, 1, 32), 1);
    assert_eq!(compute(AluOp::Sllw, 0xFFFF_FFFF_0000_0001, 4), 0x10);
    assert_eq!(compute(AluOp::Srlw, 0x8000_0000, 31), 1);
    assert_eq!(compute(AluOp::Srlw, 0xFFFF_FFFF_8000_0000, 0), 0xFFFF_FFFF_8000_0000);
    assert_eq!(compute(AluOp::Srlw, 0x1_8000_0000, 4), 0x0800_0000);
    assert_eq!(compute(AluOp::Sraw, 0x8000_0000, 31), ALL);
    assert_eq!(compute(AluOp::Sraw, 0x8000_0000, 4), 0xFFFF_FFFF_F800_0000);
    assert_eq!(compute(AluOp::Sraw, 0x7000_0000, 28), 7);
    assert_eq!(compute(AluOp::Sraw, 0x7000_0000, 32 + 28), 7);
}

#[test]
fn word_arithmetic_sign_extends() {
    assert_eq!(compute(AluOp::Addw, 0x7FFF_FFFF, 1), 0xFFFF_FFFF_8000_0000);
    assert_eq!(compute(AluOp::Addw, 0xFFFF_FFFF, 1), 0);
    assert_eq!(compute(AluOp::Addw, 0x1234_5678_0000_0001, 0x1_0000_0002), 3);
    assert_eq!(compute(AluOp::Addw, ALL - 7, 0), ALL - 7);
    assert_eq!(compute(AluOp::Subw, 0, 1), ALL);
    assert_eq!(compute(AluOp::Subw, 0x8000_0000, 1), 0x7FFF_FFFF);
    assert_eq!(compute(AluOp::Mulw, 0x1_0000, 0x1_0000), 0);
    assert_eq!(compute(AluOp::Mulw, 0x8000, 0x1_0000), 0xFFFF_FFFF_8000_0000);
    assert_eq!(compute(AluOp::Mulw, 7, 6), 42);
}

#[test]
fn multiplication_low_and_high_halves() {
    assert_eq!(compute(AluOp::Mul, 6, 7), 42);
    assert_eq!(compute(AluOp::Mul, ALL, ALL), 1);
    assert_eq!(compute(AluOp::Mul, MIN64, 2), 0);
    assert_eq!(compute(AluOp::Mulh, ALL, ALL), 0);
    assert_eq!(compute(AluOp::Mulh, ALL, 1), ALL);
    assert_eq!(compute(AluOp::Mulh, MIN64, MIN64), 0x4000_0000_0000_0000);
    assert_eq!(compute(AluOp::Mulh, MIN64, 2), ALL);
    assert_eq!(compute(AluOp::Mulh, 0x7FFF_FFFF_FFFF_FFFF, 0x7FFF_FFFF_FFFF_FFFF), 0x3FFF_FFFF_FFFF_FFFF);
    assert_eq!(compute(AluOp::Mulhu, ALL, ALL), ALL - 1);
    assert_eq!(compute(AluOp::Mulhu, MIN64, 2), 1);
    assert_eq!(compute(AluOp::Mulhu, 5, 6), 0);
    assert_eq!(compute(AluOp::Mulhsu, ALL, ALL), ALL);
    assert_eq!(compute(AluOp::Mulhsu, ALL, 1), ALL);
    assert_eq!(compute(AluOp::Mulhsu, 1, ALL), 0);
    assert_eq!(compute(AluOp::Mulhsu, 2, ALL), 1);
    assert_eq!(compute(AluOp::Mulhsu, MIN64, ALL), 0x8000_0000_0000_0000);
}

#[test]
fn signed_division_rounds_towards_zero() {
    assert_eq!(compute(AluOp::Div, 100, 7), 14);
    assert_eq!(compute(AluOp::Rem, 100, 7), 2);
    assert_eq!(compute(AluOp::Div, (-100i64) as u64, 7), (-14i64) as u64);
    assert_eq!(compute(AluOp::Rem, (-100i64) as u64, 7), (-2i64) as u64);
    assert_eq!(compute(AluOp::Div, 100, (-7i64) as u64), (-14i64) as u64);
    assert_eq!(compute(AluOp::Rem, 100, (-7i64) as u64), 2);
    assert_eq!(compute(AluOp::Div, (-100i64) as u64, (-7i64) as u64), 14);
    assert_eq!(compute(AluOp::Rem, (-100i64) as u64, (-7i64) as u64), (-2i64) as u64);
    assert_eq!(compute(AluOp::Div, 0, 5), 0);
    assert_eq!(compute(AluOp::Rem, 0, 5), 0);
}

#[test]
fn unsigned_division() {
    assert_eq!(compute(AluOp::Divu, ALL, 2), 0x7FFF_FFFF_FFFF_FFFF);
    assert_eq!(compute(AluOp::Remu, ALL, 2), 1);
    assert_eq!(compute(AluOp::Divu, 100, 7), 14);
    assert_eq!(compute(AluOp::Remu, 100, 7), 2);
}

#[test]
fn division_by_zero() {
    for a in [0u64, 1, 42, MIN64, ALL] {
        assert_eq!(compute(AluOp::Div, a, 0), ALL);
        assert_eq!(compute(AluOp::Divu, a, 0), ALL);
        assert_eq!(compute(AluOp::Rem, a, 0), a);
        assert_eq!(compute(AluOp::Remu, a, 0), a);
        assert_eq!(compute(AluOp::Divw, a, 0), ALL);
        assert_eq!(compute(AluOp::Divuw, a, 0), ALL);
        assert_eq!(compute(AluOp::Remw, a, 0), a as u32 as i32 as i64 as u64);
        assert_eq!(compute(AluOp::Remuw, a, 0), a as u32 as i32 as i64 as u64);
    }
    assert_eq!(compute(AluOp::Remw, 0x1_8000_0000, 0), 0xFFFF_FFFF_8000_0000);
    assert_eq!(compute(AluOp::Divw, 5, 0x1_0000_0000), ALL);
}

#[test]
fn signed_division_overflow() {
    assert_eq!(compute(AluOp::Div, MIN64, ALL), MIN64);
    assert_eq!(compute(AluOp::Rem, MIN64, ALL), 0);
    assert_eq!(compute(AluOp::Divw, 0x8000_0000, 0xFFFF_FFFF), 0xFFFF_FFFF_8000_0000);
    assert_eq!(compute(AluOp::Remw, 0x8000_0000, 0xFFFF_FFFF), 0);
}

#[test]
fn word_division() {
    assert_eq!(compute(AluOp::Divw, 100, 7), 14);
    assert_eq!(compute(AluOp::Remw, 100, 7), 2);
    assert_eq!(compute(AluOp::Divw, (-100i64) as u64, 7), (-14i64) as u64);
    assert_eq!(compute(AluOp::Remw, (-100i64) as u64, 7), (-2i64) as u64);
    assert_eq!(compute(AluOp::Divw, 0x1_0000_0064, 0x2_0000_0007), 14);
    assert_eq!(compute(AluOp::Divuw, 0xFFFF_FFFF, 2), 0x7FFF_FFFF);
    assert_eq!(compute(AluOp::Divuw, 0xFFFF_FFFF, 1), ALL);
    assert_eq!(compute(AluOp::Remuw, 0xFFFF_FFFF, 0x1_0000), 0xFFFF);
    assert_eq!(compute(AluOp::Remuw, 0xFFFF_FFFF, 0), ALL);
    assert_eq!(compute(AluOp::Remuw, 0xFFFF_FFFE, 0xFFFF_FFFF), 0xFFFF_FFFF_FFFF_FFFE);
}

#[test]
fn every_word_result_is_a_sign_extended_word() {
    let ops = [
        AluOp::Addw,
        AluOp::Subw,
        AluOp::Sllw,
        AluOp::Srlw,
        AluOp::Sraw,
        AluOp::Mulw,
        AluOp::Divw,
        AluOp::Divuw,
        AluOp::Remw,
        AluOp::Remuw,
    ];
    let values = [0u64, 1, 7, 31, 0x7FFF_FFFF, 0x8000_0000, 0xFFFF_FFFF, 0x1_2345_6789, MIN64, ALL];
    for op in ops {
        for a in values {
            for b in values {
                let r = compute(op, a, b);
                let upper = r >> 32;
                let expected = if (r >> 31) & 1 == 1 { 0xFFFF_FFFF } else { 0 };
                assert_eq!(upper, expected);
            }
        }
    }
}

#[test]
fn sign_extension_of_bytes_halves_and_words() {
    assert_eq!(sign_extend_8(0x7F), 0x7F);
    assert_eq!(sign_extend_8(0x80), 0xFFFF_FFFF_FFFF_FF80);
    assert_eq!(sign_extend_16(0x7FFF), 0x7FFF);
    assert_eq!(sign_extend_16(0x8000), 0xFFFF_FFFF_FFFF_8000);
    assert_eq!(sign_extend_32(0x7FFF_FFFF), 0x7FFF_FFFF);
    assert_eq!(sign_extend_32(0x8000_0000), 0xFFFF_FFFF_8000_0000);
    assert_eq!(sign_extend_32(0), 0);
}
