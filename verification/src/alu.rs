//! Integer semantics of the RV64IM arithmetic and logic operations.

use vstd::arithmetic::div_mod::{
    lemma_basic_div, lemma_div_nonincreasing, lemma_div_pos_is_pos, lemma_fundamental_div_mod,
    lemma_mod_bound, lemma_small_mod,
};
use vstd::prelude::*;

verus! {

/// The arithmetic and logic operations. The ones whose name ends in `w`
/// work on the low 32 bits of their operands.
#[derive(Clone, Copy, Debug, PartialEq, Eq, Structural)]
pub enum AluOp {
    Add,
    Sub,
    Sll,
    Slt,
    Sltu,
    Xor,
    Srl,
    Sra,
    Or,
    And,
    Mul,
    Mulh,
    Mulhsu,
    Mulhu,
    Div,
    Divu,
    Rem,
    Remu,
    Addw,
    Subw,
    Sllw,
    Srlw,
    Sraw,
    Mulw,
    Divw,
    Divuw,
    Remw,
    Remuw,
}

impl AluOp {
    /// Whether the operation works on 32-bit operands and sign-extends its result.
    pub open spec fn is_word(self) -> bool {
        match self {
            AluOp::Addw
            | AluOp::Subw
            | AluOp::Sllw
            | AluOp::Srlw
            | AluOp::Sraw
            | AluOp::Mulw
            | AluOp::Divw
            | AluOp::Divuw
            | AluOp::Remw
            | AluOp::Remuw => true,
            _ => false,
        }
    }
}

/// The 64-bit sign extension of a field whose top bit has the value
/// `sign_bit`, a power of two: a field below `sign_bit` stands for itself,
/// any other for itself minus twice `sign_bit`.
pub open spec fn sign_extend(field: u32, sign_bit: u32) -> u64 {
    if field < sign_bit {
        field as u64
    } else {
        (field + 0x1_0000_0000_0000_0000 - 2 * sign_bit) as u64
    }
}

/// Widens a 32-bit word to 64 bits by replicating bit 31.
pub open spec fn sext32(w: u32) -> u64 {
    sign_extend(w, 0x8000_0000)
}

/// The two's-complement value of a 64-bit pattern.
pub open spec fn signed64(x: u64) -> int {
    (x as i64) as int
}

/// The two's-complement value of a 32-bit pattern.
pub open spec fn signed32(x: u32) -> int {
    (x as i32) as int
}

/// The 64-bit pattern of an integer, modulo 2^64.
pub open spec fn wrap64(i: int) -> u64 {
    (i % 0x1_0000_0000_0000_0000) as u64
}

/// The 32-bit pattern of an integer, modulo 2^32.
pub open spec fn wrap32(i: int) -> u32 {
    (i % 0x1_0000_0000) as u32
}

/// Quotient rounded towards zero, for a divisor other than zero.
pub open spec fn trunc_div(x: int, d: int) -> int {
    if x >= 0 && d > 0 {
        x / d
    } else if x < 0 && d < 0 {
        (-x) / (-d)
    } else if x < 0 {
        -((-x) / d)
    } else {
        -(x / (-d))
    }
}

/// Remainder that goes with `trunc_div`: it has the sign of the dividend.
pub open spec fn trunc_rem(x: int, d: int) -> int {
    if x >= 0 && d > 0 {
        x % d
    } else if x < 0 && d < 0 {
        -((-x) % (-d))
    } else if x < 0 {
        -((-x) % d)
    } else {
        x % (-d)
    }
}

/// The result of an operation on full 64-bit operands. The word operations
/// are not among them: `alu32` says what they compute.
pub open spec fn alu64(op: AluOp, a: u64, b: u64) -> u64 {
    match op {
        AluOp::Add => wrap64(a + b),
        AluOp::Sub => wrap64(a - b),
        AluOp::Sll => a << (b & 0x3f),
        AluOp::Slt => if signed64(a) < signed64(b) { 1 } else { 0 },
        AluOp::Sltu => if a < b { 1 } else { 0 },
        AluOp::Xor => a ^ b,
        AluOp::Srl => a >> (b & 0x3f),
        AluOp::Sra => ((a as i64) >> (b & 0x3f)) as u64,
        AluOp::Or => a | b,
        AluOp::And => a & b,
        AluOp::Mul => wrap64(a * b),
        AluOp::Mulh => wrap64((signed64(a) * signed64(b)) / 0x1_0000_0000_0000_0000),
        AluOp::Mulhsu => wrap64((signed64(a) * b) / 0x1_0000_0000_0000_0000),
        AluOp::Mulhu => wrap64((a * b) / 0x1_0000_0000_0000_0000),
        AluOp::Div => if b == 0 {
            u64::MAX
        } else {
            wrap64(trunc_div(signed64(a), signed64(b)))
        },
        AluOp::Divu => if b == 0 { u64::MAX } else { a / b },
        AluOp::Rem => if b == 0 { a } else { wrap64(trunc_rem(signed64(a), signed64(b))) },
        AluOp::Remu => if b == 0 { a } else { a % b },
        _ => 0,
    }
}

/// The 32-bit result of a word operation on 32-bit operands.
pub open spec fn alu32(op: AluOp, a: u32, b: u32) -> u32 {
    match op {
        AluOp::Addw => wrap32(a + b),
        AluOp::Subw => wrap32(a - b),
        AluOp::Sllw => a << (b & 0x1f),
        AluOp::Srlw => a >> (b & 0x1f),
        AluOp::Sraw => ((a as i32) >> (b & 0x1f)) as u32,
        AluOp::Mulw => wrap32(a * b),
        AluOp::Divw => if b == 0 {
            u32::MAX
        } else {
            wrap32(trunc_div(signed32(a), signed32(b)))
        },
        AluOp::Divuw => if b == 0 { u32::MAX } else { a / b },
        AluOp::Remw => if b == 0 { a } else { wrap32(trunc_rem(signed32(a), signed32(b))) },
        AluOp::Remuw => if b == 0 { a } else { a % b },
        _ => 0,
    }
}

/// The value that an operation leaves in the destination register.
/// A word operation takes the low 32 bits of each operand and sign-extends
/// its 32-bit result.
pub open spec fn alu(op: AluOp, a: u64, b: u64) -> u64 {
    if op.is_word() {
        sext32(alu32(op, a as u32, b as u32))
    } else {
        alu64(op, a, b)
    }
}

/// The two's-complement value of a pattern below 2^63 is the pattern
/// itself; that of any other is the pattern minus 2^64.
pub proof fn lemma_signed64(x: u64)
    ensures
        signed64(x) == if x < 0x8000_0000_0000_0000 {
            x as int
        } else {
            x - 0x1_0000_0000_0000_0000
        },
{
    assert(x as i64 == if x < 0x8000_0000_0000_0000u64 {
        x as int
    } else {
        x - 0x1_0000_0000_0000_0000
    }) by (bit_vector);
}

/// Sign-extends a 32-bit word to 64 bits.
pub fn sign_extend_32(w: u32) -> (r: u64)
    ensures
        r == sext32(w),
{
    assert(w as i32 as i64 as u64 == if w < 0x8000_0000u32 {
        w as u64
    } else {
        (w as u64 + 0xFFFF_FFFF_0000_0000u64) as u64
    }) by (bit_vector);
    w as i32 as i64 as u64
}

/// Sign-extends a 16-bit halfword to 64 bits.
pub fn sign_extend_16(h: u16) -> (r: u64)
    ensures
        r == sign_extend(h as u32, 0x8000),
{
    assert(h as i16 as i64 as u64 == if (h as u32) < 0x8000u32 {
        h as u64
    } else {
        (h as u64 + 0xFFFF_FFFF_FFFF_0000u64) as u64
    }) by (bit_vector);
    h as i16 as i64 as u64
}

/// Sign-extends a byte to 64 bits.
pub fn sign_extend_8(b: u8) -> (r: u64)
    ensures
        r == sign_extend(b as u32, 0x80),
{
    assert(b as i8 as i64 as u64 == if (b as u32) < 0x80u32 {
        b as u64
    } else {
        (b as u64 + 0xFFFF_FFFF_FFFF_FF00u64) as u64
    }) by (bit_vector);
    b as i8 as i64 as u64
}

/// The 64-bit pattern of a signed value.
fn pattern64(i: i64) -> (r: u64)
    ensures
        r == wrap64(i as int),
{
    assert(i as u64 == if i >= 0 {
        i as int
    } else {
        i + 0x1_0000_0000_0000_0000
    }) by (bit_vector);
    i as u64
}

/// The 32-bit pattern of a signed value.
fn pattern32(i: i32) -> (r: u32)
    ensures
        r == wrap32(i as int),
{
    assert(i as u32 == if i >= 0 {
        i as int
    } else {
        i + 0x1_0000_0000
    }) by (bit_vector);
    i as u32
}

/// The low six bits of a shift operand.
fn shamt6(b: u64) -> (r: u64)
    ensures
        r == b & 0x3f,
        r < 64,
{
    assert(b & 0x3f < 64) by (bit_vector);
    b & 0x3f
}

/// The low five bits of a shift operand.
fn shamt5(b: u32) -> (r: u32)
    ensures
        r == b & 0x1f,
        r < 32,
{
    assert(b & 0x1f < 32) by (bit_vector);
    b & 0x1f
}

/// Upper 64 bits of the signed 128-bit product.
fn mulh(a: u64, b: u64) -> (r: u64)
    ensures
        r == alu64(AluOp::Mulh, a, b),
{
    let x: i128 = a as i64 as i128;
    let y: i128 = b as i64 as i128;
    assert(-0x4000_0000_0000_0000_0000_0000_0000_0000 <= x * y
        <= 0x4000_0000_0000_0000_0000_0000_0000_0000) by (nonlinear_arith)
        requires
            -0x8000_0000_0000_0000 <= x <= 0x8000_0000_0000_0000,
            -0x8000_0000_0000_0000 <= y <= 0x8000_0000_0000_0000,
    ;
    let p: i128 = x * y;
    match p.checked_div_euclid(0x1_0000_0000_0000_0000) {
        Some(q) => pattern64(q as i64),
        None => 0,
    }
}

/// Upper 64 bits of the 128-bit product of a signed and an unsigned factor.
fn mulhsu(a: u64, b: u64) -> (r: u64)
    ensures
        r == alu64(AluOp::Mulhsu, a, b),
{
    let x: i128 = a as i64 as i128;
    let y: i128 = b as i128;
    assert(-0x8000_0000_0000_0000_0000_0000_0000_0000 <= x * y
        <= 0x7FFF_FFFF_FFFF_FFFF_0000_0000_0000_0000) by (nonlinear_arith)
        requires
            -0x8000_0000_0000_0000 <= x < 0x8000_0000_0000_0000,
            0 <= y < 0x1_0000_0000_0000_0000,
    ;
    let p: i128 = x * y;
    match p.checked_div_euclid(0x1_0000_0000_0000_0000) {
        Some(q) => pattern64(q as i64),
        None => 0,
    }
}

/// Upper 64 bits of the unsigned 128-bit product.
fn mulhu(a: u64, b: u64) -> (r: u64)
    ensures
        r == alu64(AluOp::Mulhu, a, b),
{
    let x: u128 = a as u128;
    let y: u128 = b as u128;
    assert(0 <= x * y <= 0xFFFF_FFFF_FFFF_FFFE_0000_0000_0000_0001) by (nonlinear_arith)
        requires
            0 <= x <= 0xFFFF_FFFF_FFFF_FFFF,
            0 <= y <= 0xFFFF_FFFF_FFFF_FFFF,
    ;
    let p: u128 = x * y;
    (p / 0x1_0000_0000_0000_0000) as u64
}

/// Signed division: all ones for a zero divisor, wrapping on overflow.
fn div(a: u64, b: u64) -> (r: u64)
    ensures
        r == alu64(AluOp::Div, a, b),
{
    if b == 0 {
        return u64::MAX;
    }
    let x: i64 = a as i64;
    let y: i64 = b as i64;
    assert(b != 0 ==> b as i64 != 0) by (bit_vector);
    proof {
        lemma_trunc_div_rem(x as int, y as int);
    }
    match x.checked_div(y) {
        Some(q) => {
            assert(q == trunc_div(x as int, y as int));
            pattern64(q)
        },
        None => {
            assert(trunc_div(x as int, y as int) == 0x8000_0000_0000_0000);
            0x8000_0000_0000_0000
        },
    }
}

/// Signed remainder: the dividend for a zero divisor, zero on overflow.
fn rem(a: u64, b: u64) -> (r: u64)
    ensures
        r == alu64(AluOp::Rem, a, b),
{
    if b == 0 {
        return a;
    }
    let x: i64 = a as i64;
    let y: i64 = b as i64;
    assert(b != 0 ==> b as i64 != 0) by (bit_vector);
    proof {
        lemma_trunc_div_rem(x as int, y as int);
    }
    match x.checked_rem(y) {
        Some(q) => {
            assert(q == trunc_rem(x as int, y as int));
            pattern64(q)
        },
        None => {
            assert(x == i64::MIN && y == -1);
            assert(trunc_rem(x as int, y as int) == 0);
            0
        },
    }
}

/// Signed 32-bit division: all ones for a zero divisor, wrapping on overflow.
fn divw(a: u32, b: u32) -> (r: u32)
    ensures
        r == alu32(AluOp::Divw, a, b),
{
    if b == 0 {
        return u32::MAX;
    }
    let x: i32 = a as i32;
    let y: i32 = b as i32;
    assert(b != 0 ==> b as i32 != 0) by (bit_vector);
    proof {
        lemma_trunc_div_rem(x as int, y as int);
    }
    match x.checked_div(y) {
        Some(q) => {
            assert(q == trunc_div(x as int, y as int));
            pattern32(q)
        },
        None => {
            assert(trunc_div(x as int, y as int) == 0x8000_0000);
            0x8000_0000
        },
    }
}

/// Signed 32-bit remainder: the dividend for a zero divisor, zero on overflow.
fn remw(a: u32, b: u32) -> (r: u32)
    ensures
        r == alu32(AluOp::Remw, a, b),
{
    if b == 0 {
        return a;
    }
    let x: i32 = a as i32;
    let y: i32 = b as i32;
    assert(b != 0 ==> b as i32 != 0) by (bit_vector);
    proof {
        lemma_trunc_div_rem(x as int, y as int);
    }
    match x.checked_rem(y) {
        Some(q) => {
            assert(q == trunc_rem(x as int, y as int));
            pattern32(q)
        },
        None => {
            assert(x == i32::MIN && y == -1);
            assert(trunc_rem(x as int, y as int) == 0);
            0
        },
    }
}

/// Computes the 32-bit result of a word operation.
fn compute32(op: AluOp, a: u32, b: u32) -> (r: u32)
    requires
        op.is_word(),
    ensures
        r == alu32(op, a, b),
{
    match op {
        AluOp::Addw => a.wrapping_add(b),
        AluOp::Subw => a.wrapping_sub(b),
        AluOp::Sllw => a << shamt5(b),
        AluOp::Srlw => a >> shamt5(b),
        AluOp::Sraw => ((a as i32) >> shamt5(b)) as u32,
        AluOp::Mulw => a.wrapping_mul(b),
        AluOp::Divw => divw(a, b),
        AluOp::Divuw => if b == 0 { u32::MAX } else { a / b },
        AluOp::Remw => remw(a, b),
        AluOp::Remuw => if b == 0 { a } else { a % b },
        _ => 0,
    }
}

/// Computes the value that `op` leaves in the destination register for the
/// operands `a` and `b`.
pub fn compute(op: AluOp, a: u64, b: u64) -> (r: u64)
    ensures
        r == alu(op, a, b),
{
    match op {
        AluOp::Add => a.wrapping_add(b),
        AluOp::Sub => a.wrapping_sub(b),
        AluOp::Sll => a << shamt6(b),
        AluOp::Slt => if (a as i64) < (b as i64) { 1 } else { 0 },
        AluOp::Sltu => if a < b { 1 } else { 0 },
        AluOp::Xor => a ^ b,
        AluOp::Srl => a >> shamt6(b),
        AluOp::Sra => ((a as i64) >> shamt6(b)) as u64,
        AluOp::Or => a | b,
        AluOp::And => a & b,
        AluOp::Mul => a.wrapping_mul(b),
        AluOp::Mulh => mulh(a, b),
        AluOp::Mulhsu => mulhsu(a, b),
        AluOp::Mulhu => mulhu(a, b),
        AluOp::Div => div(a, b),
        AluOp::Divu => if b == 0 { u64::MAX } else { a / b },
        AluOp::Rem => rem(a, b),
        AluOp::Remu => if b == 0 { a } else { a % b },
        _ => sign_extend_32(compute32(op, a as u32, b as u32)),
    }
}

/// `trunc_div` and `trunc_rem` are the quotient and the remainder of the
/// division that rounds towards zero: they give the dividend back, the
/// quotient is no larger than the dividend, and the remainder is smaller
/// than the divisor and has the sign of the dividend.
pub proof fn lemma_trunc_div_rem(x: int, d: int)
    requires
        d != 0,
    ensures
        x == d * trunc_div(x, d) + trunc_rem(x, d),
        x >= 0 ==> -x <= trunc_div(x, d) <= x,
        x <= 0 ==> x <= trunc_div(x, d) <= -x,
        x >= 0 ==> 0 <= trunc_rem(x, d),
        x <= 0 ==> trunc_rem(x, d) <= 0,
        d > 0 ==> -d < trunc_rem(x, d) < d,
        d < 0 ==> d < trunc_rem(x, d) < -d,
        x == 0 ==> trunc_div(x, d) == 0 && trunc_rem(x, d) == 0,
{
    let ax = if x >= 0 { x } else { -x };
    let ad = if d > 0 { d } else { -d };
    lemma_fundamental_div_mod(ax, ad);
    lemma_div_pos_is_pos(ax, ad);
    lemma_div_nonincreasing(ax, ad);
    lemma_mod_bound(ax, ad);
    if x == 0 {
        lemma_basic_div(0, ad);
        lemma_small_mod(0, ad as nat);
    }
    let q = ax / ad;
    let r = ax % ad;
    assert(ax == ad * q + r);
    if x >= 0 && d > 0 {
        assert(trunc_div(x, d) == q && trunc_rem(x, d) == r);
    } else if x < 0 && d < 0 {
        assert(trunc_div(x, d) == q && trunc_rem(x, d) == -r);
        assert(d * q == -(ad * q)) by (nonlinear_arith)
            requires
                d == -ad,
        ;
    } else if x < 0 {
        assert(trunc_div(x, d) == -q && trunc_rem(x, d) == -r);
        assert(d * (-q) == -(ad * q)) by (nonlinear_arith)
            requires
                d == ad,
        ;
    } else {
        assert(trunc_div(x, d) == -q && trunc_rem(x, d) == r);
        assert(d * (-q) == ad * q) by (nonlinear_arith)
            requires
                d == -ad,
        ;
    }
}

/// Moving on by 4, back by 4 and then by an offset is moving by the
/// offset, all modulo 2^64.
pub proof fn lemma_wrap_relative(pc: u64, offset: u64)
    ensures
        wrap64(wrap64(pc + 4) - 4 + offset) == wrap64(pc + offset),
{
    let next = wrap64(pc + 4);
    if pc + 4 < 0x1_0000_0000_0000_0000 {
        assert(next == pc + 4);
    } else {
        assert(next == pc + 4 - 0x1_0000_0000_0000_0000);
        let x = pc + offset;
        assert(next - 4 + offset == x - 0x1_0000_0000_0000_0000);
        if x < 0x1_0000_0000_0000_0000 {
            assert((x - 0x1_0000_0000_0000_0000) % 0x1_0000_0000_0000_0000 == x);
        } else {
            assert((x - 0x1_0000_0000_0000_0000) % 0x1_0000_0000_0000_0000 == x
                - 0x1_0000_0000_0000_0000);
            assert(x % 0x1_0000_0000_0000_0000 == x - 0x1_0000_0000_0000_0000);
        }
    }
}

/// The upper 32 bits of a register value.
pub open spec fn upper_half(r: u64) -> u64 {
    r / 0x1_0000_0000
}

/// Bit 31 of a register value.
pub open spec fn bit31(r: u64) -> bool {
    (r / 0x8000_0000) % 2 == 1
}

/// The result of every word operation is a sign-extended 32-bit word: its
/// upper 32 bits are all equal to its bit 31.
pub proof fn lemma_word_result_sign_extended(op: AluOp, a: u64, b: u64)
    requires
        op.is_word(),
    ensures
        upper_half(alu(op, a, b)) == if bit31(alu(op, a, b)) {
            0xFFFF_FFFFu64
        } else {
            0u64
        },
        alu(op, a, b) == sext32((alu(op, a, b) % 0x1_0000_0000) as u32),
{
}

/// Signed division overflows only for the least value divided by minus
/// one; the quotient is then the least value again, and the remainder zero.
/// The same holds of the word operations.
pub proof fn lemma_division_overflow()
    ensures
        alu(AluOp::Div, 0x8000_0000_0000_0000, u64::MAX) == 0x8000_0000_0000_0000,
        alu(AluOp::Rem, 0x8000_0000_0000_0000, u64::MAX) == 0,
        alu(AluOp::Divw, 0x8000_0000, 0xFFFF_FFFF) == 0xFFFF_FFFF_8000_0000,
        alu(AluOp::Remw, 0x8000_0000, 0xFFFF_FFFF) == 0,
{
    lemma_signed64(0x8000_0000_0000_0000);
    lemma_signed64(u64::MAX);
    assert(trunc_div(-0x8000_0000_0000_0000, -1) == 0x8000_0000_0000_0000);
    assert(trunc_rem(-0x8000_0000_0000_0000, -1) == 0);
    assert(trunc_div(-0x8000_0000, -1) == 0x8000_0000);
    assert(trunc_rem(-0x8000_0000, -1) == 0);
    assert(0x8000_0000u64 as u32 as i32 == -0x8000_0000) by (bit_vector);
    assert(0xFFFF_FFFFu64 as u32 as i32 == -1) by (bit_vector);
    assert(0x8000_0000u64 as u32 == 0x8000_0000u32) by (bit_vector);
    assert(0xFFFF_FFFFu64 as u32 == 0xFFFF_FFFFu32) by (bit_vector);
}

/// Division by zero: the quotient is all ones and the remainder is the
/// dividend, signed or unsigned; a word operation sign-extends the low 32
/// bits of these.
pub proof fn lemma_division_by_zero(a: u64)
    ensures
        alu(AluOp::Div, a, 0) == u64::MAX,
        alu(AluOp::Divu, a, 0) == u64::MAX,
        alu(AluOp::Rem, a, 0) == a,
        alu(AluOp::Remu, a, 0) == a,
        alu(AluOp::Divw, a, 0) == u64::MAX,
        alu(AluOp::Divuw, a, 0) == u64::MAX,
        alu(AluOp::Remw, a, 0) == sext32(a as u32),
        alu(AluOp::Remuw, a, 0) == sext32(a as u32),
{
    assert(0u64 as u32 == 0u32) by (bit_vector);
}

} // verus!
