use vstd::prelude::*;

use crate::instruction::byte_of;
use crate::utils::{Byte, SignedByte, Word};

verus! {

/// The flag register with Z, N, H and C as given and the low nibble clear.
pub open spec fn flag_byte(z: bool, n: bool, h: bool, c: bool) -> u8 {
    ((if z { 128int } else { 0 }) + (if n { 64int } else { 0 }) + (if h { 32int } else { 0 }) + (if c {
        16int
    } else {
        0
    })) as u8
}

/// Zero flag (bit 7).
pub open spec fn zf(f: u8) -> bool {
    f / 128 % 2 == 1
}

/// Subtract flag (bit 6).
pub open spec fn nf(f: u8) -> bool {
    f / 64 % 2 == 1
}

/// Half-carry flag (bit 5).
pub open spec fn hf(f: u8) -> bool {
    f / 32 % 2 == 1
}

/// Carry flag (bit 4).
pub open spec fn cf(f: u8) -> bool {
    f / 16 % 2 == 1
}

/// The flag register's low nibble is clear.
pub open spec fn flags_valid(f: u8) -> bool {
    f & 0x0F == 0
}

pub proof fn lemma_flags_valid(f: u8)
    ensures
        flags_valid(f) <==> f % 16 == 0,
{
    assert(f & 0x0F == 0 <==> f % 16 == 0) by (bit_vector);
}

pub proof fn lemma_flag_byte(z: bool, n: bool, h: bool, c: bool)
    ensures
        zf(flag_byte(z, n, h, c)) == z,
        nf(flag_byte(z, n, h, c)) == n,
        hf(flag_byte(z, n, h, c)) == h,
        cf(flag_byte(z, n, h, c)) == c,
        flags_valid(flag_byte(z, n, h, c)),
{
    lemma_flags_valid(flag_byte(z, n, h, c));
}

/// The flag register with its four flags as given.
pub fn flags(z: bool, n: bool, h: bool, c: bool) -> (r: Byte)
    ensures
        r == flag_byte(z, n, h, c),
        zf(r) == z,
        nf(r) == n,
        hf(r) == h,
        cf(r) == c,
        flags_valid(r),
{
    proof {
        lemma_flag_byte(z, n, h, c);
    }
    let mut r: u8 = 0;
    if z {
        r = r + 128;
    }
    if n {
        r = r + 64;
    }
    if h {
        r = r + 32;
    }
    if c {
        r = r + 16;
    }
    r
}

pub open spec fn carry_in(c: bool) -> int {
    if c {
        1
    } else {
        0
    }
}

/// Result and flags of `x + y + c`.
pub open spec fn add_result(x: u8, y: u8, c: bool) -> (u8, u8) {
    let sum = x + y + carry_in(c);
    (
        (sum % 256) as u8,
        flag_byte(sum % 256 == 0, false, x % 16 + y % 16 + carry_in(c) > 15, sum > 255),
    )
}

/// Result and flags of `x - y - c`.
pub open spec fn sub_result(x: u8, y: u8, c: bool) -> (u8, u8) {
    let res = (x - y - carry_in(c) + 256) % 256;
    (res as u8, flag_byte(res == 0, true, x % 16 < y % 16 + carry_in(c), x < y + carry_in(c)))
}

/// 8-bit addition with carry in: `ADD` when `c` is false, `ADC` otherwise.
pub fn add8(x: Byte, y: Byte, c: bool) -> (r: (Byte, Byte))
    ensures
        r == add_result(x, y, c),
        r.0 == (x + y + carry_in(c)) % 256,
        zf(r.1) == (r.0 == 0),
        !nf(r.1),
        hf(r.1) == (x % 16 + y % 16 + carry_in(c) > 15),
        cf(r.1) == (x + y + carry_in(c) > 255),
        flags_valid(r.1),
{
    let cin: u16 = if c { 1 } else { 0 };
    let sum: u16 = x as u16 + y as u16 + cin;
    let res = (sum % 256) as u8;
    let f = flags(res == 0, false, (x % 16) as u16 + (y % 16) as u16 + cin > 15, sum > 255);
    (res, f)
}

/// 8-bit subtraction with borrow in: `SUB`/`CP` when `c` is false, `SBC`
/// otherwise.
pub fn sub8(x: Byte, y: Byte, c: bool) -> (r: (Byte, Byte))
    ensures
        r == sub_result(x, y, c),
        r.0 == (x - y - carry_in(c) + 256) % 256,
        zf(r.1) == (r.0 == 0),
        nf(r.1),
        hf(r.1) == (x % 16 < y % 16 + carry_in(c)),
        cf(r.1) == (x < y + carry_in(c)),
        flags_valid(r.1),
{
    let cin: i16 = if c { 1 } else { 0 };
    let res = ((x as i16 - y as i16 - cin + 256) % 256) as u8;
    let f = flags(res == 0, true, ((x % 16) as i16) < (y % 16) as i16 + cin, (x as i16) < y as i16 + cin);
    (res, f)
}

/// Result and flags of the logical operations: 4 AND, 5 XOR, 6 OR.
pub open spec fn logic_result(op: int, x: u8, y: u8) -> (u8, u8) {
    let res = if op == 4 {
        x & y
    } else if op == 5 {
        x ^ y
    } else {
        x | y
    };
    (res, flag_byte(res == 0, false, op == 4, false))
}

/// Result and flags of the eight accumulator operations, in opcode order:
/// ADD, ADC, SUB, SBC, AND, XOR, OR, CP (CP keeps the accumulator).
pub open spec fn alu_result(op: int, a: u8, v: u8, f: u8) -> (u8, u8) {
    if op == 0 {
        add_result(a, v, false)
    } else if op == 1 {
        add_result(a, v, cf(f))
    } else if op == 2 {
        sub_result(a, v, false)
    } else if op == 3 {
        sub_result(a, v, cf(f))
    } else if op < 7 {
        logic_result(op, a, v)
    } else {
        (a, sub_result(a, v, false).1)
    }
}

pub fn alu(op: Byte, a: Byte, v: Byte, f: Byte) -> (r: (Byte, Byte))
    requires
        op < 8,
    ensures
        r == alu_result(op as int, a, v, f),
        flags_valid(r.1),
{
    let c = f / 16 % 2 == 1;
    if op == 0 {
        add8(a, v, false)
    } else if op == 1 {
        add8(a, v, c)
    } else if op == 2 {
        sub8(a, v, false)
    } else if op == 3 {
        sub8(a, v, c)
    } else if op == 4 {
        let res = a & v;
        (res, flags(res == 0, false, true, false))
    } else if op == 5 {
        let res = a ^ v;
        (res, flags(res == 0, false, false, false))
    } else if op == 6 {
        let res = a | v;
        (res, flags(res == 0, false, false, false))
    } else {
        let (_, fl) = sub8(a, v, false);
        (a, fl)
    }
}

/// `INC r8`: C is kept.
pub open spec fn inc_result(v: u8, f: u8) -> (u8, u8) {
    let res = (v + 1) % 256;
    (res as u8, flag_byte(res == 0, false, v % 16 == 15, cf(f)))
}

/// `DEC r8`: C is kept.
pub open spec fn dec_result(v: u8, f: u8) -> (u8, u8) {
    let res = (v - 1 + 256) % 256;
    (res as u8, flag_byte(res == 0, true, v % 16 == 0, cf(f)))
}

pub fn inc8(v: Byte, f: Byte) -> (r: (Byte, Byte))
    ensures
        r == inc_result(v, f),
        flags_valid(r.1),
{
    let res = v.wrapping_add(1);
    (res, flags(res == 0, false, v % 16 == 15, f / 16 % 2 == 1))
}

pub fn dec8(v: Byte, f: Byte) -> (r: (Byte, Byte))
    ensures
        r == dec_result(v, f),
        flags_valid(r.1),
{
    let res = v.wrapping_sub(1);
    (res, flags(res == 0, true, v % 16 == 0, f / 16 % 2 == 1))
}

/// `ADD HL,rr`: Z is kept, H from bit 11, C from bit 15.
pub open spec fn add16_result(hl: u16, v: u16, f: u8) -> (u16, u8) {
    let sum = hl + v;
    ((sum % 65536) as u16, flag_byte(zf(f), false, hl % 4096 + v % 4096 > 4095, sum > 65535))
}

pub fn add16(hl: Word, v: Word, f: Byte) -> (r: (Word, Byte))
    ensures
        r == add16_result(hl, v, f),
        flags_valid(r.1),
{
    let sum: u32 = hl as u32 + v as u32;
    (
        (sum % 65536) as u16,
        flags(f / 128 % 2 == 1, false, hl % 4096 + v % 4096 > 4095, sum > 65535),
    )
}

/// `SP + e` with the flags of `ADD SP,e` and `LD HL,SP+e`: Z and N clear,
/// H and C from the unsigned addition of the low byte.
pub open spec fn add_sp_result(sp: u16, e: i8) -> (u16, u8) {
    (
        ((sp + e + 65536) % 65536) as u16,
        flag_byte(false, false, sp % 16 + byte_of(e) % 16 > 15, sp % 256 + byte_of(e) > 255),
    )
}

fn unsigned(e: SignedByte) -> (b: Byte)
    ensures
        b == byte_of(e),
{
    if e < 0 {
        (e as i16 + 256) as u8
    } else {
        e as u8
    }
}

pub fn add_sp(sp: Word, e: SignedByte) -> (r: (Word, Byte))
    ensures
        r == add_sp_result(sp, e),
        flags_valid(r.1),
{
    let eb = unsigned(e);
    let res = ((sp as i32 + e as i32 + 65536) % 65536) as u16;
    (res, flags(false, false, (sp % 16) as u8 + eb % 16 > 15, (sp % 256) + eb as u16 > 255))
}

/// `DAA`: decimal adjust after an addition or a subtraction.
pub open spec fn daa_result(a: u8, f: u8) -> (u8, u8) {
    if !nf(f) {
        let high = cf(f) || a > 0x99;
        let adj = (if high { 0x60int } else { 0 }) + (if hf(f) || a % 16 > 9 { 6int } else { 0 });
        let res = (a + adj) % 256;
        (res as u8, flag_byte(res == 0, false, false, high))
    } else {
        let adj = (if cf(f) { 0x60int } else { 0 }) + (if hf(f) { 6int } else { 0 });
        let res = (a - adj + 256) % 256;
        (res as u8, flag_byte(res == 0, true, false, cf(f)))
    }
}

pub fn daa(a: Byte, f: Byte) -> (r: (Byte, Byte))
    ensures
        r == daa_result(a, f),
        flags_valid(r.1),
{
    let n = f / 64 % 2 == 1;
    let h = f / 32 % 2 == 1;
    let c = f / 16 % 2 == 1;
    if !n {
        let high = c || a > 0x99;
        let adj: u16 = (if high { 0x60 } else { 0 }) + (if h || a % 16 > 9 { 6 } else { 0 });
        let res = ((a as u16 + adj) % 256) as u8;
        (res, flags(res == 0, false, false, high))
    } else {
        let adj: u16 = (if c { 0x60 } else { 0 }) + (if h { 6 } else { 0 });
        let res = ((a as u16 + 256 - adj) % 256) as u8;
        (res, flags(res == 0, true, false, c))
    }
}

/// Result and carry-out of the rotates and shifts, in CB opcode order:
/// RLC, RRC, RL, RR, SLA, SRA, SWAP, SRL; `c` is the carry in.
pub open spec fn shift_result(op: int, v: u8, c: bool) -> (u8, bool) {
    if op == 0 {
        ((v * 2 % 256 + v / 128) as u8, v >= 128)
    } else if op == 1 {
        ((v / 2 + v % 2 * 128) as u8, v % 2 == 1)
    } else if op == 2 {
        ((v * 2 % 256 + carry_in(c)) as u8, v >= 128)
    } else if op == 3 {
        ((v / 2 + carry_in(c) * 128) as u8, v % 2 == 1)
    } else if op == 4 {
        ((v * 2 % 256) as u8, v >= 128)
    } else if op == 5 {
        ((v / 2 + v / 128 * 128) as u8, v % 2 == 1)
    } else if op == 6 {
        ((v % 16 * 16 + v / 16) as u8, false)
    } else {
        ((v / 2) as u8, v % 2 == 1)
    }
}

/// Flags of a rotate or shift: Z from the result (forced clear for the
/// accumulator forms RLCA, RRCA, RLA, RRA), N and H clear, C the bit out.
pub open spec fn shift_flags(res: u8, out: bool, accumulator: bool) -> u8 {
    flag_byte(!accumulator && res == 0, false, false, out)
}

pub fn shift(op: Byte, v: Byte, f: Byte, accumulator: bool) -> (r: (Byte, Byte))
    requires
        op < 8,
    ensures
        r.0 == shift_result(op as int, v, cf(f)).0,
        r.1 == shift_flags(r.0, shift_result(op as int, v, cf(f)).1, accumulator),
        flags_valid(r.1),
{
    let c: u8 = if f / 16 % 2 == 1 { 1 } else { 0 };
    let (res, out): (u8, bool) = if op == 0 {
        (v % 128 * 2 + v / 128, v >= 128)
    } else if op == 1 {
        (v / 2 + v % 2 * 128, v % 2 == 1)
    } else if op == 2 {
        (v % 128 * 2 + c, v >= 128)
    } else if op == 3 {
        (v / 2 + c * 128, v % 2 == 1)
    } else if op == 4 {
        (v % 128 * 2, v >= 128)
    } else if op == 5 {
        (v / 2 + v / 128 * 128, v % 2 == 1)
    } else if op == 6 {
        (v % 16 * 16 + v / 16, false)
    } else {
        (v / 2, v % 2 == 1)
    };
    (res, flags(!accumulator && res == 0, false, false, out))
}

/// Whether bit `b` of `v` is set.
pub open spec fn bit_of(v: u8, b: u8) -> bool {
    (v >> b) & 1 == 1
}

/// `BIT b`: Z is the complement of the bit, N clear, H set, C kept.
pub open spec fn bit_flags(v: u8, b: u8, f: u8) -> u8 {
    flag_byte(!bit_of(v, b), false, true, cf(f))
}

pub fn test_bit(v: Byte, b: Byte, f: Byte) -> (r: Byte)
    requires
        b < 8,
    ensures
        r == bit_flags(v, b, f),
        flags_valid(r),
{
    flags((v >> b) & 1 != 1, false, true, f / 16 % 2 == 1)
}

} // verus!
