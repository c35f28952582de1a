use vstd::prelude::*;

use crate::alu::{
    add16_result, add_sp_result, alu_result, bit_flags, cf, daa_result, dec_result, flag_byte,
    inc_result, shift_flags, shift_result, zf,
};
use crate::decoder::SizedInstruction;
use crate::instruction::{Instruction, Register16};
use crate::memory::{BusView, DIV_ADDRESS, INTERRUPT_ENABLE_ADDRESS, INTERRUPT_FLAG_ADDRESS};
use crate::cpu::CPU;
use crate::utils::{high_of, low_of, word_of};

verus! {

pub open spec fn inc16(w: u16) -> u16 {
    ((w + 1) % 65536) as u16
}

pub open spec fn dec16(w: u16) -> u16 {
    ((w + 65535) % 65536) as u16
}

/// `w` pushed on a stack whose pointer is `sp`: high byte first.
pub open spec fn pushed(m: BusView, sp: u16, w: u16) -> BusView {
    m.write(dec16(sp), high_of(w)).write(dec16(dec16(sp)), low_of(w))
}

/// The word on top of a stack whose pointer is `sp`.
pub open spec fn top(m: BusView, sp: u16) -> u16 {
    word_of(m.read(sp), m.read(inc16(sp)))
}

/// `next` moved by the signed offset `e`.
pub open spec fn relative(next: u16, e: i8) -> u16 {
    ((next + e + 65536) % 65536) as u16
}

/// Interrupts requested and enabled.
pub open spec fn pending(m: BusView) -> u8 {
    m.ram[INTERRUPT_FLAG_ADDRESS as int] & m.ram[INTERRUPT_ENABLE_ADDRESS as int] & 0x1F
}

/// Effect of a load or stack instruction; `t` is the state with PC moved on.
pub open spec fn load_step(s: CPU, m: BusView, ins: Instruction, t: CPU) -> (CPU, BusView, u8) {
    match ins {
        Instruction::LD_R_R(d, r) => (t.with_reg(d, s.reg(r)), m, 4),
        Instruction::LD_R_N(r, n) => (t.with_reg(r, n), m, 8),
        Instruction::LD_R_HL(r) => (t.with_reg(r, m.read(s.hl())), m, 8),
        Instruction::LD_HL_R(r) => (t, m.write(s.hl(), s.reg(r)), 8),
        Instruction::LD_HL_N(n) => (t, m.write(s.hl(), n), 12),
        Instruction::LD_A_BC => (CPU { a: m.read(s.pair(Register16::BC)), ..t }, m, 8),
        Instruction::LD_A_DE => (CPU { a: m.read(s.pair(Register16::DE)), ..t }, m, 8),
        Instruction::LD_BC_A => (t, m.write(s.pair(Register16::BC), s.a), 8),
        Instruction::LD_DE_A => (t, m.write(s.pair(Register16::DE), s.a), 8),
        Instruction::LD_A_NN(nn) => (CPU { a: m.read(nn), ..t }, m, 16),
        Instruction::LD_NN_A(nn) => (t, m.write(nn, s.a), 16),
        Instruction::LDH_A_C => (CPU { a: m.read(word_of(s.c, 0xFF)), ..t }, m, 8),
        Instruction::LDH_C_A => (t, m.write(word_of(s.c, 0xFF), s.a), 8),
        Instruction::LDH_A_N(n) => (CPU { a: m.read(word_of(n, 0xFF)), ..t }, m, 12),
        Instruction::LDH_N_A(n) => (t, m.write(word_of(n, 0xFF), s.a), 12),
        Instruction::LD_A_HL_I => (
            CPU { a: m.read(s.hl()), ..t }.with_pair(Register16::HL, inc16(s.hl())),
            m,
            8,
        ),
        Instruction::LD_A_HL_D => (
            CPU { a: m.read(s.hl()), ..t }.with_pair(Register16::HL, dec16(s.hl())),
            m,
            8,
        ),
        Instruction::LD_HL_A_I => (
            t.with_pair(Register16::HL, inc16(s.hl())),
            m.write(s.hl(), s.a),
            8,
        ),
        Instruction::LD_HL_A_D => (
            t.with_pair(Register16::HL, dec16(s.hl())),
            m.write(s.hl(), s.a),
            8,
        ),
        Instruction::LD_RR_NN(rr, nn) => (t.with_pair(rr, nn), m, 12),
        Instruction::LD_NN_SP(nn) => (t, m.write_word(nn, s.sp), 20),
        Instruction::LD_SP_HL => (CPU { sp: s.hl(), ..t }, m, 8),
        Instruction::LD_HL_SP(e) => (
            CPU { f: add_sp_result(s.sp, e).1, ..t.with_pair(Register16::HL, add_sp_result(s.sp, e).0) },
            m,
            12,
        ),
        Instruction::PUSH(rr) => (CPU { sp: dec16(dec16(s.sp)), ..t }, pushed(m, s.sp, s.pair(rr)), 16),
        Instruction::POP(rr) => (CPU { sp: inc16(inc16(s.sp)), ..t }.with_pair(rr, top(m, s.sp)), m, 12),
        _ => (s, m, 0),
    }
}

/// Loads that move HL, SP or a register pair.
pub open spec fn is_load16(ins: Instruction) -> bool {
    match ins {
        Instruction::LD_A_HL_I | Instruction::LD_A_HL_D | Instruction::LD_HL_A_I
        | Instruction::LD_HL_A_D | Instruction::LD_RR_NN(_, _) | Instruction::LD_NN_SP(_)
        | Instruction::LD_SP_HL | Instruction::LD_HL_SP(_) | Instruction::PUSH(_)
        | Instruction::POP(_) => true,
        _ => false,
    }
}

pub open spec fn is_load(ins: Instruction) -> bool {
    match ins {
        Instruction::LD_R_R(_, _) | Instruction::LD_R_N(_, _) | Instruction::LD_R_HL(_)
        | Instruction::LD_HL_R(_) | Instruction::LD_HL_N(_) | Instruction::LD_A_BC
        | Instruction::LD_A_DE | Instruction::LD_BC_A | Instruction::LD_DE_A
        | Instruction::LD_A_NN(_) | Instruction::LD_NN_A(_) | Instruction::LDH_A_C
        | Instruction::LDH_C_A | Instruction::LDH_A_N(_) | Instruction::LDH_N_A(_)
        | Instruction::LD_A_HL_I | Instruction::LD_A_HL_D | Instruction::LD_HL_A_I
        | Instruction::LD_HL_A_D | Instruction::LD_RR_NN(_, _) | Instruction::LD_NN_SP(_)
        | Instruction::LD_SP_HL | Instruction::LD_HL_SP(_) | Instruction::PUSH(_)
        | Instruction::POP(_) => true,
        _ => false,
    }
}

/// The accumulator operation of an ALU instruction and where its operand
/// comes from: 0 a register, 1 the cell at HL, 2 the immediate byte.
pub open spec fn alu_form(ins: Instruction) -> (int, int) {
    match ins {
        Instruction::ADD_R(_) => (0, 0),
        Instruction::ADD_HL => (0, 1),
        Instruction::ADD_N(_) => (0, 2),
        Instruction::ADC_R(_) => (1, 0),
        Instruction::ADC_HL => (1, 1),
        Instruction::ADC_N(_) => (1, 2),
        Instruction::SUB_R(_) => (2, 0),
        Instruction::SUB_HL => (2, 1),
        Instruction::SUB_N(_) => (2, 2),
        Instruction::SBC_R(_) => (3, 0),
        Instruction::SBC_HL => (3, 1),
        Instruction::SBC_N(_) => (3, 2),
        Instruction::AND_R(_) => (4, 0),
        Instruction::AND_HL => (4, 1),
        Instruction::AND_N(_) => (4, 2),
        Instruction::XOR_R(_) => (5, 0),
        Instruction::XOR_HL => (5, 1),
        Instruction::XOR_N(_) => (5, 2),
        Instruction::OR_R(_) => (6, 0),
        Instruction::OR_HL => (6, 1),
        Instruction::OR_N(_) => (6, 2),
        Instruction::CP_R(_) => (7, 0),
        Instruction::CP_HL => (7, 1),
        Instruction::CP_N(_) => (7, 2),
        _ => (-1, -1),
    }
}

pub open spec fn is_alu(ins: Instruction) -> bool {
    alu_form(ins).0 >= 0
}

/// The operand of an ALU instruction.
pub open spec fn alu_operand(s: CPU, m: BusView, ins: Instruction) -> u8 {
    match ins {
        Instruction::ADD_R(r) | Instruction::ADC_R(r) | Instruction::SUB_R(r) | Instruction::SBC_R(r)
        | Instruction::AND_R(r) | Instruction::XOR_R(r) | Instruction::OR_R(r) | Instruction::CP_R(
            r,
        ) => s.reg(r),
        Instruction::ADD_N(n) | Instruction::ADC_N(n) | Instruction::SUB_N(n) | Instruction::SBC_N(n)
        | Instruction::AND_N(n) | Instruction::XOR_N(n) | Instruction::OR_N(n) | Instruction::CP_N(
            n,
        ) => n,
        _ => m.read(s.hl()),
    }
}

pub open spec fn alu_step(s: CPU, m: BusView, ins: Instruction, t: CPU) -> (CPU, BusView, u8) {
    let (op, src) = alu_form(ins);
    let (res, f) = alu_result(op, s.a, alu_operand(s, m, ins), s.f);
    (CPU { a: res, f: f, ..t }, m, if src == 0 { 4 } else { 8 })
}

/// The rotate/shift number (CB opcode order) of a CB or accumulator
/// rotate instruction, and whether it acts on the cell at HL.
pub open spec fn shift_form(ins: Instruction) -> (int, bool) {
    match ins {
        Instruction::RLC(_) => (0, false),
        Instruction::RLC_HL => (0, true),
        Instruction::RRC(_) => (1, false),
        Instruction::RRC_HL => (1, true),
        Instruction::RL(_) => (2, false),
        Instruction::RL_HL => (2, true),
        Instruction::RR(_) => (3, false),
        Instruction::RR_HL => (3, true),
        Instruction::SLA(_) => (4, false),
        Instruction::SLA_HL => (4, true),
        Instruction::SRA(_) => (5, false),
        Instruction::SRA_HL => (5, true),
        Instruction::SWAP(_) => (6, false),
        Instruction::SWAP_HL => (6, true),
        Instruction::SRL(_) => (7, false),
        Instruction::SRL_HL => (7, true),
        _ => (-1, false),
    }
}

pub open spec fn shifted(v: u8, op: int, f: u8, accumulator: bool) -> (u8, u8) {
    let (res, out) = shift_result(op, v, cf(f));
    (res, shift_flags(res, out, accumulator))
}

pub open spec fn bit_mask(b: u8) -> u8 {
    (1u8 << b) as u8
}

/// Effect of a CB-prefixed instruction.
pub open spec fn cb_step(s: CPU, m: BusView, ins: Instruction, t: CPU) -> (CPU, BusView, u8) {
    match ins {
        Instruction::BIT(b, r) => (CPU { f: bit_flags(s.reg(r), b, s.f), ..t }, m, 8),
        Instruction::BIT_HL(b) => (CPU { f: bit_flags(m.read(s.hl()), b, s.f), ..t }, m, 12),
        Instruction::RES(b, r) => (t.with_reg(r, s.reg(r) & !bit_mask(b)), m, 8),
        Instruction::RES_HL(b) => (t, m.write(s.hl(), m.read(s.hl()) & !bit_mask(b)), 16),
        Instruction::SET(b, r) => (t.with_reg(r, s.reg(r) | bit_mask(b)), m, 8),
        Instruction::SET_HL(b) => (t, m.write(s.hl(), m.read(s.hl()) | bit_mask(b)), 16),
        Instruction::RLC(r) | Instruction::RRC(r) | Instruction::RL(r) | Instruction::RR(r)
        | Instruction::SLA(r) | Instruction::SRA(r) | Instruction::SWAP(r) | Instruction::SRL(r) => {
            let (res, f) = shifted(s.reg(r), shift_form(ins).0, s.f, false);
            (CPU { f: f, ..t.with_reg(r, res) }, m, 8)
        },
        _ => {
            let (res, f) = shifted(m.read(s.hl()), shift_form(ins).0, s.f, false);
            (CPU { f: f, ..t }, m.write(s.hl(), res), 16)
        },
    }
}

pub open spec fn is_cb(ins: Instruction) -> bool {
    shift_form(ins).0 >= 0 || match ins {
        Instruction::BIT(_, _) | Instruction::BIT_HL(_) | Instruction::RES(_, _)
        | Instruction::RES_HL(_) | Instruction::SET(_, _) | Instruction::SET_HL(_) => true,
        _ => false,
    }
}

/// Effect of a jump, call, return or restart; `next` is the address of the
/// following instruction.
pub open spec fn flow_step(s: CPU, m: BusView, ins: Instruction, next: u16) -> (CPU, BusView, u8) {
    let t = CPU { pc: next, ..s };
    match ins {
        Instruction::JP_NN(nn) => (CPU { pc: nn, ..s }, m, 16),
        Instruction::JP_HL => (CPU { pc: s.hl(), ..s }, m, 4),
        Instruction::JP_CC_NN(cc, nn) => if s.cond(cc) {
            (CPU { pc: nn, ..s }, m, 16)
        } else {
            (t, m, 12)
        },
        Instruction::JR(e) => (CPU { pc: relative(next, e), ..s }, m, 12),
        Instruction::JR_CC(cc, e) => if s.cond(cc) {
            (CPU { pc: relative(next, e), ..s }, m, 12)
        } else {
            (t, m, 8)
        },
        Instruction::CALL(nn) => (CPU { pc: nn, sp: dec16(dec16(s.sp)), ..s }, pushed(m, s.sp, next), 24),
        Instruction::CALL_CC(cc, nn) => if s.cond(cc) {
            (CPU { pc: nn, sp: dec16(dec16(s.sp)), ..s }, pushed(m, s.sp, next), 24)
        } else {
            (t, m, 12)
        },
        Instruction::RET => (CPU { pc: top(m, s.sp), sp: inc16(inc16(s.sp)), ..s }, m, 16),
        Instruction::RET_CC(cc) => if s.cond(cc) {
            (CPU { pc: top(m, s.sp), sp: inc16(inc16(s.sp)), ..s }, m, 20)
        } else {
            (t, m, 8)
        },
        Instruction::RETI => (
            CPU { pc: top(m, s.sp), sp: inc16(inc16(s.sp)), ime: true, ..s },
            m,
            16,
        ),
        Instruction::RST(n) => (
            CPU { pc: n as u16, sp: dec16(dec16(s.sp)), ..s },
            pushed(m, s.sp, next),
            16,
        ),
        _ => (s, m, 0),
    }
}

pub open spec fn is_flow(ins: Instruction) -> bool {
    match ins {
        Instruction::JP_NN(_) | Instruction::JP_HL | Instruction::JP_CC_NN(_, _) | Instruction::JR(_)
        | Instruction::JR_CC(_, _) | Instruction::CALL(_) | Instruction::CALL_CC(_, _)
        | Instruction::RET | Instruction::RET_CC(_) | Instruction::RETI | Instruction::RST(_) => true,
        _ => false,
    }
}

/// 8-bit increments and decrements.
pub open spec fn is_incdec8(ins: Instruction) -> bool {
    match ins {
        Instruction::INC_R(_) | Instruction::DEC_R(_) | Instruction::INC_HL | Instruction::DEC_HL => true,
        _ => false,
    }
}

/// 16-bit increments, decrements and additions.
pub open spec fn is_arith16(ins: Instruction) -> bool {
    match ins {
        Instruction::INC_RR(_) | Instruction::DEC_RR(_) | Instruction::ADD_HL_RR(_)
        | Instruction::ADD_SP_E(_) => true,
        _ => false,
    }
}

pub open spec fn is_incdec(ins: Instruction) -> bool {
    is_incdec8(ins) || is_arith16(ins)
}

/// Effect of the remaining instructions: 8- and 16-bit increments,
/// 16-bit additions, accumulator rotates, flag and interrupt control.
pub open spec fn misc_step(s: CPU, m: BusView, ins: Instruction, t: CPU) -> (CPU, BusView, u8) {
    match ins {
        Instruction::INC_R(r) => {
            let (res, f) = inc_result(s.reg(r), s.f);
            (CPU { f: f, ..t.with_reg(r, res) }, m, 4)
        },
        Instruction::DEC_R(r) => {
            let (res, f) = dec_result(s.reg(r), s.f);
            (CPU { f: f, ..t.with_reg(r, res) }, m, 4)
        },
        Instruction::INC_HL => {
            let (res, f) = inc_result(m.read(s.hl()), s.f);
            (CPU { f: f, ..t }, m.write(s.hl(), res), 12)
        },
        Instruction::DEC_HL => {
            let (res, f) = dec_result(m.read(s.hl()), s.f);
            (CPU { f: f, ..t }, m.write(s.hl(), res), 12)
        },
        Instruction::INC_RR(rr) => (t.with_pair(rr, inc16(s.pair(rr))), m, 8),
        Instruction::DEC_RR(rr) => (t.with_pair(rr, dec16(s.pair(rr))), m, 8),
        Instruction::ADD_HL_RR(rr) => {
            let (res, f) = add16_result(s.hl(), s.pair(rr), s.f);
            (CPU { f: f, ..t.with_pair(Register16::HL, res) }, m, 8)
        },
        Instruction::ADD_SP_E(e) => {
            let (res, f) = add_sp_result(s.sp, e);
            (CPU { sp: res, f: f, ..t }, m, 16)
        },
        Instruction::RLCA => {
            let (res, f) = shifted(s.a, 0, s.f, true);
            (CPU { a: res, f: f, ..t }, m, 4)
        },
        Instruction::RRCA => {
            let (res, f) = shifted(s.a, 1, s.f, true);
            (CPU { a: res, f: f, ..t }, m, 4)
        },
        Instruction::RLA => {
            let (res, f) = shifted(s.a, 2, s.f, true);
            (CPU { a: res, f: f, ..t }, m, 4)
        },
        Instruction::RRA => {
            let (res, f) = shifted(s.a, 3, s.f, true);
            (CPU { a: res, f: f, ..t }, m, 4)
        },
        Instruction::CCF => (CPU { f: flag_byte(zf(s.f), false, false, !cf(s.f)), ..t }, m, 4),
        Instruction::SCF => (CPU { f: flag_byte(zf(s.f), false, false, true), ..t }, m, 4),
        Instruction::DAA => {
            let (res, f) = daa_result(s.a, s.f);
            (CPU { a: res, f: f, ..t }, m, 4)
        },
        Instruction::CPL => (
            CPU { a: (255 - s.a) as u8, f: flag_byte(zf(s.f), true, true, cf(s.f)), ..t },
            m,
            4,
        ),
        Instruction::EI => (CPU { ime_pending: true, ..t }, m, 4),
        Instruction::DI => (CPU { ime: false, ime_pending: false, ..t }, m, 4),
        Instruction::HALT => if !s.ime && pending(m) != 0 {
            (CPU { halt_bug: true, ..t }, m, 4)
        } else {
            (CPU { halt: true, ..t }, m, 4)
        },
        Instruction::STOP => (t, m.write(DIV_ADDRESS, 0), 4),
        _ => (t, m, 4),
    }
}

/// Effect of `ins` on the CPU and the bus, and its cost in T-cycles;
/// `next` is the address of the following instruction.
#[verifier::opaque]
pub open spec fn step(s: CPU, m: BusView, ins: Instruction, next: u16) -> (CPU, BusView, u8) {
    let t = CPU { pc: next, ..s };
    if is_load(ins) {
        load_step(s, m, ins, t)
    } else if is_alu(ins) {
        alu_step(s, m, ins, t)
    } else if is_cb(ins) {
        cb_step(s, m, ins, t)
    } else if is_flow(ins) {
        flow_step(s, m, ins, next)
    } else {
        misc_step(s, m, ins, t)
    }
}

/// The bytes the CPU decodes from: under the HALT bug the opcode byte is
/// read twice.
pub open spec fn instruction_stream(s: CPU, m: BusView) -> Seq<u8> {
    if s.halt_bug {
        seq![m.read(s.pc), m.read(s.pc), m.read(s.pc.wrapping_add(1))]
    } else {
        seq![m.read(s.pc), m.read(s.pc.wrapping_add(1)), m.read(s.pc.wrapping_add(2))]
    }
}

/// The address after an instruction of `size` bytes at PC.
pub open spec fn next_pc(s: CPU, size: u16) -> u16 {
    ((s.pc + size - (if s.halt_bug { 1int } else { 0 }) + 65536) % 65536) as u16
}

/// Executing the decoded instruction `si`: the HALT bug and a pending `EI`
/// are consumed, and IME is set after the instruction that follows `EI`
/// unless it is `DI`.
pub open spec fn executed(s: CPU, m: BusView, si: SizedInstruction) -> (CPU, BusView, u8) {
    let s0 = CPU { halt_bug: false, ime_pending: false, ..s };
    let (s1, m1, cycles) = step(s0, m, si.instruction, next_pc(s, si.size));
    if s.ime_pending && !(si.instruction is DI) {
        (CPU { ime: true, ..s1 }, m1, cycles)
    } else {
        (s1, m1, cycles)
    }
}

/// The lowest set bit of a non-zero interrupt mask.
pub open spec fn lowest_interrupt(p: u8) -> u8 {
    if p % 2 == 1 {
        0
    } else if p / 2 % 2 == 1 {
        1
    } else if p / 4 % 2 == 1 {
        2
    } else if p / 8 % 2 == 1 {
        3
    } else {
        4
    }
}

/// Interrupt dispatch after an instruction: a pending interrupt ends HALT;
/// with IME set the highest-priority one is acknowledged, PC is pushed and
/// the CPU jumps to its vector in 20 T-cycles.
pub open spec fn dispatched(s: CPU, m: BusView) -> (CPU, BusView, u8) {
    let p = pending(m);
    let s0 = if p != 0 { CPU { halt: false, ..s } } else { s };
    if s.ime && p != 0 {
        let i = lowest_interrupt(p);
        let iflag = m.ram[INTERRUPT_FLAG_ADDRESS as int];
        let m0 = BusView {
            ram: m.ram.update(INTERRUPT_FLAG_ADDRESS as int, iflag & !((1u8 << i) as u8)),
            ..m
        };
        (
            CPU { ime: false, sp: dec16(dec16(s.sp)), pc: (0x40 + 8 * i) as u16, ..s0 },
            pushed(m0, s.sp, s.pc),
            20,
        )
    } else {
        (s0, m, 0)
    }
}

/// Whether `ins` moves PC somewhere else than the next instruction when
/// run in state `s`: jumps, calls, returns and restarts, the conditional
/// ones only when their condition holds.
pub open spec fn transfers_control(s: CPU, ins: Instruction) -> bool {
    match ins {
        Instruction::JP_CC_NN(cc, _) | Instruction::JR_CC(cc, _) | Instruction::CALL_CC(cc, _)
        | Instruction::RET_CC(cc) => s.cond(cc),
        _ => is_flow(ins),
    }
}

proof fn lemma_load_pc(s: CPU, m: BusView, ins: Instruction, t: CPU)
    requires
        is_load(ins),
    ensures
        load_step(s, m, ins, t).0.pc == t.pc,
{
}

proof fn lemma_alu_pc(s: CPU, m: BusView, ins: Instruction, t: CPU)
    requires
        is_alu(ins),
    ensures
        alu_step(s, m, ins, t).0.pc == t.pc,
{
}

proof fn lemma_cb_pc(s: CPU, m: BusView, ins: Instruction, t: CPU)
    requires
        is_cb(ins),
    ensures
        cb_step(s, m, ins, t).0.pc == t.pc,
{
}

proof fn lemma_flow_pc(s: CPU, m: BusView, ins: Instruction, next: u16)
    requires
        is_flow(ins),
        !transfers_control(s, ins),
    ensures
        flow_step(s, m, ins, next).0.pc == next,
{
}

proof fn lemma_misc_pc(s: CPU, m: BusView, ins: Instruction, t: CPU)
    ensures
        misc_step(s, m, ins, t).0.pc == t.pc,
{
}

/// An instruction that does not transfer control leaves PC just past its
/// own bytes, the same `size` that decoding it consumed.
pub proof fn lemma_pc_advance(s: CPU, m: BusView, si: SizedInstruction)
    requires
        !transfers_control(CPU { halt_bug: false, ime_pending: false, ..s }, si.instruction),
    ensures
        executed(s, m, si).0.pc == next_pc(s, si.size),
{
    reveal(step);
    let s0 = CPU { halt_bug: false, ime_pending: false, ..s };
    let next = next_pc(s, si.size);
    let t = CPU { pc: next, ..s0 };
    let ins = si.instruction;
    if is_load(ins) {
        lemma_load_pc(s0, m, ins, t);
    } else if is_alu(ins) {
        lemma_alu_pc(s0, m, ins, t);
    } else if is_cb(ins) {
        lemma_cb_pc(s0, m, ins, t);
    } else if is_flow(ins) {
        lemma_flow_pc(s0, m, ins, next);
    } else {
        lemma_misc_pc(s0, m, ins, t);
    }
}

/// Setting a register pair and reading it back gives the value written;
/// for AF only when its low nibble is clear, since F keeps none.
pub proof fn lemma_pair_round_trip(s: CPU, rr: Register16, v: u16)
    requires
        rr != Register16::AF || v % 16 == 0,
    ensures
        s.with_pair(rr, v).pair(rr) == v,
{
}

} // verus!
