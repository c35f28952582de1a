use vstd::prelude::*;

use crate::alu::{
    add16, add16_result, add_sp, alu, cf, daa, dec8, flags, flags_valid, inc8, lemma_flags_valid, shift,
    test_bit, zf,
};
use crate::decoder::{decoded, DecodeError, SizedInstruction};
use crate::instruction::{canonical, Condition, Instruction, Register, Register16};
use crate::memory::{Memory, DIV_ADDRESS, INTERRUPT_ENABLE_ADDRESS, INTERRUPT_FLAG_ADDRESS};
use crate::semantics::{
    alu_step, cb_step, dec16, dispatched, executed, flow_step, inc16, instruction_stream, is_alu,
    is_arith16, is_cb, is_flow, is_incdec, is_incdec8, is_load, is_load16, load_step, lowest_interrupt, misc_step, pushed, step, top,
};
use crate::utils::{high_of, low_of, to_word, word_of, Byte, Word};

verus! {

/// The CPU's register file and interrupt latches.
#[derive(Debug, Clone, Copy, PartialEq, Eq, Structural)]
pub struct CPU {
    pub a: u8,
    pub b: u8,
    pub c: u8,
    pub d: u8,
    pub e: u8,
    pub h: u8,
    pub l: u8,
    /// Flags: Z, N, H, C in bits 7-4; the low nibble stays clear.
    pub f: u8,
    /// Stack pointer
    pub sp: u16,
    /// Program counter
    pub pc: u16,
    /// Interrupt master enable
    pub ime: bool,
    /// IME is set once the instruction after `EI` completes.
    pub ime_pending: bool,
    /// Waiting for an interrupt
    pub halt: bool,
    /// The next opcode byte is read twice.
    pub halt_bug: bool,
}

impl CPU {
    pub open spec fn wf(self) -> bool {
        flags_valid(self.f)
    }

    pub open spec fn reg(self, r: Register) -> u8 {
        match r {
            Register::A => self.a,
            Register::B => self.b,
            Register::C => self.c,
            Register::D => self.d,
            Register::E => self.e,
            Register::H => self.h,
            Register::L => self.l,
            Register::HL => 0,
        }
    }

    pub open spec fn with_reg(self, r: Register, v: u8) -> CPU {
        match r {
            Register::A => CPU { a: v, ..self },
            Register::B => CPU { b: v, ..self },
            Register::C => CPU { c: v, ..self },
            Register::D => CPU { d: v, ..self },
            Register::E => CPU { e: v, ..self },
            Register::H => CPU { h: v, ..self },
            Register::L => CPU { l: v, ..self },
            Register::HL => self,
        }
    }

    pub open spec fn pair(self, rr: Register16) -> u16 {
        match rr {
            Register16::BC => word_of(self.c, self.b),
            Register16::DE => word_of(self.e, self.d),
            Register16::HL => word_of(self.l, self.h),
            Register16::SP => self.sp,
            Register16::AF => word_of(self.f, self.a),
        }
    }

    /// The register file with pair `rr` set to `w`; F keeps only the high
    /// nibble of its byte.
    pub open spec fn with_pair(self, rr: Register16, w: u16) -> CPU {
        match rr {
            Register16::BC => CPU { b: high_of(w), c: low_of(w), ..self },
            Register16::DE => CPU { d: high_of(w), e: low_of(w), ..self },
            Register16::HL => CPU { h: high_of(w), l: low_of(w), ..self },
            Register16::SP => CPU { sp: w, ..self },
            Register16::AF => CPU { a: high_of(w), f: (low_of(w) / 16 * 16) as u8, ..self },
        }
    }

    pub open spec fn hl(self) -> u16 {
        self.pair(Register16::HL)
    }

    pub open spec fn cond(self, cc: Condition) -> bool {
        match cc {
            Condition::NonZero => !zf(self.f),
            Condition::Zero => zf(self.f),
            Condition::NotCarry => !cf(self.f),
            Condition::Carry => cf(self.f),
        }
    }
}



impl CPU {
    /// Power-on state, with a boot ROM to run from address 0.
    pub fn power_on() -> (r: Self)
        ensures
            r == (CPU {
                a: 0,
                b: 0,
                c: 0,
                d: 0,
                e: 0,
                h: 0,
                l: 0,
                f: 0,
                sp: 0xFFFE,
                pc: 0,
                ime: false,
                ime_pending: false,
                halt: false,
                halt_bug: false,
            }),
            r.wf(),
    {
        proof {
            lemma_flags_valid(0);
        }
        CPU {
            a: 0,
            b: 0,
            c: 0,
            d: 0,
            e: 0,
            h: 0,
            l: 0,
            f: 0,
            sp: 0xFFFE,
            pc: 0,
            ime: false,
            ime_pending: false,
            halt: false,
            halt_bug: false,
        }
    }

    pub open spec fn start_spec() -> CPU {
        CPU {
            a: 0x01,
            b: 0x00,
            c: 0x13,
            d: 0x00,
            e: 0xD8,
            h: 0x01,
            l: 0x4D,
            f: 0xB0,
            sp: 0xFFFE,
            pc: 0x0100,
            ime: false,
            ime_pending: false,
            halt: false,
            halt_bug: false,
        }
    }

    /// The start state without a boot ROM, as a boot ROM leaves it:
    /// PC=0x0100, AF=0x01B0, BC=0x0013, DE=0x00D8, HL=0x014D, SP=0xFFFE.
    pub fn new() -> (r: Self)
        ensures
            r == Self::start_spec(),
            r.pc == 0x0100,
            r.pair(Register16::AF) == 0x01B0,
            r.pair(Register16::BC) == 0x0013,
            r.pair(Register16::DE) == 0x00D8,
            r.pair(Register16::HL) == 0x014D,
            r.sp == 0xFFFE,
            !r.ime && !r.ime_pending && !r.halt && !r.halt_bug,
            r.wf(),
    {
        proof {
            lemma_flags_valid(0xB0);
        }
        CPU {
            a: 0x01,
            b: 0x00,
            c: 0x13,
            d: 0x00,
            e: 0xD8,
            h: 0x01,
            l: 0x4D,
            f: 0xB0,
            sp: 0xFFFE,
            pc: 0x0100,
            ime: false,
            ime_pending: false,
            halt: false,
            halt_bug: false,
        }
    }

    pub fn get_register(&self, reg: Register) -> (r: Byte)
        requires
            reg != Register::HL,
        ensures
            r == self.reg(reg),
    {
        match reg {
            Register::A => self.a,
            Register::B => self.b,
            Register::C => self.c,
            Register::D => self.d,
            Register::E => self.e,
            Register::H => self.h,
            Register::L => self.l,
            Register::HL => 0,
        }
    }

    pub fn set_register(&mut self, reg: Register, byte: Byte)
        requires
            reg != Register::HL,
        ensures
            *final(self) == old(self).with_reg(reg, byte),
    {
        match reg {
            Register::A => self.a = byte,
            Register::B => self.b = byte,
            Register::C => self.c = byte,
            Register::D => self.d = byte,
            Register::E => self.e = byte,
            Register::H => self.h = byte,
            Register::L => self.l = byte,
            Register::HL => {},
        }
    }

    pub fn get_register16(&self, reg: Register16) -> (r: Word)
        ensures
            r == self.pair(reg),
    {
        match reg {
            Register16::SP => self.sp,
            Register16::BC => to_word(self.c, self.b),
            Register16::DE => to_word(self.e, self.d),
            Register16::AF => to_word(self.f, self.a),
            Register16::HL => to_word(self.l, self.h),
        }
    }

    /// Set a register pair; for AF the low nibble of F stays clear.
    pub fn set_register16(&mut self, reg: Register16, word: Word)
        requires
            old(self).wf(),
        ensures
            *final(self) == old(self).with_pair(reg, word),
            final(self).wf(),
    {
        let high = (word / 256) as u8;
        let low = (word % 256) as u8;
        match reg {
            Register16::SP => self.sp = word,
            Register16::BC => {
                self.b = high;
                self.c = low;
            },
            Register16::DE => {
                self.d = high;
                self.e = low;
            },
            Register16::AF => {
                self.a = high;
                self.f = low / 16 * 16;
                proof {
                    lemma_flags_valid(self.f);
                }
            },
            Register16::HL => {
                self.h = high;
                self.l = low;
            },
        }
    }

    fn get_hl(&self) -> (r: Word)
        ensures
            r == self.hl(),
    {
        self.get_register16(Register16::HL)
    }

    fn set_hl(&mut self, word: Word)
        requires
            old(self).wf(),
        ensures
            *final(self) == old(self).with_pair(Register16::HL, word),
            final(self).wf(),
    {
        self.set_register16(Register16::HL, word);
    }

    pub fn get_condition(&self, cc: Condition) -> (r: bool)
        ensures
            r == self.cond(cc),
    {
        let z = self.f / 128 % 2 == 1;
        let c = self.f / 16 % 2 == 1;
        match cc {
            Condition::NonZero => !z,
            Condition::Zero => z,
            Condition::NotCarry => !c,
            Condition::Carry => c,
        }
    }

    fn push_word(&mut self, memory: &mut Memory, word: Word)
        requires
            old(memory).wf(),
        ensures
            final(memory).wf(),
            final(memory)@ == pushed(old(memory)@, old(self).sp, word),
            *final(self) == (CPU { sp: dec16(dec16(old(self).sp)), ..*old(self) }),
    {
        let sp1 = self.sp.wrapping_sub(1);
        memory.write_byte(sp1, (word / 256) as u8);
        let sp2 = sp1.wrapping_sub(1);
        memory.write_byte(sp2, (word % 256) as u8);
        self.sp = sp2;
    }

    fn pop_word(&mut self, memory: &Memory) -> (r: Word)
        requires
            memory.wf(),
        ensures
            r == top(memory@, old(self).sp),
            *final(self) == (CPU { sp: inc16(inc16(old(self).sp)), ..*old(self) }),
    {
        let lsb = memory.read_byte(self.sp);
        let sp1 = self.sp.wrapping_add(1);
        let msb = memory.read_byte(sp1);
        self.sp = sp1.wrapping_add(1);
        to_word(lsb, msb)
    }
}


impl CPU {
    fn exec_load(&mut self, memory: &mut Memory, ins: Instruction, next: Word) -> (r: u8)
        requires
            old(self).wf(),
            old(memory).wf(),
            is_load(ins),
            canonical(ins),
        ensures
            final(self).wf(),
            final(memory).wf(),
            (*final(self), final(memory)@, r) == load_step(
                *old(self),
                old(memory)@,
                ins,
                CPU { pc: next, ..*old(self) },
            ),
    {
        if matches!(
            ins,
            Instruction::LD_A_HL_I | Instruction::LD_A_HL_D | Instruction::LD_HL_A_I
                | Instruction::LD_HL_A_D | Instruction::LD_RR_NN(_, _) | Instruction::LD_NN_SP(_)
                | Instruction::LD_SP_HL | Instruction::LD_HL_SP(_) | Instruction::PUSH(_)
                | Instruction::POP(_)
        ) {
            self.exec_load16(memory, ins, next)
        } else {
            self.exec_load8(memory, ins, next)
        }
    }

    #[verifier::rlimit(100)]
    #[verifier::spinoff_prover]
    fn exec_load8(&mut self, memory: &mut Memory, ins: Instruction, next: Word) -> (r: u8)
        requires
            old(self).wf(),
            old(memory).wf(),
            is_load(ins),
            !is_load16(ins),
            canonical(ins),
        ensures
            final(self).wf(),
            final(memory).wf(),
            (*final(self), final(memory)@, r) == load_step(
                *old(self),
                old(memory)@,
                ins,
                CPU { pc: next, ..*old(self) },
            ),
    {
        let hl = self.get_hl();
        let a = self.a;
        self.pc = next;
        match ins {
            Instruction::LD_R_R(d, r) => {
                let v = self.get_register(r);
                self.set_register(d, v);
                4
            },
            Instruction::LD_R_N(r, n) => {
                self.set_register(r, n);
                8
            },
            Instruction::LD_R_HL(r) => {
                let v = memory.read_byte(hl);
                self.set_register(r, v);
                8
            },
            Instruction::LD_HL_R(r) => {
                let v = self.get_register(r);
                memory.write_byte(hl, v);
                8
            },
            Instruction::LD_HL_N(n) => {
                memory.write_byte(hl, n);
                12
            },
            Instruction::LD_A_BC => {
                let address = self.get_register16(Register16::BC);
                self.a = memory.read_byte(address);
                8
            },
            Instruction::LD_A_DE => {
                let address = self.get_register16(Register16::DE);
                self.a = memory.read_byte(address);
                8
            },
            Instruction::LD_BC_A => {
                let address = self.get_register16(Register16::BC);
                memory.write_byte(address, a);
                8
            },
            Instruction::LD_DE_A => {
                let address = self.get_register16(Register16::DE);
                memory.write_byte(address, a);
                8
            },
            Instruction::LD_A_NN(nn) => {
                self.a = memory.read_byte(nn);
                16
            },
            Instruction::LD_NN_A(nn) => {
                memory.write_byte(nn, a);
                16
            },
            Instruction::LDH_A_C => {
                self.a = memory.read_byte(to_word(self.c, 0xFF));
                8
            },
            Instruction::LDH_C_A => {
                memory.write_byte(to_word(self.c, 0xFF), a);
                8
            },
            Instruction::LDH_A_N(n) => {
                self.a = memory.read_byte(to_word(n, 0xFF));
                12
            },
            Instruction::LDH_N_A(n) => {
                memory.write_byte(to_word(n, 0xFF), a);
                12
            },
            _ => 0,
        }
    }

    #[verifier::rlimit(100)]
    #[verifier::spinoff_prover]
    fn exec_load16(&mut self, memory: &mut Memory, ins: Instruction, next: Word) -> (r: u8)
        requires
            old(self).wf(),
            old(memory).wf(),
            is_load16(ins),
            canonical(ins),
        ensures
            final(self).wf(),
            final(memory).wf(),
            (*final(self), final(memory)@, r) == load_step(
                *old(self),
                old(memory)@,
                ins,
                CPU { pc: next, ..*old(self) },
            ),
    {
        let hl = self.get_hl();
        let a = self.a;
        self.pc = next;
        match ins {
            Instruction::LD_A_HL_I => {
                self.a = memory.read_byte(hl);
                self.set_hl(hl.wrapping_add(1));
                8
            },
            Instruction::LD_A_HL_D => {
                self.a = memory.read_byte(hl);
                self.set_hl(hl.wrapping_sub(1));
                8
            },
            Instruction::LD_HL_A_I => {
                memory.write_byte(hl, a);
                self.set_hl(hl.wrapping_add(1));
                8
            },
            Instruction::LD_HL_A_D => {
                memory.write_byte(hl, a);
                self.set_hl(hl.wrapping_sub(1));
                8
            },
            Instruction::LD_RR_NN(rr, nn) => {
                self.set_register16(rr, nn);
                12
            },
            Instruction::LD_NN_SP(nn) => {
                memory.write_word(nn, self.sp);
                20
            },
            Instruction::LD_SP_HL => {
                self.sp = hl;
                8
            },
            Instruction::LD_HL_SP(e) => {
                let (res, f) = add_sp(self.sp, e);
                self.set_hl(res);
                self.f = f;
                12
            },
            Instruction::PUSH(rr) => {
                let w = self.get_register16(rr);
                self.push_word(memory, w);
                16
            },
            Instruction::POP(rr) => {
                let w = self.pop_word(memory);
                self.set_register16(rr, w);
                12
            },
            _ => 0,
        }
    }
}


impl CPU {
    #[verifier::rlimit(100)]
    #[verifier::spinoff_prover]
    fn exec_alu(&mut self, memory: &Memory, ins: Instruction, next: Word) -> (r: u8)
        requires
            old(self).wf(),
            memory.wf(),
            is_alu(ins),
            canonical(ins),
        ensures
            final(self).wf(),
            (*final(self), memory@, r) == alu_step(
                *old(self),
                memory@,
                ins,
                CPU { pc: next, ..*old(self) },
            ),
    {
        let (v, cycles): (u8, u8) = match ins {
            Instruction::ADD_R(r) | Instruction::ADC_R(r) | Instruction::SUB_R(r)
            | Instruction::SBC_R(r) | Instruction::AND_R(r) | Instruction::XOR_R(r)
            | Instruction::OR_R(r) | Instruction::CP_R(r) => (self.get_register(r), 4),
            Instruction::ADD_N(n) | Instruction::ADC_N(n) | Instruction::SUB_N(n)
            | Instruction::SBC_N(n) | Instruction::AND_N(n) | Instruction::XOR_N(n)
            | Instruction::OR_N(n) | Instruction::CP_N(n) => (n, 8),
            _ => (memory.read_byte(self.get_hl()), 8),
        };
        let op: u8 = match ins {
            Instruction::ADD_R(_) | Instruction::ADD_HL | Instruction::ADD_N(_) => 0,
            Instruction::ADC_R(_) | Instruction::ADC_HL | Instruction::ADC_N(_) => 1,
            Instruction::SUB_R(_) | Instruction::SUB_HL | Instruction::SUB_N(_) => 2,
            Instruction::SBC_R(_) | Instruction::SBC_HL | Instruction::SBC_N(_) => 3,
            Instruction::AND_R(_) | Instruction::AND_HL | Instruction::AND_N(_) => 4,
            Instruction::XOR_R(_) | Instruction::XOR_HL | Instruction::XOR_N(_) => 5,
            Instruction::OR_R(_) | Instruction::OR_HL | Instruction::OR_N(_) => 6,
            _ => 7,
        };
        let (res, f) = alu(op, self.a, v, self.f);
        self.a = res;
        self.f = f;
        self.pc = next;
        cycles
    }

    #[verifier::rlimit(100)]
    #[verifier::spinoff_prover]
    fn exec_cb(&mut self, memory: &mut Memory, ins: Instruction, next: Word) -> (r: u8)
        requires
            old(self).wf(),
            old(memory).wf(),
            is_cb(ins),
            canonical(ins),
        ensures
            final(self).wf(),
            final(memory).wf(),
            (*final(self), final(memory)@, r) == cb_step(
                *old(self),
                old(memory)@,
                ins,
                CPU { pc: next, ..*old(self) },
            ),
    {
        let hl = self.get_hl();
        self.pc = next;
        match ins {
            Instruction::BIT(b, r) => {
                let v = self.get_register(r);
                self.f = test_bit(v, b, self.f);
                8
            },
            Instruction::BIT_HL(b) => {
                let v = memory.read_byte(hl);
                self.f = test_bit(v, b, self.f);
                12
            },
            Instruction::RES(b, r) => {
                let v = self.get_register(r);
                self.set_register(r, v & !(1u8 << b));
                8
            },
            Instruction::RES_HL(b) => {
                let v = memory.read_byte(hl);
                memory.write_byte(hl, v & !(1u8 << b));
                16
            },
            Instruction::SET(b, r) => {
                let v = self.get_register(r);
                self.set_register(r, v | (1u8 << b));
                8
            },
            Instruction::SET_HL(b) => {
                let v = memory.read_byte(hl);
                memory.write_byte(hl, v | (1u8 << b));
                16
            },
            _ => {
                let op: u8 = match ins {
                    Instruction::RLC(_) | Instruction::RLC_HL => 0,
                    Instruction::RRC(_) | Instruction::RRC_HL => 1,
                    Instruction::RL(_) | Instruction::RL_HL => 2,
                    Instruction::RR(_) | Instruction::RR_HL => 3,
                    Instruction::SLA(_) | Instruction::SLA_HL => 4,
                    Instruction::SRA(_) | Instruction::SRA_HL => 5,
                    Instruction::SWAP(_) | Instruction::SWAP_HL => 6,
                    _ => 7,
                };
                match ins {
                    Instruction::RLC(r) | Instruction::RRC(r) | Instruction::RL(r)
                    | Instruction::RR(r) | Instruction::SLA(r) | Instruction::SRA(r)
                    | Instruction::SWAP(r) | Instruction::SRL(r) => {
                        let v = self.get_register(r);
                        let (res, f) = shift(op, v, self.f, false);
                        self.set_register(r, res);
                        self.f = f;
                        8
                    },
                    _ => {
                        let v = memory.read_byte(hl);
                        let (res, f) = shift(op, v, self.f, false);
                        memory.write_byte(hl, res);
                        self.f = f;
                        16
                    },
                }
            },
        }
    }
}


impl CPU {
    #[verifier::rlimit(100)]
    #[verifier::spinoff_prover]
    fn exec_flow(&mut self, memory: &mut Memory, ins: Instruction, next: Word) -> (r: u8)
        requires
            old(self).wf(),
            old(memory).wf(),
            is_flow(ins),
            canonical(ins),
        ensures
            final(self).wf(),
            final(memory).wf(),
            (*final(self), final(memory)@, r) == flow_step(*old(self), old(memory)@, ins, next),
    {
        match ins {
            Instruction::JP_NN(nn) => {
                self.pc = nn;
                16
            },
            Instruction::JP_HL => {
                self.pc = self.get_hl();
                4
            },
            Instruction::JP_CC_NN(cc, nn) => {
                if self.get_condition(cc) {
                    self.pc = nn;
                    16
                } else {
                    self.pc = next;
                    12
                }
            },
            Instruction::JR(e) => {
                self.pc = ((next as i32 + e as i32 + 65536) % 65536) as u16;
                12
            },
            Instruction::JR_CC(cc, e) => {
                if self.get_condition(cc) {
                    self.pc = ((next as i32 + e as i32 + 65536) % 65536) as u16;
                    12
                } else {
                    self.pc = next;
                    8
                }
            },
            Instruction::CALL(nn) => {
                self.push_word(memory, next);
                self.pc = nn;
                24
            },
            Instruction::CALL_CC(cc, nn) => {
                if self.get_condition(cc) {
                    self.push_word(memory, next);
                    self.pc = nn;
                    24
                } else {
                    self.pc = next;
                    12
                }
            },
            Instruction::RET => {
                self.pc = self.pop_word(memory);
                16
            },
            Instruction::RET_CC(cc) => {
                if self.get_condition(cc) {
                    self.pc = self.pop_word(memory);
                    20
                } else {
                    self.pc = next;
                    8
                }
            },
            Instruction::RETI => {
                self.pc = self.pop_word(memory);
                self.ime = true;
                16
            },
            Instruction::RST(n) => {
                self.push_word(memory, next);
                self.pc = n as u16;
                16
            },
            _ => 0,
        }
    }

    #[verifier::rlimit(100)]
    #[verifier::spinoff_prover]
    fn exec_incdec8(&mut self, memory: &mut Memory, ins: Instruction, next: Word) -> (r: u8)
        requires
            old(self).wf(),
            old(memory).wf(),
            is_incdec8(ins),
            canonical(ins),
        ensures
            final(self).wf(),
            final(memory).wf(),
            (*final(self), final(memory)@, r) == misc_step(
                *old(self),
                old(memory)@,
                ins,
                CPU { pc: next, ..*old(self) },
            ),
    {
        let hl = self.get_hl();
        let f = self.f;
        self.pc = next;
        match ins {
            Instruction::INC_R(r) => {
                let (res, fl) = inc8(self.get_register(r), f);
                self.set_register(r, res);
                self.f = fl;
                4
            },
            Instruction::DEC_R(r) => {
                let (res, fl) = dec8(self.get_register(r), f);
                self.set_register(r, res);
                self.f = fl;
                4
            },
            Instruction::INC_HL => {
                let (res, fl) = inc8(memory.read_byte(hl), f);
                memory.write_byte(hl, res);
                self.f = fl;
                12
            },
            Instruction::DEC_HL => {
                let (res, fl) = dec8(memory.read_byte(hl), f);
                memory.write_byte(hl, res);
                self.f = fl;
                12
            },
            _ => 4,
        }
    }

    fn step_pair(&mut self, rr: Register16, inc: bool)
        requires
            old(self).wf(),
        ensures
            final(self).wf(),
            *final(self) == old(self).with_pair(
                rr,
                if inc {
                    inc16(old(self).pair(rr))
                } else {
                    dec16(old(self).pair(rr))
                },
            ),
    {
        let w = self.get_register16(rr);
        let w1 = if inc {
            w.wrapping_add(1)
        } else {
            w.wrapping_sub(1)
        };
        self.set_register16(rr, w1);
    }

    fn add_to_hl(&mut self, rr: Register16)
        requires
            old(self).wf(),
        ensures
            final(self).wf(),
            *final(self) == (CPU {
                f: add16_result(old(self).hl(), old(self).pair(rr), old(self).f).1,
                ..old(self).with_pair(
                    Register16::HL,
                    add16_result(old(self).hl(), old(self).pair(rr), old(self).f).0,
                )
            }),
    {
        let (res, fl) = add16(self.get_hl(), self.get_register16(rr), self.f);
        self.set_hl(res);
        self.f = fl;
    }

    #[verifier::rlimit(100)]
    #[verifier::spinoff_prover]
    fn exec_arith16(&mut self, memory: &mut Memory, ins: Instruction, next: Word) -> (r: u8)
        requires
            old(self).wf(),
            old(memory).wf(),
            is_arith16(ins),
            canonical(ins),
        ensures
            final(self).wf(),
            final(memory).wf(),
            (*final(self), final(memory)@, r) == misc_step(
                *old(self),
                old(memory)@,
                ins,
                CPU { pc: next, ..*old(self) },
            ),
    {
        self.pc = next;
        match ins {
            Instruction::INC_RR(rr) => {
                self.step_pair(rr, true);
                8
            },
            Instruction::DEC_RR(rr) => {
                self.step_pair(rr, false);
                8
            },
            Instruction::ADD_HL_RR(rr) => {
                self.add_to_hl(rr);
                8
            },
            Instruction::ADD_SP_E(e) => {
                let (res, fl) = add_sp(self.sp, e);
                self.sp = res;
                self.f = fl;
                16
            },
            _ => 4,
        }
    }

    #[verifier::rlimit(100)]
    #[verifier::spinoff_prover]
    fn exec_misc(&mut self, memory: &mut Memory, ins: Instruction, next: Word) -> (r: u8)
        requires
            old(self).wf(),
            old(memory).wf(),
            !is_load(ins),
            !is_alu(ins),
            !is_cb(ins),
            !is_flow(ins),
            !is_incdec(ins),
            canonical(ins),
        ensures
            final(self).wf(),
            final(memory).wf(),
            (*final(self), final(memory)@, r) == misc_step(
                *old(self),
                old(memory)@,
                ins,
                CPU { pc: next, ..*old(self) },
            ),
    {
        let f = self.f;
        let z = f / 128 % 2 == 1;
        let c = f / 16 % 2 == 1;
        self.pc = next;
        match ins {
            Instruction::RLCA | Instruction::RRCA | Instruction::RLA | Instruction::RRA => {
                let op: u8 = match ins {
                    Instruction::RLCA => 0,
                    Instruction::RRCA => 1,
                    Instruction::RLA => 2,
                    _ => 3,
                };
                let (res, fl) = shift(op, self.a, f, true);
                self.a = res;
                self.f = fl;
                4
            },
            Instruction::CCF => {
                self.f = flags(z, false, false, !c);
                4
            },
            Instruction::SCF => {
                self.f = flags(z, false, false, true);
                4
            },
            Instruction::DAA => {
                let (res, fl) = daa(self.a, f);
                self.a = res;
                self.f = fl;
                4
            },
            Instruction::CPL => {
                self.a = 255 - self.a;
                self.f = flags(z, true, true, c);
                4
            },
            Instruction::EI => {
                self.ime_pending = true;
                4
            },
            Instruction::DI => {
                self.ime = false;
                self.ime_pending = false;
                4
            },
            Instruction::HALT => {
                let pending = memory.read_raw(INTERRUPT_FLAG_ADDRESS) & memory.read_raw(
                    INTERRUPT_ENABLE_ADDRESS,
                ) & 0x1F;
                if !self.ime && pending != 0 {
                    self.halt_bug = true;
                } else {
                    self.halt = true;
                }
                4
            },
            Instruction::STOP => {
                memory.write_byte(DIV_ADDRESS, 0);
                4
            },
            _ => 4,
        }
    }

    fn step(&mut self, memory: &mut Memory, ins: Instruction, next: Word) -> (r: u8)
        requires
            old(self).wf(),
            old(memory).wf(),
            canonical(ins),
        ensures
            final(self).wf(),
            final(memory).wf(),
            (*final(self), final(memory)@, r) == step(*old(self), old(memory)@, ins, next),
    {
        reveal(step);
        if Self::group_of(ins) == 0 {
            self.exec_load(memory, ins, next)
        } else if Self::group_of(ins) == 1 {
            self.exec_alu(memory, ins, next)
        } else if Self::group_of(ins) == 2 {
            self.exec_cb(memory, ins, next)
        } else if Self::group_of(ins) == 3 {
            self.exec_flow(memory, ins, next)
        } else if Self::group_of(ins) == 4 {
            if Self::is_incdec8(ins) {
                self.exec_incdec8(memory, ins, next)
            } else {
                self.exec_arith16(memory, ins, next)
            }
        } else {
            self.exec_misc(memory, ins, next)
        }
    }

    fn is_incdec8(ins: Instruction) -> (r: bool)
        ensures
            r == is_incdec8(ins),
    {
        matches!(ins, Instruction::INC_R(_) | Instruction::DEC_R(_) | Instruction::INC_HL | Instruction::DEC_HL)
    }

    /// 0 loads and stack, 1 accumulator operations, 2 CB-prefixed,
    /// 3 control flow, 4 increments and 16-bit additions, 5 the rest.
    fn group_of(ins: Instruction) -> (r: u8)
        ensures
            r == 0 <==> is_load(ins),
            r == 1 <==> !is_load(ins) && is_alu(ins),
            r == 2 <==> !is_load(ins) && !is_alu(ins) && is_cb(ins),
            r == 3 <==> !is_load(ins) && !is_alu(ins) && !is_cb(ins) && is_flow(ins),
            r == 4 <==> !is_load(ins) && !is_alu(ins) && !is_cb(ins) && !is_flow(ins) && is_incdec(ins),
    {
        match ins {
            Instruction::LD_R_R(_, _) | Instruction::LD_R_N(_, _) | Instruction::LD_R_HL(_)
            | Instruction::LD_HL_R(_) | Instruction::LD_HL_N(_) | Instruction::LD_A_BC
            | Instruction::LD_A_DE | Instruction::LD_BC_A | Instruction::LD_DE_A
            | Instruction::LD_A_NN(_) | Instruction::LD_NN_A(_) | Instruction::LDH_A_C
            | Instruction::LDH_C_A | Instruction::LDH_A_N(_) | Instruction::LDH_N_A(_)
            | Instruction::LD_A_HL_I | Instruction::LD_A_HL_D | Instruction::LD_HL_A_I
            | Instruction::LD_HL_A_D | Instruction::LD_RR_NN(_, _) | Instruction::LD_NN_SP(_)
            | Instruction::LD_SP_HL | Instruction::LD_HL_SP(_) | Instruction::PUSH(_)
            | Instruction::POP(_) => 0,
            Instruction::ADD_R(_) | Instruction::ADD_HL | Instruction::ADD_N(_)
            | Instruction::ADC_R(_) | Instruction::ADC_HL | Instruction::ADC_N(_)
            | Instruction::SUB_R(_) | Instruction::SUB_HL | Instruction::SUB_N(_)
            | Instruction::SBC_R(_) | Instruction::SBC_HL | Instruction::SBC_N(_)
            | Instruction::AND_R(_) | Instruction::AND_HL | Instruction::AND_N(_)
            | Instruction::XOR_R(_) | Instruction::XOR_HL | Instruction::XOR_N(_)
            | Instruction::OR_R(_) | Instruction::OR_HL | Instruction::OR_N(_)
            | Instruction::CP_R(_) | Instruction::CP_HL | Instruction::CP_N(_) => 1,
            Instruction::RLC(_) | Instruction::RLC_HL | Instruction::RRC(_) | Instruction::RRC_HL
            | Instruction::RL(_) | Instruction::RL_HL | Instruction::RR(_) | Instruction::RR_HL
            | Instruction::SLA(_) | Instruction::SLA_HL | Instruction::SRA(_)
            | Instruction::SRA_HL | Instruction::SWAP(_) | Instruction::SWAP_HL
            | Instruction::SRL(_) | Instruction::SRL_HL | Instruction::BIT(_, _)
            | Instruction::BIT_HL(_) | Instruction::RES(_, _) | Instruction::RES_HL(_)
            | Instruction::SET(_, _) | Instruction::SET_HL(_) => 2,
            Instruction::JP_NN(_) | Instruction::JP_HL | Instruction::JP_CC_NN(_, _)
            | Instruction::JR(_) | Instruction::JR_CC(_, _) | Instruction::CALL(_)
            | Instruction::CALL_CC(_, _) | Instruction::RET | Instruction::RET_CC(_)
            | Instruction::RETI | Instruction::RST(_) => 3,
            Instruction::INC_R(_) | Instruction::DEC_R(_) | Instruction::INC_HL
            | Instruction::DEC_HL | Instruction::INC_RR(_) | Instruction::DEC_RR(_)
            | Instruction::ADD_HL_RR(_) | Instruction::ADD_SP_E(_) => 4,
            _ => 5,
        }
    }

    /// Fetch, decode and execute one instruction at PC; returns the T-cycles
    /// it took, or the illegal opcode, in which case nothing changes.
    pub fn execute(&mut self, memory: &mut Memory) -> (r: Result<u8, DecodeError>)
        requires
            old(self).wf(),
            old(memory).wf(),
        ensures
            final(self).wf(),
            final(memory).wf(),
            match r {
                Ok(cycles) => exists|si: SizedInstruction|
                    decoded(Ok(si), instruction_stream(*old(self), old(memory)@))
                        && (*final(self), final(memory)@, cycles) == #[trigger] executed(
                        *old(self),
                        old(memory)@,
                        si,
                    ),
                Err(err) => {
                    &&& decoded(Err(err), instruction_stream(*old(self), old(memory)@))
                    &&& *final(self) == *old(self)
                    &&& final(memory)@ == old(memory)@
                },
            },
    {
        let ghost s = *self;
        let ghost m = memory@;
        let pc = self.pc;
        let bug = self.halt_bug;
        let b0 = memory.read_byte(pc);
        let b1 = memory.read_byte(pc.wrapping_add(1));
        let b2 = memory.read_byte(pc.wrapping_add(2));
        let found = if bug {
            SizedInstruction::decode_bytes(b0, b0, b1)
        } else {
            SizedInstruction::decode_bytes(b0, b1, b2)
        };
        let si = match found {
            Ok(si) => si,
            Err(err) => return Err(err),
        };
        let next = if bug {
            pc.wrapping_add(si.size - 1)
        } else {
            pc.wrapping_add(si.size)
        };
        let enable = self.ime_pending;
        self.halt_bug = false;
        self.ime_pending = false;
        let cycles = self.step(memory, si.instruction, next);
        if enable && !matches!(si.instruction, Instruction::DI) {
            self.ime = true;
        }
        assert((*self, memory@, cycles) == executed(s, m, si));
        Ok(cycles)
    }

    /// Service interrupts after an instruction; returns the T-cycles spent
    /// (20 when an interrupt was dispatched, 0 otherwise).
    pub fn handle_interrupts(&mut self, memory: &mut Memory) -> (r: u8)
        requires
            old(self).wf(),
            old(memory).wf(),
        ensures
            final(self).wf(),
            final(memory).wf(),
            (*final(self), final(memory)@, r) == dispatched(*old(self), old(memory)@),
    {
        let iflag = memory.read_raw(INTERRUPT_FLAG_ADDRESS);
        let ie = memory.read_raw(INTERRUPT_ENABLE_ADDRESS);
        let p = iflag & ie & 0x1F;
        if p != 0 {
            self.halt = false;
        }
        if self.ime && p != 0 {
            let i: u8 = if p % 2 == 1 {
                0
            } else if p / 2 % 2 == 1 {
                1
            } else if p / 4 % 2 == 1 {
                2
            } else if p / 8 % 2 == 1 {
                3
            } else {
                4
            };
            assert(i == lowest_interrupt(p));
            memory.write_raw(INTERRUPT_FLAG_ADDRESS, iflag & !(1u8 << i));
            self.ime = false;
            let pc = self.pc;
            self.push_word(memory, pc);
            self.pc = 0x40 + 8 * (i as u16);
            20
        } else {
            0
        }
    }
}

} // verus!
