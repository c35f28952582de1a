use vstd::prelude::*;

use crate::instruction::{
    byte_of, canonical, cb, encodes, encoding, illegal_opcode, one, reg_code, two, Condition,
    Instruction, Register, Register16,
};
use crate::memory::{BusView, Memory};
use crate::utils::{lemma_word_of_parts, to_word, Address, Byte, SignedByte, Word};

verus! {

/// A decoded instruction with its length in bytes.
#[derive(Debug, Clone, Copy, PartialEq, Eq, Structural)]
pub struct SizedInstruction {
    pub instruction: Instruction,
    pub size: Word,
}

/// Errors of the decoder.
#[derive(Debug, Clone, Copy, PartialEq, Eq, Structural)]
pub enum DecodeError {
    /// An opcode that no instruction has.
    UnknownOpcode(Byte),
}

/// Opcode template: a pattern and the mask of the bits it fixes.
#[derive(Debug, Clone, Copy, PartialEq, Eq, Structural)]
pub struct OpCode(pub Byte, pub Byte);

impl OpCode {
    /// Whether `code` has the pattern's bits where the mask is set.
    pub fn matches(&self, code: Byte) -> (r: bool)
        ensures
            r == (code & self.1 == self.0),
    {
        code & self.1 == self.0
    }
}

/// `r` is what decoding `bytes` gives: the canonical instruction that they
/// start with, or the error for an illegal opcode.
pub open spec fn decoded(r: Result<SizedInstruction, DecodeError>, bytes: Seq<u8>) -> bool {
    match r {
        Ok(si) => {
            &&& !illegal_opcode(bytes[0])
            &&& canonical(si.instruction)
            &&& si.size == encoding(si.instruction).len()
            &&& 1 <= si.size <= 3
            &&& encodes(si.instruction, bytes)
        },
        Err(DecodeError::UnknownOpcode(b)) => b == bytes[0] && illegal_opcode(b),
    }
}

/// The three bytes an instruction at `address` may occupy.
pub open spec fn fetch_window(m: BusView, address: u16) -> Seq<u8> {
    seq![m.read(address), m.read(address.wrapping_add(1)), m.read(address.wrapping_add(2))]
}

fn signed(b: u8) -> (e: SignedByte)
    ensures
        byte_of(e) == b,
        e as int == (if b < 128 { b as int } else { b as int - 256 }),
{
    if b < 128 {
        b as i8
    } else {
        (b as i16 - 256) as i8
    }
}

impl SizedInstruction {
    /// Decode the instruction at `address`.
    pub fn decode(memory: &Memory, address: Address) -> (r: Result<Self, DecodeError>)
        requires
            memory.wf(),
        ensures
            decoded(r, fetch_window(memory@, address)),
    {
        let b0 = memory.read_byte(address);
        let b1 = memory.read_byte(address.wrapping_add(1));
        let b2 = memory.read_byte(address.wrapping_add(2));
        Self::decode_bytes(b0, b1, b2)
    }

    /// Decode the instruction that starts the byte stream `b0 b1 b2`.
    pub fn decode_bytes(b0: Byte, b1: Byte, b2: Byte) -> (r: Result<Self, DecodeError>)
        ensures
            decoded(r, seq![b0, b1, b2]),
    {
        let found = if b0 < 64 {
            Self::decode_block0(b0, b1, b2)
        } else if b0 < 128 {
            Self::decode_block1(b0, b1, b2)
        } else if b0 < 192 {
            Self::decode_block2(b0, b1, b2)
        } else {
            Self::decode_block3(b0, b1, b2)
        };
        match found {
            Ok((instruction, size)) => Ok(SizedInstruction { instruction, size }),
            Err(err) => Err(err),
        }
    }

    /// Opcodes 0x00-0x3F: immediate and indirect loads, 8- and 16-bit
    /// increments, relative jumps and the accumulator operations.
    #[verifier::rlimit(40)]
    fn decode_block0(b0: Byte, b1: Byte, b2: Byte) -> (r: Result<(Instruction, Word), DecodeError>)
        requires
            b0 < 64,
        ensures
            match r {
                Ok((ins, size)) => {
                    &&& !illegal_opcode(b0)
                    &&& canonical(ins)
                    &&& size == encoding(ins).len()
                    &&& 1 <= size <= 3
                    &&& encodes(ins, seq![b0, b1, b2])
                },
                Err(DecodeError::UnknownOpcode(b)) => b == b0 && illegal_opcode(b),
            },
    {
        let y = b0 / 8 % 8;
        let z = b0 % 8;
        let p = y / 2;
        let q = y % 2;
        let nn = to_word(b1, b2);
        proof {
            lemma_word_of_parts(b1, b2);
        }
        let e = signed(b1);
        assert(b0 as int == 64 * (b0 / 64) + 8 * y + z);
        let (ins, size): (Instruction, Word) = {
            if z == 0 {
                if y == 0 {
                    (Instruction::NOP, 1)
                } else if y == 1 {
                    (Instruction::LD_NN_SP(nn), 3)
                } else if y == 2 {
                    (Instruction::STOP, 2)
                } else if y == 3 {
                    (Instruction::JR(e), 2)
                } else {
                    (Instruction::JR_CC(Condition::get_cond(y - 4), e), 2)
                }
            } else if z == 1 {
                if q == 0 {
                    (Instruction::LD_RR_NN(Register16::get_rr(p, true), nn), 3)
                } else {
                    (Instruction::ADD_HL_RR(Register16::get_rr(p, true)), 1)
                }
            } else if z == 2 {
                let ins = if q == 0 {
                    if p == 0 {
                        Instruction::LD_BC_A
                    } else if p == 1 {
                        Instruction::LD_DE_A
                    } else if p == 2 {
                        Instruction::LD_HL_A_I
                    } else {
                        Instruction::LD_HL_A_D
                    }
                } else {
                    if p == 0 {
                        Instruction::LD_A_BC
                    } else if p == 1 {
                        Instruction::LD_A_DE
                    } else if p == 2 {
                        Instruction::LD_A_HL_I
                    } else {
                        Instruction::LD_A_HL_D
                    }
                };
                (ins, 1)
            } else if z == 3 {
                let rr = Register16::get_rr(p, true);
                if q == 0 {
                    (Instruction::INC_RR(rr), 1)
                } else {
                    (Instruction::DEC_RR(rr), 1)
                }
            } else if z == 4 {
                let r = Register::get_r(y);
                if y == 6 {
                    (Instruction::INC_HL, 1)
                } else {
                    (Instruction::INC_R(r), 1)
                }
            } else if z == 5 {
                let r = Register::get_r(y);
                if y == 6 {
                    (Instruction::DEC_HL, 1)
                } else {
                    (Instruction::DEC_R(r), 1)
                }
            } else if z == 6 {
                let r = Register::get_r(y);
                if y == 6 {
                    (Instruction::LD_HL_N(b1), 2)
                } else {
                    (Instruction::LD_R_N(r, b1), 2)
                }
            } else {
                let ins = if y == 0 {
                    Instruction::RLCA
                } else if y == 1 {
                    Instruction::RRCA
                } else if y == 2 {
                    Instruction::RLA
                } else if y == 3 {
                    Instruction::RRA
                } else if y == 4 {
                    Instruction::DAA
                } else if y == 5 {
                    Instruction::CPL
                } else if y == 6 {
                    Instruction::SCF
                } else {
                    Instruction::CCF
                };
                (ins, 1)
            }
        };
        assert(encodes(ins, seq![b0, b1, b2]));
        Ok((ins, size))
    }

    /// Opcodes 0x40-0x7F: register-to-register loads and HALT.
    #[verifier::rlimit(40)]
    fn decode_block1(b0: Byte, b1: Byte, b2: Byte) -> (r: Result<(Instruction, Word), DecodeError>)
        requires
            64 <= b0 < 128,
        ensures
            match r {
                Ok((ins, size)) => {
                    &&& !illegal_opcode(b0)
                    &&& canonical(ins)
                    &&& size == encoding(ins).len()
                    &&& 1 <= size <= 3
                    &&& encodes(ins, seq![b0, b1, b2])
                },
                Err(DecodeError::UnknownOpcode(b)) => b == b0 && illegal_opcode(b),
            },
    {
        let y = b0 / 8 % 8;
        let z = b0 % 8;
        assert(b0 as int == 64 * (b0 / 64) + 8 * y + z);
        let (ins, size): (Instruction, Word) = {
            let (d, s) = Register::get_rr(b0);
            let ins = if y == 6 && z == 6 {
                Instruction::HALT
            } else if y == 6 {
                Instruction::LD_HL_R(s)
            } else if z == 6 {
                Instruction::LD_R_HL(d)
            } else {
                Instruction::LD_R_R(d, s)
            };
            (ins, 1)
        };
        assert(encodes(ins, seq![b0, b1, b2]));
        Ok((ins, size))
    }

    /// Opcodes 0x80-0xBF: accumulator operations on a register or (HL).
    #[verifier::rlimit(40)]
    fn decode_block2(b0: Byte, b1: Byte, b2: Byte) -> (r: Result<(Instruction, Word), DecodeError>)
        requires
            128 <= b0 < 192,
        ensures
            match r {
                Ok((ins, size)) => {
                    &&& !illegal_opcode(b0)
                    &&& canonical(ins)
                    &&& size == encoding(ins).len()
                    &&& 1 <= size <= 3
                    &&& encodes(ins, seq![b0, b1, b2])
                },
                Err(DecodeError::UnknownOpcode(b)) => b == b0 && illegal_opcode(b),
            },
    {
        let y = b0 / 8 % 8;
        let z = b0 % 8;
        assert(b0 as int == 64 * (b0 / 64) + 8 * y + z);
        let (ins, size): (Instruction, Word) = {
            let r = Register::get_r(z);
            let ins = if z == 6 {
                Self::alu_hl(y)
            } else {
                Self::alu_r(y, r)
            };
            (ins, 1)
        };
        assert(encodes(ins, seq![b0, b1, b2]));
        Ok((ins, size))
    }

    /// Opcodes 0xC0-0xFF: calls, returns, jumps, stack, high-page loads,
    /// immediate operands, restarts and the CB prefix.
    #[verifier::rlimit(40)]
    fn decode_block3(b0: Byte, b1: Byte, b2: Byte) -> (r: Result<(Instruction, Word), DecodeError>)
        requires
            192 <= b0,
        ensures
            match r {
                Ok((ins, size)) => {
                    &&& !illegal_opcode(b0)
                    &&& canonical(ins)
                    &&& size == encoding(ins).len()
                    &&& 1 <= size <= 3
                    &&& encodes(ins, seq![b0, b1, b2])
                },
                Err(DecodeError::UnknownOpcode(b)) => b == b0 && illegal_opcode(b),
            },
    {
        let y = b0 / 8 % 8;
        let z = b0 % 8;
        let p = y / 2;
        let q = y % 2;
        let nn = to_word(b1, b2);
        proof {
            lemma_word_of_parts(b1, b2);
        }
        let e = signed(b1);
        assert(b0 as int == 64 * (b0 / 64) + 8 * y + z);
        let (ins, size): (Instruction, Word) = {
            if z == 0 {
                if y < 4 {
                    (Instruction::RET_CC(Condition::get_cond(y)), 1)
                } else if y == 4 {
                    (Instruction::LDH_N_A(b1), 2)
                } else if y == 5 {
                    (Instruction::ADD_SP_E(e), 2)
                } else if y == 6 {
                    (Instruction::LDH_A_N(b1), 2)
                } else {
                    (Instruction::LD_HL_SP(e), 2)
                }
            } else if z == 1 {
                if q == 0 {
                    (Instruction::POP(Register16::get_rr(p, false)), 1)
                } else if p == 0 {
                    (Instruction::RET, 1)
                } else if p == 1 {
                    (Instruction::RETI, 1)
                } else if p == 2 {
                    (Instruction::JP_HL, 1)
                } else {
                    (Instruction::LD_SP_HL, 1)
                }
            } else if z == 2 {
                if y < 4 {
                    (Instruction::JP_CC_NN(Condition::get_cond(y), nn), 3)
                } else if y == 4 {
                    (Instruction::LDH_C_A, 1)
                } else if y == 5 {
                    (Instruction::LD_NN_A(nn), 3)
                } else if y == 6 {
                    (Instruction::LDH_A_C, 1)
                } else {
                    (Instruction::LD_A_NN(nn), 3)
                }
            } else if z == 3 {
                if y == 0 {
                    (Instruction::JP_NN(nn), 3)
                } else if y == 1 {
                    let ins = Self::decode_cb(b1);
                    (ins.instruction, 2)
                } else if y == 6 {
                    (Instruction::DI, 1)
                } else if y == 7 {
                    (Instruction::EI, 1)
                } else {
                    return Err(DecodeError::UnknownOpcode(b0));
                }
            } else if z == 4 {
                if y < 4 {
                    (Instruction::CALL_CC(Condition::get_cond(y), nn), 3)
                } else {
                    return Err(DecodeError::UnknownOpcode(b0));
                }
            } else if z == 5 {
                if q == 0 {
                    (Instruction::PUSH(Register16::get_rr(p, false)), 1)
                } else if p == 0 {
                    (Instruction::CALL(nn), 3)
                } else {
                    return Err(DecodeError::UnknownOpcode(b0));
                }
            } else if z == 6 {
                (Self::alu_n(y, b1), 2)
            } else {
                (Instruction::RST(y * 8), 1)
            }
        };
        assert(encodes(ins, seq![b0, b1, b2]));
        Ok((ins, size))
    }

    fn alu_r(op: Byte, r: Register) -> (ins: Instruction)
        requires
            op < 8,
            r != Register::HL,
        ensures
            canonical(ins),
            encoding(ins) == one(0x80 + 8 * op + reg_code(r)),
    {
        if op == 0 {
            Instruction::ADD_R(r)
        } else if op == 1 {
            Instruction::ADC_R(r)
        } else if op == 2 {
            Instruction::SUB_R(r)
        } else if op == 3 {
            Instruction::SBC_R(r)
        } else if op == 4 {
            Instruction::AND_R(r)
        } else if op == 5 {
            Instruction::XOR_R(r)
        } else if op == 6 {
            Instruction::OR_R(r)
        } else {
            Instruction::CP_R(r)
        }
    }

    fn alu_hl(op: Byte) -> (ins: Instruction)
        requires
            op < 8,
        ensures
            canonical(ins),
            encoding(ins) == one(0x86 + 8 * op),
    {
        if op == 0 {
            Instruction::ADD_HL
        } else if op == 1 {
            Instruction::ADC_HL
        } else if op == 2 {
            Instruction::SUB_HL
        } else if op == 3 {
            Instruction::SBC_HL
        } else if op == 4 {
            Instruction::AND_HL
        } else if op == 5 {
            Instruction::XOR_HL
        } else if op == 6 {
            Instruction::OR_HL
        } else {
            Instruction::CP_HL
        }
    }

    fn alu_n(op: Byte, n: Byte) -> (ins: Instruction)
        requires
            op < 8,
        ensures
            canonical(ins),
            encoding(ins) == two(0xC6 + 8 * op, n),
    {
        if op == 0 {
            Instruction::ADD_N(n)
        } else if op == 1 {
            Instruction::ADC_N(n)
        } else if op == 2 {
            Instruction::SUB_N(n)
        } else if op == 3 {
            Instruction::SBC_N(n)
        } else if op == 4 {
            Instruction::AND_N(n)
        } else if op == 5 {
            Instruction::XOR_N(n)
        } else if op == 6 {
            Instruction::OR_N(n)
        } else {
            Instruction::CP_N(n)
        }
    }

    /// Decode the byte that follows the CB prefix.
    pub fn decode_cb(opcode: Byte) -> (r: Self)
        ensures
            r.size == 1,
            canonical(r.instruction),
            encoding(r.instruction) == cb(opcode as int),
    {
        let x = opcode / 64;
        let y = opcode / 8 % 8;
        let z = opcode % 8;
        let r = Register::get_r(z);
        assert(opcode as int == 64 * x + 8 * y + z);
        let hl = z == 6;
        let instruction = if x == 0 {
            if y == 0 {
                if hl { Instruction::RLC_HL } else { Instruction::RLC(r) }
            } else if y == 1 {
                if hl { Instruction::RRC_HL } else { Instruction::RRC(r) }
            } else if y == 2 {
                if hl { Instruction::RL_HL } else { Instruction::RL(r) }
            } else if y == 3 {
                if hl { Instruction::RR_HL } else { Instruction::RR(r) }
            } else if y == 4 {
                if hl { Instruction::SLA_HL } else { Instruction::SLA(r) }
            } else if y == 5 {
                if hl { Instruction::SRA_HL } else { Instruction::SRA(r) }
            } else if y == 6 {
                if hl { Instruction::SWAP_HL } else { Instruction::SWAP(r) }
            } else {
                if hl { Instruction::SRL_HL } else { Instruction::SRL(r) }
            }
        } else if x == 1 {
            if hl { Instruction::BIT_HL(y) } else { Instruction::BIT(y, r) }
        } else if x == 2 {
            if hl { Instruction::RES_HL(y) } else { Instruction::RES(y, r) }
        } else {
            if hl { Instruction::SET_HL(y) } else { Instruction::SET(y, r) }
        };
        SizedInstruction { instruction, size: 1 }
    }
}

} // verus!
