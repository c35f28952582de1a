use vstd::prelude::*;

use crate::utils::{high_of, low_of, Address, Byte, ByteOP, SignedByte, Word};

verus! {

/// An 8-bit register operand; `HL` stands for the memory cell at HL.
#[derive(Debug, Clone, Copy, PartialEq, Eq, Hash, Structural)]
pub enum Register {
    A,
    B,
    C,
    D,
    E,
    H,
    L,
    HL,
}

/// A 16-bit register pair.
#[derive(Debug, Clone, Copy, PartialEq, Eq, Hash, Structural)]
pub enum Register16 {
    BC,
    DE,
    HL,
    SP,
    AF,
}

/// A branch condition on the Z and C flags.
#[derive(Debug, Clone, Copy, PartialEq, Eq, Hash, Structural)]
pub enum Condition {
    NonZero,
    Zero,
    NotCarry,
    Carry,
}

/// The 3-bit operand code of an 8-bit register.
pub open spec fn reg_code(r: Register) -> int {
    match r {
        Register::B => 0,
        Register::C => 1,
        Register::D => 2,
        Register::E => 3,
        Register::H => 4,
        Register::L => 5,
        Register::HL => 6,
        Register::A => 7,
    }
}

/// The 2-bit operand code of a register pair (SP and AF share 3).
pub open spec fn rr_code(rr: Register16) -> int {
    match rr {
        Register16::BC => 0,
        Register16::DE => 1,
        Register16::HL => 2,
        Register16::SP => 3,
        Register16::AF => 3,
    }
}

pub open spec fn cond_code(c: Condition) -> int {
    match c {
        Condition::NonZero => 0,
        Condition::Zero => 1,
        Condition::NotCarry => 2,
        Condition::Carry => 3,
    }
}

pub open spec fn reg_of(code: int) -> Register {
    if code == 0 {
        Register::B
    } else if code == 1 {
        Register::C
    } else if code == 2 {
        Register::D
    } else if code == 3 {
        Register::E
    } else if code == 4 {
        Register::H
    } else if code == 5 {
        Register::L
    } else if code == 6 {
        Register::HL
    } else {
        Register::A
    }
}

pub open spec fn rr_of(code: int, sp: bool) -> Register16 {
    if code == 0 {
        Register16::BC
    } else if code == 1 {
        Register16::DE
    } else if code == 2 {
        Register16::HL
    } else if sp {
        Register16::SP
    } else {
        Register16::AF
    }
}

pub open spec fn cond_of(code: int) -> Condition {
    if code == 0 {
        Condition::NonZero
    } else if code == 1 {
        Condition::Zero
    } else if code == 2 {
        Condition::NotCarry
    } else {
        Condition::Carry
    }
}

impl Register {
    /// The register named by the low three bits of `code`.
    pub fn get_r(code: Byte) -> (r: Self)
        ensures
            r == reg_of(code as int % 8),
            reg_code(r) == code as int % 8,
    {
        let c = code.mask(0b111);
        assert(code & 7 == code % 8) by (bit_vector);
        if c == 0 {
            Self::B
        } else if c == 1 {
            Self::C
        } else if c == 2 {
            Self::D
        } else if c == 3 {
            Self::E
        } else if c == 4 {
            Self::H
        } else if c == 5 {
            Self::L
        } else if c == 6 {
            Self::HL
        } else {
            Self::A
        }
    }

    /// The registers named by bits 5-3 and bits 2-0 of `code`.
    pub fn get_rr(code: Byte) -> (r: (Self, Self))
        ensures
            r.0 == reg_of(code as int / 8 % 8),
            r.1 == reg_of(code as int % 8),
    {
        (Self::get_r(code / 8), Self::get_r(code))
    }
}

impl Register16 {
    /// The pair named by the low two bits of `code`; code 3 is SP when `sp`
    /// holds and AF otherwise.
    pub fn get_rr(code: Byte, sp: bool) -> (r: Self)
        ensures
            r == rr_of(code as int % 4, sp),
            rr_code(r) == code as int % 4,
    {
        let c = code % 4;
        if c == 0 {
            Self::BC
        } else if c == 1 {
            Self::DE
        } else if c == 2 {
            Self::HL
        } else if sp {
            Self::SP
        } else {
            Self::AF
        }
    }
}

impl Condition {
    /// The condition named by the low two bits of `code`.
    pub fn get_cond(code: Byte) -> (r: Self)
        ensures
            r == cond_of(code as int % 4),
            cond_code(r) == code as int % 4,
    {
        let c = code % 4;
        if c == 0 {
            Self::NonZero
        } else if c == 1 {
            Self::Zero
        } else if c == 2 {
            Self::NotCarry
        } else {
            Self::Carry
        }
    }
}

/// A decoded instruction with its operands.
#[derive(Debug, Clone, Copy, PartialEq, Eq, Hash, Structural)]
#[allow(non_camel_case_types)]
pub enum Instruction {
    /// Load register (register)
    LD_R_R(Register, Register),
    /// Load register (immediate)
    LD_R_N(Register, Byte),
    /// Load register (indirect HL)
    LD_R_HL(Register),
    /// Load from register (indirect HL)
    LD_HL_R(Register),
    /// Load from immediate data (indirect HL)
    LD_HL_N(Byte),
    /// Load accumulator (indirect BC)
    LD_A_BC,
    /// Load accumulator (indirect DE)
    LD_A_DE,
    /// Load from accumulator (indirect BC)
    LD_BC_A,
    /// Load from accumulator (indirect DE)
    LD_DE_A,
    /// Load accumulator (direct)
    LD_A_NN(Address),
    /// Load from accumulator (direct)
    LD_NN_A(Address),
    /// Load accumulator (indirect 0xFF00+C)
    LDH_A_C,
    /// Load from accumulator (indirect 0xFF00+C)
    LDH_C_A,
    /// Load accumulator (direct 0xFF00+n)
    LDH_A_N(Byte),
    /// Load from accumulator (direct 0xFF00+n)
    LDH_N_A(Byte),
    /// Load accumulator (indirect HL, decrement)
    LD_A_HL_D,
    /// Load accumulator (indirect HL, increment)
    LD_A_HL_I,
    /// Load from accumulator (indirect HL, decrement)
    LD_HL_A_D,
    /// Load from accumulator (indirect HL, increment)
    LD_HL_A_I,
    /// Load 16-bit register pair
    LD_RR_NN(Register16, Word),
    /// Load from stack pointer (direct)
    LD_NN_SP(Word),
    /// Load stack pointer from HL
    LD_SP_HL,
    /// Load HL from adjusted stack pointer
    LD_HL_SP(SignedByte),
    /// Push to stack
    PUSH(Register16),
    /// Pop from stack
    POP(Register16),
    /// Add (register)
    ADD_R(Register),
    /// Add (indirect HL)
    ADD_HL,
    /// Add (immediate)
    ADD_N(Byte),
    /// Subtract (register)
    SUB_R(Register),
    /// Subtract (indirect HL)
    SUB_HL,
    /// Subtract (immediate)
    SUB_N(Byte),
    /// And (register)
    AND_R(Register),
    /// And (indirect HL)
    AND_HL,
    /// And (immediate)
    AND_N(Byte),
    /// Or (register)
    OR_R(Register),
    /// Or (indirect HL)
    OR_HL,
    /// Or (immediate)
    OR_N(Byte),
    /// Add with carry (register)
    ADC_R(Register),
    /// Add with carry (indirect HL)
    ADC_HL,
    /// Add with carry (immediate)
    ADC_N(Byte),
    /// Subtract with carry (register)
    SBC_R(Register),
    /// Subtract with carry (indirect HL)
    SBC_HL,
    /// Subtract with carry (immediate)
    SBC_N(Byte),
    /// Exclusive or (register)
    XOR_R(Register),
    /// Exclusive or (indirect HL)
    XOR_HL,
    /// Exclusive or (immediate)
    XOR_N(Byte),
    /// Compare (register)
    CP_R(Register),
    /// Compare (indirect HL)
    CP_HL,
    /// Compare (immediate)
    CP_N(Byte),
    /// Increment (register)
    INC_R(Register),
    /// Increment (register pair)
    INC_RR(Register16),
    /// Increment (indirect HL)
    INC_HL,
    /// Decrement (register)
    DEC_R(Register),
    /// Decrement (register pair)
    DEC_RR(Register16),
    /// Decrement (indirect HL)
    DEC_HL,
    /// Add (register pair to HL)
    ADD_HL_RR(Register16),
    /// Add to stack pointer (relative)
    ADD_SP_E(SignedByte),
    /// Rotate left circular (accumulator)
    RLCA,
    /// Rotate right circular (accumulator)
    RRCA,
    /// Rotate left (accumulator)
    RLA,
    /// Rotate right (accumulator)
    RRA,
    /// Rotate left circular (register)
    RLC(Register),
    /// Rotate left circular (indirect HL)
    RLC_HL,
    /// Rotate right circular (register)
    RRC(Register),
    /// Rotate right circular (indirect HL)
    RRC_HL,
    /// Rotate left (register)
    RL(Register),
    /// Rotate left (indirect HL)
    RL_HL,
    /// Rotate right (register)
    RR(Register),
    /// Rotate right (indirect HL)
    RR_HL,
    /// Shift left arithmetic (register)
    SLA(Register),
    /// Shift left arithmetic (indirect HL)
    SLA_HL,
    /// Shift right arithmetic (register)
    SRA(Register),
    /// Shift right arithmetic (indirect HL)
    SRA_HL,
    /// Swap nibbles (register)
    SWAP(Register),
    /// Swap nibbles (indirect HL)
    SWAP_HL,
    /// Shift right logical (register)
    SRL(Register),
    /// Shift right logical (indirect HL)
    SRL_HL,
    /// Test bit (register)
    BIT(Byte, Register),
    /// Test bit (indirect HL)
    BIT_HL(Byte),
    /// Reset bit (register)
    RES(Byte, Register),
    /// Reset bit (indirect HL)
    RES_HL(Byte),
    /// Set bit (register)
    SET(Byte, Register),
    /// Set bit (indirect HL)
    SET_HL(Byte),
    /// Unconditional jump
    JP_NN(Address),
    /// Jump to HL
    JP_HL,
    /// Conditional jump
    JP_CC_NN(Condition, Address),
    /// Relative jump
    JR(SignedByte),
    /// Conditional relative jump
    JR_CC(Condition, SignedByte),
    /// Call function
    CALL(Address),
    /// Conditional call
    CALL_CC(Condition, Address),
    /// Return from function
    RET,
    /// Conditional return
    RET_CC(Condition),
    /// Return from interrupt handler
    RETI,
    /// Restart (call the fixed vector)
    RST(Byte),
    /// Complement carry flag
    CCF,
    /// Set carry flag
    SCF,
    /// Decimal adjust accumulator
    DAA,
    /// Complement accumulator
    CPL,
    /// Enable interrupts (after the next instruction)
    EI,
    /// Disable interrupts
    DI,
    /// No operation
    NOP,
    /// Wait for an interrupt
    HALT,
    /// Stop (two bytes)
    STOP,
}

/// The byte that stands for a signed offset.
pub open spec fn byte_of(e: i8) -> u8 {
    if e < 0 {
        (e + 256) as u8
    } else {
        e as u8
    }
}

pub open spec fn one(op: int) -> Seq<u8> {
    seq![op as u8]
}

pub open spec fn two(op: int, n: u8) -> Seq<u8> {
    seq![op as u8, n]
}

pub open spec fn three(op: int, nn: u16) -> Seq<u8> {
    seq![op as u8, low_of(nn), high_of(nn)]
}

pub open spec fn cb(op: int) -> Seq<u8> {
    seq![0xCBu8, op as u8]
}

/// The machine encoding of an instruction.
pub open spec fn encoding(ins: Instruction) -> Seq<u8> {
    match ins {
        Instruction::LD_R_R(d, s) => one(0x40 + 8 * reg_code(d) + reg_code(s)),
        Instruction::LD_R_N(r, n) => two(0x06 + 8 * reg_code(r), n),
        Instruction::LD_R_HL(r) => one(0x46 + 8 * reg_code(r)),
        Instruction::LD_HL_R(r) => one(0x70 + reg_code(r)),
        Instruction::LD_HL_N(n) => two(0x36, n),
        Instruction::LD_A_BC => one(0x0A),
        Instruction::LD_A_DE => one(0x1A),
        Instruction::LD_BC_A => one(0x02),
        Instruction::LD_DE_A => one(0x12),
        Instruction::LD_A_NN(nn) => three(0xFA, nn),
        Instruction::LD_NN_A(nn) => three(0xEA, nn),
        Instruction::LDH_A_C => one(0xF2),
        Instruction::LDH_C_A => one(0xE2),
        Instruction::LDH_A_N(n) => two(0xF0, n),
        Instruction::LDH_N_A(n) => two(0xE0, n),
        Instruction::LD_A_HL_D => one(0x3A),
        Instruction::LD_A_HL_I => one(0x2A),
        Instruction::LD_HL_A_D => one(0x32),
        Instruction::LD_HL_A_I => one(0x22),
        Instruction::LD_RR_NN(rr, nn) => three(0x01 + 16 * rr_code(rr), nn),
        Instruction::LD_NN_SP(nn) => three(0x08, nn),
        Instruction::LD_SP_HL => one(0xF9),
        Instruction::LD_HL_SP(e) => two(0xF8, byte_of(e)),
        Instruction::PUSH(rr) => one(0xC5 + 16 * rr_code(rr)),
        Instruction::POP(rr) => one(0xC1 + 16 * rr_code(rr)),
        Instruction::ADD_R(r) => one(0x80 + reg_code(r)),
        Instruction::ADD_HL => one(0x86),
        Instruction::ADD_N(n) => two(0xC6, n),
        Instruction::ADC_R(r) => one(0x88 + reg_code(r)),
        Instruction::ADC_HL => one(0x8E),
        Instruction::ADC_N(n) => two(0xCE, n),
        Instruction::SUB_R(r) => one(0x90 + reg_code(r)),
        Instruction::SUB_HL => one(0x96),
        Instruction::SUB_N(n) => two(0xD6, n),
        Instruction::SBC_R(r) => one(0x98 + reg_code(r)),
        Instruction::SBC_HL => one(0x9E),
        Instruction::SBC_N(n) => two(0xDE, n),
        Instruction::AND_R(r) => one(0xA0 + reg_code(r)),
        Instruction::AND_HL => one(0xA6),
        Instruction::AND_N(n) => two(0xE6, n),
        Instruction::XOR_R(r) => one(0xA8 + reg_code(r)),
        Instruction::XOR_HL => one(0xAE),
        Instruction::XOR_N(n) => two(0xEE, n),
        Instruction::OR_R(r) => one(0xB0 + reg_code(r)),
        Instruction::OR_HL => one(0xB6),
        Instruction::OR_N(n) => two(0xF6, n),
        Instruction::CP_R(r) => one(0xB8 + reg_code(r)),
        Instruction::CP_HL => one(0xBE),
        Instruction::CP_N(n) => two(0xFE, n),
        Instruction::INC_R(r) => one(0x04 + 8 * reg_code(r)),
        Instruction::INC_RR(rr) => one(0x03 + 16 * rr_code(rr)),
        Instruction::INC_HL => one(0x34),
        Instruction::DEC_R(r) => one(0x05 + 8 * reg_code(r)),
        Instruction::DEC_RR(rr) => one(0x0B + 16 * rr_code(rr)),
        Instruction::DEC_HL => one(0x35),
        Instruction::ADD_HL_RR(rr) => one(0x09 + 16 * rr_code(rr)),
        Instruction::ADD_SP_E(e) => two(0xE8, byte_of(e)),
        Instruction::RLCA => one(0x07),
        Instruction::RRCA => one(0x0F),
        Instruction::RLA => one(0x17),
        Instruction::RRA => one(0x1F),
        Instruction::RLC(r) => cb(reg_code(r)),
        Instruction::RLC_HL => cb(0x06),
        Instruction::RRC(r) => cb(0x08 + reg_code(r)),
        Instruction::RRC_HL => cb(0x0E),
        Instruction::RL(r) => cb(0x10 + reg_code(r)),
        Instruction::RL_HL => cb(0x16),
        Instruction::RR(r) => cb(0x18 + reg_code(r)),
        Instruction::RR_HL => cb(0x1E),
        Instruction::SLA(r) => cb(0x20 + reg_code(r)),
        Instruction::SLA_HL => cb(0x26),
        Instruction::SRA(r) => cb(0x28 + reg_code(r)),
        Instruction::SRA_HL => cb(0x2E),
        Instruction::SWAP(r) => cb(0x30 + reg_code(r)),
        Instruction::SWAP_HL => cb(0x36),
        Instruction::SRL(r) => cb(0x38 + reg_code(r)),
        Instruction::SRL_HL => cb(0x3E),
        Instruction::BIT(b, r) => cb(0x40 + 8 * b + reg_code(r)),
        Instruction::BIT_HL(b) => cb(0x46 + 8 * b),
        Instruction::RES(b, r) => cb(0x80 + 8 * b + reg_code(r)),
        Instruction::RES_HL(b) => cb(0x86 + 8 * b),
        Instruction::SET(b, r) => cb(0xC0 + 8 * b + reg_code(r)),
        Instruction::SET_HL(b) => cb(0xC6 + 8 * b),
        Instruction::JP_NN(nn) => three(0xC3, nn),
        Instruction::JP_HL => one(0xE9),
        Instruction::JP_CC_NN(c, nn) => three(0xC2 + 8 * cond_code(c), nn),
        Instruction::JR(e) => two(0x18, byte_of(e)),
        Instruction::JR_CC(c, e) => two(0x20 + 8 * cond_code(c), byte_of(e)),
        Instruction::CALL(nn) => three(0xCD, nn),
        Instruction::CALL_CC(c, nn) => three(0xC4 + 8 * cond_code(c), nn),
        Instruction::RET => one(0xC9),
        Instruction::RET_CC(c) => one(0xC0 + 8 * cond_code(c)),
        Instruction::RETI => one(0xD9),
        Instruction::RST(n) => one(0xC7 + n),
        Instruction::CCF => one(0x3F),
        Instruction::SCF => one(0x37),
        Instruction::DAA => one(0x27),
        Instruction::CPL => one(0x2F),
        Instruction::EI => one(0xFB),
        Instruction::DI => one(0xF3),
        Instruction::NOP => one(0x00),
        Instruction::HALT => one(0x76),
        Instruction::STOP => two(0x10, 0x00),
    }
}

/// The canonical forms: a register operand is never the memory cell where
/// an `_HL` variant exists, PUSH/POP name AF and never SP, the other pair
/// operands name SP and never AF, bit numbers are below 8 and restart
/// targets are multiples of 8 up to 0x38.
pub open spec fn canonical(ins: Instruction) -> bool {
    match ins {
        Instruction::LD_R_R(d, s) => d != Register::HL && s != Register::HL,
        Instruction::LD_R_N(r, _) => r != Register::HL,
        Instruction::LD_R_HL(r) => r != Register::HL,
        Instruction::LD_HL_R(r) => r != Register::HL,
        Instruction::LD_RR_NN(rr, _) => rr != Register16::AF,
        Instruction::PUSH(rr) => rr != Register16::SP,
        Instruction::POP(rr) => rr != Register16::SP,
        Instruction::ADD_R(r) => r != Register::HL,
        Instruction::ADC_R(r) => r != Register::HL,
        Instruction::SUB_R(r) => r != Register::HL,
        Instruction::SBC_R(r) => r != Register::HL,
        Instruction::AND_R(r) => r != Register::HL,
        Instruction::XOR_R(r) => r != Register::HL,
        Instruction::OR_R(r) => r != Register::HL,
        Instruction::CP_R(r) => r != Register::HL,
        Instruction::INC_R(r) => r != Register::HL,
        Instruction::DEC_R(r) => r != Register::HL,
        Instruction::INC_RR(rr) => rr != Register16::AF,
        Instruction::DEC_RR(rr) => rr != Register16::AF,
        Instruction::ADD_HL_RR(rr) => rr != Register16::AF,
        Instruction::RLC(r) => r != Register::HL,
        Instruction::RRC(r) => r != Register::HL,
        Instruction::RL(r) => r != Register::HL,
        Instruction::RR(r) => r != Register::HL,
        Instruction::SLA(r) => r != Register::HL,
        Instruction::SRA(r) => r != Register::HL,
        Instruction::SWAP(r) => r != Register::HL,
        Instruction::SRL(r) => r != Register::HL,
        Instruction::BIT(b, r) => b < 8 && r != Register::HL,
        Instruction::BIT_HL(b) => b < 8,
        Instruction::RES(b, r) => b < 8 && r != Register::HL,
        Instruction::RES_HL(b) => b < 8,
        Instruction::SET(b, r) => b < 8 && r != Register::HL,
        Instruction::SET_HL(b) => b < 8,
        Instruction::RST(n) => n % 8 == 0 && n <= 0x38,
        _ => true,
    }
}

/// The opcodes that no instruction has.
pub open spec fn illegal_opcode(b: u8) -> bool {
    b == 0xD3 || b == 0xDB || b == 0xDD || b == 0xE3 || b == 0xE4 || b == 0xEB || b == 0xEC
        || b == 0xED || b == 0xF4 || b == 0xFC || b == 0xFD
}

/// `ins` is the instruction at the start of `bytes`: its encoding is a prefix
/// of them, but for the operand byte of STOP, which is not looked at.
pub open spec fn encodes(ins: Instruction, bytes: Seq<u8>) -> bool {
    let enc = encoding(ins);
    &&& enc.len() <= bytes.len()
    &&& forall|i: int|
        0 <= i < enc.len() && (i == 0 || !(ins is STOP)) ==> #[trigger] enc[i] == bytes[i]
}

} // verus!
