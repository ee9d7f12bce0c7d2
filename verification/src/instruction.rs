//! The instruction set and its one-byte encoding.

use vstd::prelude::*;

verus! {

/// One operation of the processor. The opcode of an instruction is its
/// position in this list, starting at zero.
#[allow(non_camel_case_types)]
#[derive(Debug, Clone, Copy, PartialEq, Eq, Structural)]
pub enum Instruction {
    NOP,
    LOAD1B,
    LOAD2B,
    LOAD3B,
    LOAD4B,
    LOAD5B,
    LOAD6B,
    LOAD7B,
    LOAD8B,
    ADD,
    SUB,
    MUL,
    DIV,
    NOT,
    AND,
    OR,
    XOR,
    CALL,
    RET,
    END,
    CPUID,
    INT,
}

/// The number of opcodes that name an instruction: bytes below it decode.
pub const OPCODE_COUNT: u8 = 22;

impl Instruction {
    /// The byte that encodes this instruction.
    pub open spec fn spec_opcode(self) -> u8 {
        match self {
            Instruction::NOP => 0,
            Instruction::LOAD1B => 1,
            Instruction::LOAD2B => 2,
            Instruction::LOAD3B => 3,
            Instruction::LOAD4B => 4,
            Instruction::LOAD5B => 5,
            Instruction::LOAD6B => 6,
            Instruction::LOAD7B => 7,
            Instruction::LOAD8B => 8,
            Instruction::ADD => 9,
            Instruction::SUB => 10,
            Instruction::MUL => 11,
            Instruction::DIV => 12,
            Instruction::NOT => 13,
            Instruction::AND => 14,
            Instruction::OR => 15,
            Instruction::XOR => 16,
            Instruction::CALL => 17,
            Instruction::RET => 18,
            Instruction::END => 19,
            Instruction::CPUID => 20,
            Instruction::INT => 21,
        }
    }

    /// The instruction that a byte encodes, if it encodes one.
    pub open spec fn spec_decode(byte: u8) -> Option<Instruction> {
        if byte == 0 {
            Some(Instruction::NOP)
        } else if byte == 1 {
            Some(Instruction::LOAD1B)
        } else if byte == 2 {
            Some(Instruction::LOAD2B)
        } else if byte == 3 {
            Some(Instruction::LOAD3B)
        } else if byte == 4 {
            Some(Instruction::LOAD4B)
        } else if byte == 5 {
            Some(Instruction::LOAD5B)
        } else if byte == 6 {
            Some(Instruction::LOAD6B)
        } else if byte == 7 {
            Some(Instruction::LOAD7B)
        } else if byte == 8 {
            Some(Instruction::LOAD8B)
        } else if byte == 9 {
            Some(Instruction::ADD)
        } else if byte == 10 {
            Some(Instruction::SUB)
        } else if byte == 11 {
            Some(Instruction::MUL)
        } else if byte == 12 {
            Some(Instruction::DIV)
        } else if byte == 13 {
            Some(Instruction::NOT)
        } else if byte == 14 {
            Some(Instruction::AND)
        } else if byte == 15 {
            Some(Instruction::OR)
        } else if byte == 16 {
            Some(Instruction::XOR)
        } else if byte == 17 {
            Some(Instruction::CALL)
        } else if byte == 18 {
            Some(Instruction::RET)
        } else if byte == 19 {
            Some(Instruction::END)
        } else if byte == 20 {
            Some(Instruction::CPUID)
        } else if byte == 21 {
            Some(Instruction::INT)
        } else {
            None
        }
    }

    /// How many operand bytes follow the opcode of this instruction.
    pub open spec fn spec_operand_len(self) -> nat {
        match self {
            Instruction::NOP | Instruction::RET | Instruction::END | Instruction::CPUID => 0,
            Instruction::LOAD1B => 2,
            Instruction::LOAD2B => 3,
            Instruction::LOAD3B => 4,
            Instruction::LOAD4B => 5,
            Instruction::LOAD5B => 6,
            Instruction::LOAD6B => 7,
            Instruction::LOAD7B => 8,
            Instruction::LOAD8B => 9,
            Instruction::ADD | Instruction::SUB | Instruction::MUL | Instruction::DIV => 3,
            Instruction::NOT | Instruction::INT => 1,
            Instruction::AND | Instruction::OR | Instruction::XOR => 2,
            Instruction::CALL => 8,
        }
    }

    /// The byte that encodes this instruction.
    #[verifier::when_used_as_spec(spec_opcode)]
    pub fn opcode(self) -> (byte: u8)
        ensures
            byte == self.spec_opcode(),
            byte < OPCODE_COUNT,
            Instruction::spec_decode(byte) == Some(self),
    {
        match self {
            Instruction::NOP => 0,
            Instruction::LOAD1B => 1,
            Instruction::LOAD2B => 2,
            Instruction::LOAD3B => 3,
            Instruction::LOAD4B => 4,
            Instruction::LOAD5B => 5,
            Instruction::LOAD6B => 6,
            Instruction::LOAD7B => 7,
            Instruction::LOAD8B => 8,
            Instruction::ADD => 9,
            Instruction::SUB => 10,
            Instruction::MUL => 11,
            Instruction::DIV => 12,
            Instruction::NOT => 13,
            Instruction::AND => 14,
            Instruction::OR => 15,
            Instruction::XOR => 16,
            Instruction::CALL => 17,
            Instruction::RET => 18,
            Instruction::END => 19,
            Instruction::CPUID => 20,
            Instruction::INT => 21,
        }
    }

    /// Decodes one opcode byte. Every byte value is covered: the bytes
    /// below `OPCODE_COUNT` name an instruction, all others name none.
    #[verifier::when_used_as_spec(spec_decode)]
    pub fn decode(byte: u8) -> (decoded: Option<Instruction>)
        ensures
            decoded == Instruction::spec_decode(byte),
            decoded is Some <==> byte < OPCODE_COUNT,
            decoded is Some ==> decoded->0.spec_opcode() == byte,
    {
        match byte {
            0 => Some(Instruction::NOP),
            1 => Some(Instruction::LOAD1B),
            2 => Some(Instruction::LOAD2B),
            3 => Some(Instruction::LOAD3B),
            4 => Some(Instruction::LOAD4B),
            5 => Some(Instruction::LOAD5B),
            6 => Some(Instruction::LOAD6B),
            7 => Some(Instruction::LOAD7B),
            8 => Some(Instruction::LOAD8B),
            9 => Some(Instruction::ADD),
            10 => Some(Instruction::SUB),
            11 => Some(Instruction::MUL),
            12 => Some(Instruction::DIV),
            13 => Some(Instruction::NOT),
            14 => Some(Instruction::AND),
            15 => Some(Instruction::OR),
            16 => Some(Instruction::XOR),
            17 => Some(Instruction::CALL),
            18 => Some(Instruction::RET),
            19 => Some(Instruction::END),
            20 => Some(Instruction::CPUID),
            21 => Some(Instruction::INT),
            _ => None,
        }
    }

    /// How many operand bytes follow the opcode of this instruction.
    pub fn operand_len(self) -> (len: usize)
        ensures
            len == self.spec_operand_len(),
            len <= 9,
    {
        match self {
            Instruction::NOP | Instruction::RET | Instruction::END | Instruction::CPUID => 0,
            Instruction::LOAD1B => 2,
            Instruction::LOAD2B => 3,
            Instruction::LOAD3B => 4,
            Instruction::LOAD4B => 5,
            Instruction::LOAD5B => 6,
            Instruction::LOAD6B => 7,
            Instruction::LOAD7B => 8,
            Instruction::LOAD8B => 9,
            Instruction::ADD | Instruction::SUB | Instruction::MUL | Instruction::DIV => 3,
            Instruction::NOT | Instruction::INT => 1,
            Instruction::AND | Instruction::OR | Instruction::XOR => 2,
            Instruction::CALL => 8,
        }
    }
}

} // verus!
