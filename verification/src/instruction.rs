//! Decoding of one 16-bit instruction into its semantic fields.
//!
//! Every 16-bit value decodes to some set of field values; whether the
//! combination is a legal instruction is decided later, at dispatch.

use vstd::prelude::*;

verus! {

/// Register index X: bits 11-8 of the instruction word.
pub open spec fn reg_x(instr: u16) -> int {
    ((instr >> 8) & 0xF) as int
}

/// Register index Y: bits 7-4 of the instruction word.
pub open spec fn reg_y(instr: u16) -> int {
    ((instr >> 4) & 0xF) as int
}

/// The 8-bit immediate: bits 7-0 of the instruction word.
pub open spec fn imm_kk(instr: u16) -> u8 {
    (instr & 0xFF) as u8
}

/// The 12-bit address immediate: bits 11-0 of the instruction word.
pub open spec fn addr_nnn(instr: u16) -> u16 {
    instr & 0xFFF
}

/// The 4-bit immediate: bits 3-0 of the instruction word.
pub open spec fn imm_n(instr: u16) -> int {
    (instr & 0xF) as int
}

/// One immutable 16-bit instruction word.
#[derive(Debug, Clone, Copy, PartialEq, Eq, Structural)]
pub struct Instruction {
    pub value: u16,
}

impl Instruction {
    ///Returns bits 15-12 of an operation's value.
    ///This value normally is the opcode part of an instruction.
    ///
    ///Value is in the 4 right bits of the return value.
    pub fn get_opcode(&self) -> (r: u8)
        ensures
            r == self.value >> 12,
            r < 16,
    {
        proof {
            let v = self.value;
            assert(v >> 12 < 16) by (bit_vector);
        }
        (self.value >> 12) as u8
    }

    ///Returns bits 7-0 of an operation's value.
    ///This value is where instructions using an immediate value encode the immediate.
    pub fn get_immediate(&self) -> (r: u8)
        ensures
            r == self.value & 0xFF,
            r == imm_kk(self.value),
    {
        proof {
            let v = self.value;
            assert(v & 0xFF < 256) by (bit_vector);
        }
        (self.value & 0x00FF) as u8
    }

    ///Returns bits 11-0 of an operation's value.
    ///This value is where instructions using a large immediate like for a memory address encode it.
    pub fn get_address_immediate(&self) -> (r: u16)
        ensures
            r == self.value & 0xFFF,
            r == addr_nnn(self.value),
            r < 0x1000,
    {
        proof {
            let v = self.value;
            assert(v & 0xFFF < 0x1000) by (bit_vector);
        }
        self.value & 0x0FFF
    }

    ///Returns bits 11-8 of an operation's value.
    ///This value is where instructions operating on a register encode the register number.
    ///
    ///Value is in the 4 right bits of the return value.
    pub fn get_register(&self) -> (r: u8)
        ensures
            r == (self.value >> 8) & 0xF,
            r == reg_x(self.value),
            r < 16,
    {
        proof {
            let v = self.value;
            assert((v & 0x0F00) >> 8 == (v >> 8) & 0xF) by (bit_vector);
            assert((v >> 8) & 0xF < 16) by (bit_vector);
        }
        ((self.value & 0x0F00) >> 8) as u8
    }

    ///Returns bits 7-4 of an operation's value.
    ///This value is where instructions using two registers encode the second register.
    ///
    ///Value is in the 4 right bits of the return value.
    pub fn get_second_register(&self) -> (r: u8)
        ensures
            r == (self.value >> 4) & 0xF,
            r == reg_y(self.value),
            r < 16,
    {
        proof {
            let v = self.value;
            assert((v & 0x00F0) >> 4 == (v >> 4) & 0xF) by (bit_vector);
            assert((v >> 4) & 0xF < 16) by (bit_vector);
        }
        ((self.value & 0x00F0) >> 4) as u8
    }

    ///Returns bits 3-0 of an operation's value.
    ///This value is where a 4-bit immediate is stored if the instruction is also storing 2 registers.
    ///
    ///Value is in the 4 right bits of the return value.
    pub fn get_small_immediate(&self) -> (r: u8)
        ensures
            r == self.value & 0xF,
            r == imm_n(self.value),
            r < 16,
    {
        proof {
            let v = self.value;
            assert(v & 0xF < 16) by (bit_vector);
        }
        (self.value & 0x000F) as u8
    }

    pub fn new(value: u16) -> (r: Self)
        ensures
            r.value == value,
    {
        Instruction { value }
    }
}

} // verus!
