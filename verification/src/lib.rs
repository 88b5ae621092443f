//! A verified CHIP-8 interpreter core.
//!
//! The machine owns a 4096-byte memory seeded with the hexadecimal glyph
//! font, sixteen 8-bit data registers, a 16-bit index register, a program
//! counter, a 16-entry call stack, two saturating 8-bit timers, a 64x32
//! monochrome framebuffer drawn by XOR-blitting, and a 16-key input model.
//! One `tick` performs a fetch-decode-execute cycle; timer decrement is a
//! separate entry point so a host can pace the two clocks independently.

use vstd::prelude::*;

pub mod computer;
pub mod cpu;
pub mod frame_buffer;
pub mod input;
pub mod instruction;
pub mod memory;
pub mod semantics;

verus! {

/// Relies on `String`'s `FromIterator<char>` impl: collecting characters
/// yields the string holding exactly those characters in order.
#[verifier::external_body]
pub(crate) fn chars_to_string(chars: Vec<char>) -> (r: String)
    ensures
        r@ == chars@,
{
    chars.into_iter().collect()
}

/// An unrecoverable fault raised while executing a program image.
///
/// All variants indicate a malformed ROM rather than a transient condition:
/// the machine state is left exactly as it was before the offending
/// instruction, so the caller can inspect it for diagnosis.
#[derive(Debug, Clone, Copy, PartialEq, Eq, Structural)]
pub enum Chip8Error {
    /// The 16-bit value is not one of the instructions of the opcode table;
    /// the raw value is carried for diagnosis.
    InvalidInstruction(u16),
    /// A `call` was attempted with the 16-entry stack already full.
    StackOverflow,
    /// A `return` was attempted with the stack empty.
    StackUnderflow,
    /// Address arithmetic reached outside the 4096-byte memory.
    MemoryOutOfRange,
}

/// How one dispatched instruction concluded.
#[derive(Debug, Clone, Copy, PartialEq, Eq, Structural)]
pub enum ExecOutcome {
    /// The instruction ran to completion.
    Completed,
    /// The instruction was `await-keypress` and no key event was pending:
    /// the machine is left unchanged so the host can retry after feeding a
    /// key.
    AwaitingKey,
}

} // verus!
