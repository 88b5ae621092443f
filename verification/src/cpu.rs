//! Register file, program counter, timers, and the call-stack discipline.

use vstd::prelude::*;

use crate::memory::Memory;
use crate::Chip8Error;

verus! {

/// Address at which execution of a loaded program begins.
pub const PC_START: u16 = 0x200;

/// The CPU state: sixteen 8-bit data registers V0-VF (VF doubles as the
/// carry/borrow/collision flag), the 16-bit index register, the stack
/// pointer counting call-stack entries in use, the two saturating 8-bit
/// timers, and the program counter.
pub struct Cpu {
    /// Always exactly 16 slots; slot 0xF is the flag register.
    pub data_registers: Vec<u8>,
    pub index_register: u16,
    /// Number of call-stack entries in use; at most 16.
    pub stack_pointer: u8,
    pub delay_timer: u8,
    pub sound_timer: u8,
    pub program_counter: u16,
}

impl Cpu {
    /// The register file has its fixed size and the stack pointer stays
    /// within the 16-entry stack.
    pub open spec fn wf(&self) -> bool {
        &&& self.data_registers@.len() == 16
        &&& self.stack_pointer <= 16
    }

    /// A fresh CPU: all registers and timers zero, empty stack, and the
    /// program counter at the conventional program start, 0x200.
    pub fn new() -> (r: Self)
        ensures
            r.wf(),
            forall|i: int| 0 <= i < 16 ==> r.data_registers@[i] == 0u8,
            r.index_register == 0,
            r.stack_pointer == 0,
            r.delay_timer == 0,
            r.sound_timer == 0,
            r.program_counter == PC_START,
    {
        let mut data_registers: Vec<u8> = Vec::new();
        while data_registers.len() < 16
            invariant
                data_registers@.len() <= 16,
                forall|i: int| 0 <= i < data_registers@.len() ==> data_registers@[i] == 0u8,
            decreases 16 - data_registers@.len(),
        {
            data_registers.push(0);
        }
        Cpu {
            data_registers,
            index_register: 0,
            stack_pointer: 0,
            delay_timer: 0,
            sound_timer: 0,
            program_counter: PC_START,
        }
    }

    /// Pushes the given return address and increments the stack pointer.
    ///
    /// Pushing onto a full stack is a stack overflow: the fault is returned
    /// and nothing changes.
    pub fn push_stack(&mut self, value: u16, memory: &mut Memory) -> (r: Result<(), Chip8Error>)
        requires
            old(self).wf(),
            old(memory).wf(),
        ensures
            final(self).wf(),
            final(memory).wf(),
            old(self).stack_pointer < 16 ==> {
                &&& r == Ok::<(), Chip8Error>(())
                &&& final(memory).stack@ == old(memory).stack@.update(
                    old(self).stack_pointer as int,
                    value,
                )
                &&& final(self).stack_pointer == old(self).stack_pointer + 1
            },
            old(self).stack_pointer == 16 ==> {
                &&& r == Err::<(), Chip8Error>(Chip8Error::StackOverflow)
                &&& final(memory).stack == old(memory).stack
                &&& final(self).stack_pointer == old(self).stack_pointer
            },
            final(memory).ram == old(memory).ram,
            final(self).data_registers == old(self).data_registers,
            final(self).index_register == old(self).index_register,
            final(self).delay_timer == old(self).delay_timer,
            final(self).sound_timer == old(self).sound_timer,
            final(self).program_counter == old(self).program_counter,
    {
        if self.stack_pointer >= 16 {
            Err(Chip8Error::StackOverflow)
        } else {
            memory.stack[self.stack_pointer as usize] = value;
            self.stack_pointer += 1;
            Ok(())
        }
    }

    /// Pops the most recently pushed return address and decrements the
    /// stack pointer.
    ///
    /// Popping from an empty stack is a stack underflow: the fault is
    /// returned and nothing changes.
    pub fn pop_stack(&mut self, memory: &mut Memory) -> (r: Result<u16, Chip8Error>)
        requires
            old(self).wf(),
            old(memory).wf(),
        ensures
            final(self).wf(),
            old(self).stack_pointer > 0 ==> {
                &&& r == Ok::<u16, Chip8Error>(
                    old(memory).stack@[old(self).stack_pointer - 1],
                )
                &&& final(self).stack_pointer == old(self).stack_pointer - 1
            },
            old(self).stack_pointer == 0 ==> {
                &&& r == Err::<u16, Chip8Error>(Chip8Error::StackUnderflow)
                &&& final(self).stack_pointer == old(self).stack_pointer
            },
            *final(memory) == *old(memory),
            final(self).data_registers == old(self).data_registers,
            final(self).index_register == old(self).index_register,
            final(self).delay_timer == old(self).delay_timer,
            final(self).sound_timer == old(self).sound_timer,
            final(self).program_counter == old(self).program_counter,
    {
        if self.stack_pointer == 0 {
            Err(Chip8Error::StackUnderflow)
        } else {
            self.stack_pointer -= 1;
            let stack_frame = memory.stack[self.stack_pointer as usize];
            Ok(stack_frame)
        }
    }
}

/// The stack contents and entry count after pushing the addresses in
/// `addrs`, one after another, starting from `(stack, sp)`. Each push is
/// the transform that `push_stack` is proved to apply.
pub open spec fn stack_after_pushes(stack: Seq<u16>, sp: int, addrs: Seq<u16>) -> (Seq<u16>, int)
    decreases addrs.len(),
{
    if addrs.len() == 0 {
        (stack, sp)
    } else {
        stack_after_pushes(stack.update(sp, addrs[0]), sp + 1, addrs.skip(1))
    }
}

/// The values returned by `k` consecutive pops from `(stack, sp)`, in the
/// order they come out. Each pop reads `stack[sp - 1]` and decrements the
/// pointer, as `pop_stack` is proved to do.
pub open spec fn popped_values(stack: Seq<u16>, sp: int, k: nat) -> Seq<u16>
    decreases k,
{
    if k == 0 {
        Seq::empty()
    } else {
        seq![stack[sp - 1]] + popped_values(stack, sp - 1, (k - 1) as nat)
    }
}

/// After pushing any prefix, the stack holds the pushed values in order at
/// the pushed slots and is untouched elsewhere.
proof fn lemma_pushes_fill_slots(stack: Seq<u16>, sp: int, addrs: Seq<u16>)
    requires
        0 <= sp,
        sp + addrs.len() <= stack.len(),
    ensures
        stack_after_pushes(stack, sp, addrs).1 == sp + addrs.len(),
        stack_after_pushes(stack, sp, addrs).0.len() == stack.len(),
        forall|i: int|
            0 <= i < addrs.len() ==> stack_after_pushes(stack, sp, addrs).0[sp + i] == addrs[i],
        forall|i: int|
            0 <= i < stack.len() && !(sp <= i < sp + addrs.len()) ==> stack_after_pushes(
                stack,
                sp,
                addrs,
            ).0[i] == stack[i],
    decreases addrs.len(),
{
    if addrs.len() == 0 {
    } else {
        let updated = stack.update(sp, addrs[0]);
        let rest = addrs.skip(1);
        lemma_pushes_fill_slots(updated, sp + 1, rest);
        let result = stack_after_pushes(stack, sp, addrs);
        assert(result == stack_after_pushes(updated, sp + 1, rest));
        assert forall|i: int| 0 <= i < addrs.len() implies result.0[sp + i] == addrs[i] by {
            if i == 0 {
                assert(result.0[sp] == updated[sp]);
            } else {
                assert(result.0[sp + 1 + (i - 1)] == rest[i - 1]);
            }
        }
        assert forall|i: int|
            0 <= i < stack.len() && !(sp <= i < sp + addrs.len()) implies result.0[i]
            == stack[i] by {
            assert(result.0[i] == updated[i]);
        }
    }
}

/// Consecutive pops read the slots below the stack pointer, topmost first.
proof fn lemma_pops_read_down(stack: Seq<u16>, sp: int, k: nat)
    requires
        k <= sp,
        sp <= stack.len(),
    ensures
        popped_values(stack, sp, k).len() == k,
        forall|i: int| 0 <= i < k ==> popped_values(stack, sp, k)[i] == stack[sp - 1 - i],
    decreases k,
{
    if k == 0 {
    } else {
        lemma_pops_read_down(stack, sp - 1, (k - 1) as nat);
    }
}

/// Last in, first out: pushing 16 return addresses onto an empty stack and
/// then popping 16 times yields the addresses in exact reverse order, with
/// the stack pointer back where it started.
pub proof fn lemma_stack_lifo(stack: Seq<u16>, addrs: Seq<u16>)
    requires
        stack.len() == 16,
        addrs.len() == 16,
    ensures
        stack_after_pushes(stack, 0, addrs).1 == 16,
        popped_values(stack_after_pushes(stack, 0, addrs).0, 16, 16) == addrs.reverse(),
{
    lemma_pushes_fill_slots(stack, 0, addrs);
    let pushed = stack_after_pushes(stack, 0, addrs).0;
    lemma_pops_read_down(pushed, 16, 16);
    assert(popped_values(pushed, 16, 16) =~= addrs.reverse());
}

} // verus!
