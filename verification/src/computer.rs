//! The machine itself and the fetch-decode-execute engine.
//!
//! Every instruction of the opcode table is one method; the dispatcher
//! selects and runs exactly one of them per cycle, and `tick` wraps one
//! whole cycle. All of them are specified against `spec_step`, the
//! mathematical opcode table in the `semantics` module.

use vstd::prelude::*;

use crate::cpu::Cpu;
use crate::frame_buffer::FrameBuffer;
use crate::input::Input;
use crate::instruction::{imm_kk, imm_n, reg_x, reg_y, Instruction};
use crate::memory::{ram_with_rom, Memory, MEMORY_SIZE, ROM_START};
use crate::semantics::{
    ram_with_regs, regs_from_ram, step_matches, sub_wrap, tick_matches, with_flag, with_reg,
    with_skip, MachineView,
};
use crate::Chip8Error;
use crate::ExecOutcome;

verus! {

/// Relies on `rand::random`: draws one byte from the thread-local
/// generator. Nothing is assumed of the value drawn.
#[verifier::external_body]
fn random_byte() -> u8 {
    rand::random()
}

/// One whole CHIP-8 machine. All mutable state lives here; a fresh run
/// takes a fresh instance.
pub struct Chip8Computer {
    pub cpu: Cpu,
    pub memory: Memory,
    pub frame_buffer: FrameBuffer,
    pub input: Input,
}

impl View for Chip8Computer {
    type V = MachineView;

    open spec fn view(&self) -> MachineView {
        MachineView {
            regs: self.cpu.data_registers@,
            index: self.cpu.index_register,
            pc: self.cpu.program_counter,
            sp: self.cpu.stack_pointer,
            stack: self.memory.stack@,
            delay: self.cpu.delay_timer,
            sound: self.cpu.sound_timer,
            ram: self.memory.ram@,
            fb: self.frame_buffer.buffer@,
            keys: self.input.pressed_keys,
            pending_key: self.input.pending_key,
        }
    }
}

impl Chip8Computer {
    /// Every component is well-formed.
    pub open spec fn wf(&self) -> bool {
        &&& self.cpu.wf()
        &&& self.memory.wf()
        &&& self.frame_buffer.wf()
        &&& self.input.wf()
    }

    /// A fresh machine: zeroed registers and framebuffer, the font in
    /// memory, an empty stack, no keys held, and the program counter at
    /// 0x200.
    pub fn new() -> (r: Self)
        ensures
            r.wf(),
            r@.wf(),
            forall|i: int| 0 <= i < 16 ==> r@.regs[i] == 0u8,
            r@.index == 0,
            r@.pc == 0x200,
            r@.sp == 0,
            forall|i: int| 0 <= i < 16 ==> r@.stack[i] == 0u16,
            r@.delay == 0,
            r@.sound == 0,
            r@.ram == crate::memory::initial_ram(),
            forall|i: int| 0 <= i < 32 ==> r@.fb[i] == 0u64,
            r@.keys == 0,
            r@.pending_key == Option::<u8>::None,
    {
        Chip8Computer {
            cpu: Cpu::new(),
            memory: Memory::new(),
            frame_buffer: FrameBuffer::new(),
            input: Input::new(),
        }
    }

    /// Loads a ROM image verbatim into memory at 0x200.
    pub fn load_rom(&mut self, rom_bytes: Vec<u8>)
        requires
            old(self).wf(),
            rom_bytes@.len() <= MEMORY_SIZE - ROM_START,
        ensures
            final(self).wf(),
            final(self)@ == (MachineView {
                ram: ram_with_rom(old(self)@.ram, rom_bytes@),
                ..old(self)@
            }),
    {
        self.memory.store_rom(rom_bytes);
        proof {
            assert(self@ =~= (MachineView {
                ram: ram_with_rom(old(self)@.ram, rom_bytes@),
                ..old(self)@
            }));
        }
    }

    /// Decrements both timers once, saturating at zero.
    ///
    /// Timer decrement is paced by the host, independently of instruction
    /// dispatch: the host calls this at its own fixed cadence
    /// (conventionally 60 Hz).
    pub fn decrement_timers(&mut self)
        requires
            old(self).wf(),
        ensures
            final(self).wf(),
            final(self)@ == (MachineView {
                delay: if old(self)@.delay > 0 {
                    (old(self)@.delay - 1) as u8
                } else {
                    0u8
                },
                sound: if old(self)@.sound > 0 {
                    (old(self)@.sound - 1) as u8
                } else {
                    0u8
                },
                ..old(self)@
            }),
    {
        if self.cpu.delay_timer > 0 {
            self.cpu.delay_timer = self.cpu.delay_timer - 1;
        }
        if self.cpu.sound_timer > 0 {
            self.cpu.sound_timer = self.cpu.sound_timer - 1;
        }
        proof {
            assert(self@ =~= (MachineView {
                delay: if old(self)@.delay > 0 {
                    (old(self)@.delay - 1) as u8
                } else {
                    0u8
                },
                sound: if old(self)@.sound > 0 {
                    (old(self)@.sound - 1) as u8
                } else {
                    0u8
                },
                ..old(self)@
            }));
        }
    }

    ///*CLS*:
    ///Clears the display.
    pub fn clear_frame_buffer(&mut self)
        requires
            old(self).wf(),
        ensures
            final(self).wf(),
            final(self)@ == (MachineView {
                fb: Seq::new(crate::frame_buffer::FB_ROWS as nat, |r: int| 0u64),
                ..old(self)@
            }),
    {
        self.frame_buffer.clear();
        proof {
            assert(self@ =~= (MachineView {
                fb: Seq::new(crate::frame_buffer::FB_ROWS as nat, |r: int| 0u64),
                ..old(self)@
            }));
        }
    }

    ///*RET*:
    ///Returns from the subroutine: pops the return address into the
    ///program counter. Popping an empty stack is a stack underflow.
    pub fn return_subroutine(&mut self) -> (r: Result<(), Chip8Error>)
        requires
            old(self).wf(),
        ensures
            final(self).wf(),
            old(self)@.sp == 0 ==> r == Err::<(), Chip8Error>(Chip8Error::StackUnderflow)
                && final(self)@ == old(self)@,
            old(self)@.sp > 0 ==> r == Ok::<(), Chip8Error>(()) && final(self)@ == (MachineView {
                pc: old(self)@.stack[old(self)@.sp - 1],
                sp: (old(self)@.sp - 1) as u8,
                ..old(self)@
            }),
    {
        match self.cpu.pop_stack(&mut self.memory) {
            Ok(address) => {
                self.cpu.program_counter = address;
                proof {
                    assert(self@ =~= (MachineView {
                        pc: old(self)@.stack[old(self)@.sp - 1],
                        sp: (old(self)@.sp - 1) as u8,
                        ..old(self)@
                    }));
                }
                Ok(())
            },
            Err(e) => {
                proof {
                    assert(self@ =~= old(self)@);
                }
                Err(e)
            },
        }
    }

    ///*JP*:
    ///Jumps to the specified address.
    ///0x1nnn: PC = nnn.
    pub fn jump(&mut self, operation: &Instruction)
        requires
            old(self).wf(),
        ensures
            final(self).wf(),
            final(self)@ == (MachineView {
                pc: crate::instruction::addr_nnn(operation.value),
                ..old(self)@
            }),
    {
        self.cpu.program_counter = operation.get_address_immediate();
        proof {
            assert(self@ =~= (MachineView {
                pc: crate::instruction::addr_nnn(operation.value),
                ..old(self)@
            }));
        }
    }

    ///*CALL*:
    ///Calls a subroutine at the specified address.
    ///0x2nnn: Puts current PC on the stack and sets PC to nnn. Calling
    ///with the 16-entry stack full is a stack overflow.
    pub fn call(&mut self, operation: &Instruction) -> (r: Result<(), Chip8Error>)
        requires
            old(self).wf(),
        ensures
            final(self).wf(),
            old(self)@.sp >= 16 ==> r == Err::<(), Chip8Error>(Chip8Error::StackOverflow)
                && final(self)@ == old(self)@,
            old(self)@.sp < 16 ==> r == Ok::<(), Chip8Error>(()) && final(self)@ == (MachineView {
                stack: old(self)@.stack.update(old(self)@.sp as int, old(self)@.pc),
                sp: (old(self)@.sp + 1) as u8,
                pc: crate::instruction::addr_nnn(operation.value),
                ..old(self)@
            }),
    {
        let pc = self.cpu.program_counter;
        match self.cpu.push_stack(pc, &mut self.memory) {
            Ok(_) => {
                self.cpu.program_counter = operation.get_address_immediate();
                proof {
                    assert(self@ =~= (MachineView {
                        stack: old(self)@.stack.update(old(self)@.sp as int, old(self)@.pc),
                        sp: (old(self)@.sp + 1) as u8,
                        pc: crate::instruction::addr_nnn(operation.value),
                        ..old(self)@
                    }));
                }
                Ok(())
            },
            Err(e) => {
                proof {
                    assert(self@ =~= old(self)@);
                }
                Err(e)
            },
        }
    }

    ///*SE*:
    ///Skips the next instruction if the value in the specified register
    ///equals the specified value.
    ///0x3xkk: Skips next instruction if Vx == kk.
    pub fn skip_equal_immediate(&mut self, operation: &Instruction)
        requires
            old(self).wf(),
            old(self).cpu.program_counter + 2 <= 0xFFFF,
        ensures
            final(self).wf(),
            final(self)@ == with_skip(
                old(self)@,
                old(self)@.regs[reg_x(operation.value)] == imm_kk(operation.value),
            ),
    {
        let immediate_value = operation.get_immediate();
        let register_value = self.cpu.data_registers[operation.get_register() as usize];
        if immediate_value == register_value {
            self.cpu.program_counter += 2;
        }
        proof {
            assert(self@ =~= with_skip(
                old(self)@,
                old(self)@.regs[reg_x(operation.value)] == imm_kk(operation.value),
            ));
        }
    }

    ///*SNE*:
    ///Skips the next instruction if the value in the specified register
    ///does not equal the specified value.
    ///0x4xkk: Skips next instruction if Vx != kk.
    pub fn skip_not_equal_immediate(&mut self, operation: &Instruction)
        requires
            old(self).wf(),
            old(self).cpu.program_counter + 2 <= 0xFFFF,
        ensures
            final(self).wf(),
            final(self)@ == with_skip(
                old(self)@,
                old(self)@.regs[reg_x(operation.value)] != imm_kk(operation.value),
            ),
    {
        let immediate_value = operation.get_immediate();
        let register_value = self.cpu.data_registers[operation.get_register() as usize];
        if immediate_value != register_value {
            self.cpu.program_counter += 2;
        }
        proof {
            assert(self@ =~= with_skip(
                old(self)@,
                old(self)@.regs[reg_x(operation.value)] != imm_kk(operation.value),
            ));
        }
    }

    ///*SE*:
    ///Skips the next instruction if the values in the two specified
    ///registers are equal.
    ///0x5xy0: Skips next instruction if Vx == Vy.
    pub fn skip_equal_register(&mut self, operation: &Instruction)
        requires
            old(self).wf(),
            old(self).cpu.program_counter + 2 <= 0xFFFF,
        ensures
            final(self).wf(),
            final(self)@ == with_skip(
                old(self)@,
                old(self)@.regs[reg_x(operation.value)] == old(self)@.regs[reg_y(
                    operation.value,
                )],
            ),
    {
        let register_one_value = self.cpu.data_registers[operation.get_register() as usize];
        let register_two_value = self.cpu.data_registers[operation.get_second_register() as usize];
        if register_one_value == register_two_value {
            self.cpu.program_counter += 2;
        }
        proof {
            assert(self@ =~= with_skip(
                old(self)@,
                old(self)@.regs[reg_x(operation.value)] == old(self)@.regs[reg_y(
                    operation.value,
                )],
            ));
        }
    }

    ///*LD*:
    ///Loads the given value into the specified register.
    ///0x6xkk: Vx = kk.
    pub fn load_immediate(&mut self, operation: &Instruction)
        requires
            old(self).wf(),
        ensures
            final(self).wf(),
            final(self)@ == with_reg(
                old(self)@,
                reg_x(operation.value),
                imm_kk(operation.value),
            ),
    {
        let x = operation.get_register();
        self.cpu.data_registers[x as usize] = operation.get_immediate();
        proof {
            assert(self@ =~= with_reg(
                old(self)@,
                reg_x(operation.value),
                imm_kk(operation.value),
            ));
        }
    }

    ///*ADD*:
    ///Adds the given value to the specified register, modulo 256. Wraps
    ///silently and never touches VF.
    ///0x7xkk: Vx = Vx + kk.
    pub fn add_immediate(&mut self, operation: &Instruction)
        requires
            old(self).wf(),
        ensures
            final(self).wf(),
            final(self)@ == with_reg(
                old(self)@,
                reg_x(operation.value),
                ((old(self)@.regs[reg_x(operation.value)] + imm_kk(operation.value))
                    % 256) as u8,
            ),
    {
        let immediate = operation.get_immediate();
        let x = operation.get_register() as usize;
        let register_value = self.cpu.data_registers[x];
        let sum: u16 = register_value as u16 + immediate as u16;
        self.cpu.data_registers[x] = (sum % 256) as u8;
        proof {
            assert(self@ =~= with_reg(
                old(self)@,
                reg_x(operation.value),
                ((old(self)@.regs[reg_x(operation.value)] + imm_kk(operation.value))
                    % 256) as u8,
            ));
        }
    }

    /// *LD*:
    ///Moves the value within the second specified register into the first.
    ///0x8xy0: Vx = Vy.
    pub fn move_register(&mut self, operation: &Instruction)
        requires
            old(self).wf(),
        ensures
            final(self).wf(),
            final(self)@ == with_reg(
                old(self)@,
                reg_x(operation.value),
                old(self)@.regs[reg_y(operation.value)],
            ),
    {
        let moved_value = self.cpu.data_registers[operation.get_second_register() as usize];
        self.cpu.data_registers[operation.get_register() as usize] = moved_value;
        proof {
            assert(self@ =~= with_reg(
                old(self)@,
                reg_x(operation.value),
                old(self)@.regs[reg_y(operation.value)],
            ));
        }
    }

    /// *OR*:
    ///Bitwise ors Vx and Vy and stores the result in Vx.
    ///0x8xy1: Vx |= Vy.
    pub fn or_register(&mut self, operation: &Instruction)
        requires
            old(self).wf(),
        ensures
            final(self).wf(),
            final(self)@ == with_reg(
                old(self)@,
                reg_x(operation.value),
                old(self)@.regs[reg_x(operation.value)] | old(self)@.regs[reg_y(
                    operation.value,
                )],
            ),
    {
        let or_value = self.cpu.data_registers[operation.get_second_register() as usize];
        let x = operation.get_register() as usize;
        let current = self.cpu.data_registers[x];
        self.cpu.data_registers[x] = current | or_value;
        proof {
            assert(self@ =~= with_reg(
                old(self)@,
                reg_x(operation.value),
                old(self)@.regs[reg_x(operation.value)] | old(self)@.regs[reg_y(
                    operation.value,
                )],
            ));
        }
    }

    /// *AND*:
    ///Bitwise ands Vx and Vy and stores the result in Vx.
    ///0x8xy2: Vx &= Vy.
    pub fn and_register(&mut self, operation: &Instruction)
        requires
            old(self).wf(),
        ensures
            final(self).wf(),
            final(self)@ == with_reg(
                old(self)@,
                reg_x(operation.value),
                old(self)@.regs[reg_x(operation.value)] & old(self)@.regs[reg_y(
                    operation.value,
                )],
            ),
    {
        let and_value = self.cpu.data_registers[operation.get_second_register() as usize];
        let x = operation.get_register() as usize;
        let current = self.cpu.data_registers[x];
        self.cpu.data_registers[x] = current & and_value;
        proof {
            assert(self@ =~= with_reg(
                old(self)@,
                reg_x(operation.value),
                old(self)@.regs[reg_x(operation.value)] & old(self)@.regs[reg_y(
                    operation.value,
                )],
            ));
        }
    }

    /// *XOR*:
    ///Bitwise xors Vx and Vy and stores the result in Vx.
    ///0x8xy3: Vx ^= Vy.
    pub fn xor_register(&mut self, operation: &Instruction)
        requires
            old(self).wf(),
        ensures
            final(self).wf(),
            final(self)@ == with_reg(
                old(self)@,
                reg_x(operation.value),
                old(self)@.regs[reg_x(operation.value)] ^ old(self)@.regs[reg_y(
                    operation.value,
                )],
            ),
    {
        let xor_value = self.cpu.data_registers[operation.get_second_register() as usize];
        let x = operation.get_register() as usize;
        let current = self.cpu.data_registers[x];
        self.cpu.data_registers[x] = current ^ xor_value;
        proof {
            assert(self@ =~= with_reg(
                old(self)@,
                reg_x(operation.value),
                old(self)@.regs[reg_x(operation.value)] ^ old(self)@.regs[reg_y(
                    operation.value,
                )],
            ));
        }
    }

    /// *ADD*:
    ///Adds the contents of two registers together, modulo 256, and stores
    ///the result in the first. VF is then set to whether the unsigned
    ///8-bit addition overflowed; an X of VF ends up holding the flag.
    ///0x8xy4: Vx += Vy.
    pub fn add_register(&mut self, operation: &Instruction)
        requires
            old(self).wf(),
        ensures
            final(self).wf(),
            final(self)@ == with_flag(
                with_reg(
                    old(self)@,
                    reg_x(operation.value),
                    ((old(self)@.regs[reg_x(operation.value)] + old(self)@.regs[reg_y(
                        operation.value,
                    )]) % 256) as u8,
                ),
                if old(self)@.regs[reg_x(operation.value)] + old(self)@.regs[reg_y(
                    operation.value,
                )] >= 256 {
                    1u8
                } else {
                    0u8
                },
            ),
            reg_x(operation.value) != 0xF ==> final(self)@.regs[reg_x(operation.value)] == (old(
                self,
            )@.regs[reg_x(operation.value)] + old(self)@.regs[reg_y(operation.value)]) % 256,
            final(self)@.regs[0xF] == (if old(self)@.regs[reg_x(operation.value)] + old(
                self,
            )@.regs[reg_y(operation.value)] >= 256 {
                1u8
            } else {
                0u8
            }),
    {
        let x = operation.get_register() as usize;
        let y = operation.get_second_register() as usize;
        let first_value = self.cpu.data_registers[x];
        let second_value = self.cpu.data_registers[y];
        let sum: u16 = first_value as u16 + second_value as u16;
        self.cpu.data_registers[x] = (sum % 256) as u8;
        self.cpu.data_registers[0xF] = if sum >= 256 {
            1
        } else {
            0
        };
        proof {
            assert(self@ =~= with_flag(
                with_reg(
                    old(self)@,
                    reg_x(operation.value),
                    ((old(self)@.regs[reg_x(operation.value)] + old(self)@.regs[reg_y(
                        operation.value,
                    )]) % 256) as u8,
                ),
                if old(self)@.regs[reg_x(operation.value)] + old(self)@.regs[reg_y(
                    operation.value,
                )] >= 256 {
                    1u8
                } else {
                    0u8
                },
            ));
        }
    }

    /// *SUB*:
    ///Subtracts the content of register 2 from register 1, modulo 256, and
    ///stores the result in the first. VF is then set to 1 exactly when no
    ///borrow occurred (Vx >= Vy) - the flag polarity the ISA mandates.
    ///0x8xy5: Vx -= Vy.
    pub fn subtract_register(&mut self, operation: &Instruction)
        requires
            old(self).wf(),
        ensures
            final(self).wf(),
            final(self)@ == with_flag(
                with_reg(
                    old(self)@,
                    reg_x(operation.value),
                    sub_wrap(
                        old(self)@.regs[reg_x(operation.value)],
                        old(self)@.regs[reg_y(operation.value)],
                    ),
                ),
                if old(self)@.regs[reg_x(operation.value)] >= old(self)@.regs[reg_y(
                    operation.value,
                )] {
                    1u8
                } else {
                    0u8
                },
            ),
            reg_x(operation.value) != 0xF ==> final(self)@.regs[reg_x(operation.value)] == (old(
                self,
            )@.regs[reg_x(operation.value)] - old(self)@.regs[reg_y(operation.value)] + 256) % 256,
            final(self)@.regs[0xF] == (if old(self)@.regs[reg_x(operation.value)] >= old(
                self,
            )@.regs[reg_y(operation.value)] {
                1u8
            } else {
                0u8
            }),
    {
        let x = operation.get_register() as usize;
        let y = operation.get_second_register() as usize;
        let first_value = self.cpu.data_registers[x];
        let second_value = self.cpu.data_registers[y];
        let difference: u16 = (first_value as u16 + 256) - second_value as u16;
        self.cpu.data_registers[x] = (difference % 256) as u8;
        self.cpu.data_registers[0xF] = if first_value >= second_value {
            1
        } else {
            0
        };
        proof {
            assert(self@ =~= with_flag(
                with_reg(
                    old(self)@,
                    reg_x(operation.value),
                    sub_wrap(
                        old(self)@.regs[reg_x(operation.value)],
                        old(self)@.regs[reg_y(operation.value)],
                    ),
                ),
                if old(self)@.regs[reg_x(operation.value)] >= old(self)@.regs[reg_y(
                    operation.value,
                )] {
                    1u8
                } else {
                    0u8
                },
            ));
        }
    }

    /// *SHR*:
    ///Stores register Y shifted right by one into register X. VF is then
    ///set to the bit that was shifted out (Y's bit 0).
    ///0x8xy6: Vx = Vy >> 1.
    pub fn shift_right(&mut self, operation: &Instruction)
        requires
            old(self).wf(),
        ensures
            final(self).wf(),
            final(self)@ == with_flag(
                with_reg(
                    old(self)@,
                    reg_x(operation.value),
                    old(self)@.regs[reg_y(operation.value)] >> 1,
                ),
                old(self)@.regs[reg_y(operation.value)] & 1,
            ),
            reg_x(operation.value) != 0xF ==> final(self)@.regs[reg_x(operation.value)] == old(
                self,
            )@.regs[reg_y(operation.value)] >> 1,
            final(self)@.regs[0xF] == old(self)@.regs[reg_y(operation.value)] & 1,
    {
        let x = operation.get_register() as usize;
        let second_value = self.cpu.data_registers[operation.get_second_register() as usize];
        let last_bit = second_value & 0x01;
        self.cpu.data_registers[x] = second_value >> 1;
        self.cpu.data_registers[0xF] = last_bit;
        proof {
            assert(self@ =~= with_flag(
                with_reg(
                    old(self)@,
                    reg_x(operation.value),
                    old(self)@.regs[reg_y(operation.value)] >> 1,
                ),
                old(self)@.regs[reg_y(operation.value)] & 1,
            ));
        }
    }

    /// *SUBN*:
    ///Subtracts the content of register 1 from register 2, modulo 256, and
    ///stores the result in the first. VF uses the same inverted-borrow
    ///convention as *SUB*.
    ///0x8xy7: Vx = Vy - Vx.
    pub fn subtract_register_not(&mut self, operation: &Instruction)
        requires
            old(self).wf(),
        ensures
            final(self).wf(),
            final(self)@ == with_flag(
                with_reg(
                    old(self)@,
                    reg_x(operation.value),
                    sub_wrap(
                        old(self)@.regs[reg_y(operation.value)],
                        old(self)@.regs[reg_x(operation.value)],
                    ),
                ),
                if old(self)@.regs[reg_y(operation.value)] >= old(self)@.regs[reg_x(
                    operation.value,
                )] {
                    1u8
                } else {
                    0u8
                },
            ),
    {
        let x = operation.get_register() as usize;
        let y = operation.get_second_register() as usize;
        let first_value = self.cpu.data_registers[x];
        let second_value = self.cpu.data_registers[y];
        let difference: u16 = (second_value as u16 + 256) - first_value as u16;
        self.cpu.data_registers[x] = (difference % 256) as u8;
        self.cpu.data_registers[0xF] = if second_value >= first_value {
            1
        } else {
            0
        };
        proof {
            assert(self@ =~= with_flag(
                with_reg(
                    old(self)@,
                    reg_x(operation.value),
                    sub_wrap(
                        old(self)@.regs[reg_y(operation.value)],
                        old(self)@.regs[reg_x(operation.value)],
                    ),
                ),
                if old(self)@.regs[reg_y(operation.value)] >= old(self)@.regs[reg_x(
                    operation.value,
                )] {
                    1u8
                } else {
                    0u8
                },
            ));
        }
    }

    /// *SHL*:
    ///Stores register Y shifted left by one, modulo 256, into register X.
    ///VF is then set to the bit that was shifted out (Y's bit 7).
    ///0x8xyE: Vx = Vy << 1.
    pub fn shift_left(&mut self, operation: &Instruction)
        requires
            old(self).wf(),
        ensures
            final(self).wf(),
            final(self)@ == with_flag(
                with_reg(
                    old(self)@,
                    reg_x(operation.value),
                    ((2 * old(self)@.regs[reg_y(operation.value)]) % 256) as u8,
                ),
                old(self)@.regs[reg_y(operation.value)] >> 7,
            ),
            reg_x(operation.value) != 0xF ==> final(self)@.regs[reg_x(operation.value)] == (2
                * old(self)@.regs[reg_y(operation.value)]) % 256,
            final(self)@.regs[0xF] == (old(self)@.regs[reg_y(operation.value)] >> 7) & 1,
    {
        let x = operation.get_register() as usize;
        let second_value = self.cpu.data_registers[operation.get_second_register() as usize];
        let first_bit = second_value >> 7;
        let doubled: u16 = 2 * (second_value as u16);
        self.cpu.data_registers[x] = (doubled % 256) as u8;
        self.cpu.data_registers[0xF] = first_bit;
        proof {
            let v = old(self)@.regs[reg_y(operation.value)];
            assert((v >> 7) & 1 == v >> 7) by (bit_vector);
            assert(self@ =~= with_flag(
                with_reg(
                    old(self)@,
                    reg_x(operation.value),
                    ((2 * old(self)@.regs[reg_y(operation.value)]) % 256) as u8,
                ),
                old(self)@.regs[reg_y(operation.value)] >> 7,
            ));
        }
    }

    /// *SNE*:
    ///Skips the next instruction if the values in the two given registers
    ///are not equal.
    ///0x9xy0: Skips next instruction if Vx != Vy.
    pub fn skip_not_equal_register(&mut self, operation: &Instruction)
        requires
            old(self).wf(),
            old(self).cpu.program_counter + 2 <= 0xFFFF,
        ensures
            final(self).wf(),
            final(self)@ == with_skip(
                old(self)@,
                old(self)@.regs[reg_x(operation.value)] != old(self)@.regs[reg_y(
                    operation.value,
                )],
            ),
    {
        let first_value = self.cpu.data_registers[operation.get_register() as usize];
        let second_value = self.cpu.data_registers[operation.get_second_register() as usize];
        if second_value != first_value {
            self.cpu.program_counter += 2;
        }
        proof {
            assert(self@ =~= with_skip(
                old(self)@,
                old(self)@.regs[reg_x(operation.value)] != old(self)@.regs[reg_y(
                    operation.value,
                )],
            ));
        }
    }

    ///*LD I*:
    ///Loads the given large immediate value into the index register.
    ///0xAnnn: I = nnn.
    pub fn load_address(&mut self, operation: &Instruction)
        requires
            old(self).wf(),
        ensures
            final(self).wf(),
            final(self)@ == (MachineView {
                index: crate::instruction::addr_nnn(operation.value),
                ..old(self)@
            }),
    {
        self.cpu.index_register = operation.get_address_immediate();
        proof {
            assert(self@ =~= (MachineView {
                index: crate::instruction::addr_nnn(operation.value),
                ..old(self)@
            }));
        }
    }

    ///*JP I*:
    ///Sets PC to nnn + V0 (unsigned 16-bit addition, no overflow flag).
    ///0xBnnn: PC = nnn + V0.
    pub fn jump_register(&mut self, operation: &Instruction)
        requires
            old(self).wf(),
        ensures
            final(self).wf(),
            final(self)@ == (MachineView {
                pc: (crate::instruction::addr_nnn(operation.value) + old(self)@.regs[0]) as u16,
                ..old(self)@
            }),
    {
        let jump_address = self.cpu.data_registers[0] as u16 + operation.get_address_immediate();
        self.cpu.program_counter = jump_address;
        proof {
            assert(self@ =~= (MachineView {
                pc: (crate::instruction::addr_nnn(operation.value) + old(self)@.regs[0]) as u16,
                ..old(self)@
            }));
        }
    }

    /// *RND*:
    ///Draws a random byte, ANDs it with the immediate, and stores the
    ///result in Vx. Every bit outside the immediate's mask comes out zero;
    ///the byte itself is whatever the generator produced.
    ///0xCxkk: Vx = random byte & kk.
    pub fn random(&mut self, operation: &Instruction)
        requires
            old(self).wf(),
        ensures
            final(self).wf(),
            exists|b: u8|
                final(self)@ == with_reg(
                    old(self)@,
                    reg_x(operation.value),
                    b & imm_kk(operation.value),
                ),
    {
        let random_number = random_byte();
        let result = random_number & operation.get_immediate();
        self.cpu.data_registers[operation.get_register() as usize] = result;
        proof {
            assert(self@ =~= with_reg(
                old(self)@,
                reg_x(operation.value),
                random_number & imm_kk(operation.value),
            ));
        }
    }

    /// *DRW*:
    ///Reads n bytes from memory starting at the address in the index
    ///register and XORs them as a sprite onto the framebuffer at (Vx, Vy),
    ///wrapping horizontally and clipping vertically. VF is then set to
    ///whether any lit pixel was erased. A sprite read reaching outside
    ///memory is fatal and changes nothing.
    ///0xDxyn.
    pub fn draw(&mut self, operation: &Instruction) -> (r: Result<(), Chip8Error>)
        requires
            old(self).wf(),
        ensures
            final(self).wf(),
            old(self)@.index + imm_n(operation.value) > MEMORY_SIZE ==> r == Err::<
                (),
                Chip8Error,
            >(Chip8Error::MemoryOutOfRange) && final(self)@ == old(self)@,
            old(self)@.index + imm_n(operation.value) <= MEMORY_SIZE ==> r == Ok::<
                (),
                Chip8Error,
            >(()) && final(self)@ == (MachineView {
                fb: crate::frame_buffer::fb_after_draw(
                    old(self)@.fb,
                    old(self)@.regs[reg_x(operation.value)],
                    old(self)@.regs[reg_y(operation.value)],
                    old(self)@.ram.subrange(
                        old(self)@.index as int,
                        old(self)@.index + imm_n(operation.value),
                    ),
                ),
                regs: old(self)@.regs.update(
                    0xF,
                    if crate::frame_buffer::draw_collides(
                        old(self)@.fb,
                        old(self)@.regs[reg_x(operation.value)],
                        old(self)@.regs[reg_y(operation.value)],
                        old(self)@.ram.subrange(
                            old(self)@.index as int,
                            old(self)@.index + imm_n(operation.value),
                        ),
                    ) {
                        1u8
                    } else {
                        0u8
                    },
                ),
                ..old(self)@
            }),
    {
        let num_bytes = operation.get_small_immediate();
        let starting_address = self.cpu.index_register;
        if starting_address as usize > MEMORY_SIZE - num_bytes as usize {
            return Err(Chip8Error::MemoryOutOfRange);
        }
        let draw_bytes = self.memory.read_bytes(starting_address, num_bytes as u16);
        let start_x = self.cpu.data_registers[operation.get_register() as usize];
        let start_y = self.cpu.data_registers[operation.get_second_register() as usize];
        let collision = self.frame_buffer.draw_sprite(start_x, start_y, draw_bytes);
        self.cpu.data_registers[0xF] = if collision {
            1
        } else {
            0
        };
        proof {
            assert(self@ =~= (MachineView {
                fb: crate::frame_buffer::fb_after_draw(
                    old(self)@.fb,
                    old(self)@.regs[reg_x(operation.value)],
                    old(self)@.regs[reg_y(operation.value)],
                    old(self)@.ram.subrange(
                        old(self)@.index as int,
                        old(self)@.index + imm_n(operation.value),
                    ),
                ),
                regs: old(self)@.regs.update(
                    0xF,
                    if crate::frame_buffer::draw_collides(
                        old(self)@.fb,
                        old(self)@.regs[reg_x(operation.value)],
                        old(self)@.regs[reg_y(operation.value)],
                        old(self)@.ram.subrange(
                            old(self)@.index as int,
                            old(self)@.index + imm_n(operation.value),
                        ),
                    ) {
                        1u8
                    } else {
                        0u8
                    },
                ),
                ..old(self)@
            }));
        }
        Ok(())
    }

    /// *SKP*:
    ///Skips the next instruction if the key named by Vx's low nibble is
    ///currently held.
    ///0xEx9E.
    pub fn skip_pressed(&mut self, operation: &Instruction)
        requires
            old(self).wf(),
            old(self).cpu.program_counter + 2 <= 0xFFFF,
        ensures
            final(self).wf(),
            final(self)@ == with_skip(
                old(self)@,
                crate::input::spec_key_down(
                    old(self)@.keys,
                    old(self)@.regs[reg_x(operation.value)],
                ),
            ),
    {
        let key_value = self.cpu.data_registers[operation.get_register() as usize];
        if self.input.check_pressed(key_value) {
            self.cpu.program_counter += 2;
        }
        proof {
            assert(self@ =~= with_skip(
                old(self)@,
                crate::input::spec_key_down(
                    old(self)@.keys,
                    old(self)@.regs[reg_x(operation.value)],
                ),
            ));
        }
    }

    /// *SKNP*:
    ///Skips the next instruction if the key named by Vx's low nibble is
    ///not currently held.
    ///0xExA1.
    pub fn skip_not_pressed(&mut self, operation: &Instruction)
        requires
            old(self).wf(),
            old(self).cpu.program_counter + 2 <= 0xFFFF,
        ensures
            final(self).wf(),
            final(self)@ == with_skip(
                old(self)@,
                !crate::input::spec_key_down(
                    old(self)@.keys,
                    old(self)@.regs[reg_x(operation.value)],
                ),
            ),
    {
        let key_value = self.cpu.data_registers[operation.get_register() as usize];
        if !self.input.check_pressed(key_value) {
            self.cpu.program_counter += 2;
        }
        proof {
            assert(self@ =~= with_skip(
                old(self)@,
                !crate::input::spec_key_down(
                    old(self)@.keys,
                    old(self)@.regs[reg_x(operation.value)],
                ),
            ));
        }
    }

    /// *LD*:
    ///Loads the value of the delay timer into Vx.
    ///0xFx07: Vx = delay timer.
    pub fn load_delay(&mut self, operation: &Instruction)
        requires
            old(self).wf(),
        ensures
            final(self).wf(),
            final(self)@ == with_reg(old(self)@, reg_x(operation.value), old(self)@.delay),
    {
        self.cpu.data_registers[operation.get_register() as usize] = self.cpu.delay_timer;
        proof {
            assert(self@ =~= with_reg(old(self)@, reg_x(operation.value), old(self)@.delay));
        }
    }

    /// *LD*:
    ///Stores the value of the next keypress in Vx. If a keypress event is
    ///pending it is consumed; otherwise the machine is left unchanged and
    ///the caller learns that the instruction is awaiting input, so a
    ///single-threaded host can wait in its own event loop.
    ///0xFx0A: Vx = keypress.
    pub fn load_keypress(&mut self, operation: &Instruction) -> (r: ExecOutcome)
        requires
            old(self).wf(),
        ensures
            final(self).wf(),
            old(self)@.pending_key matches Some(k) ==> r == ExecOutcome::Completed && final(self)@ == (MachineView {
                pending_key: None,
                ..with_reg(old(self)@, reg_x(operation.value), k)
            }),
            old(self)@.pending_key is None ==> r == ExecOutcome::AwaitingKey && final(self)@ == old(
                self,
            )@,
    {
        match self.input.take_keypress() {
            Some(key) => {
                self.cpu.data_registers[operation.get_register() as usize] = key;
                proof {
                    assert(self@ =~= (MachineView {
                        pending_key: None,
                        ..with_reg(old(self)@, reg_x(operation.value), key)
                    }));
                }
                ExecOutcome::Completed
            },
            None => {
                proof {
                    assert(self@ =~= old(self)@);
                }
                ExecOutcome::AwaitingKey
            },
        }
    }

    /// *LD DT*:
    ///Sets the delay timer to the value within the specified register.
    ///0xFx15: delay timer = Vx.
    pub fn store_delay(&mut self, operation: &Instruction)
        requires
            old(self).wf(),
        ensures
            final(self).wf(),
            final(self)@ == (MachineView {
                delay: old(self)@.regs[reg_x(operation.value)],
                ..old(self)@
            }),
    {
        self.cpu.delay_timer = self.cpu.data_registers[operation.get_register() as usize];
        proof {
            assert(self@ =~= (MachineView {
                delay: old(self)@.regs[reg_x(operation.value)],
                ..old(self)@
            }));
        }
    }

    /// *LD ST*:
    ///Sets the sound timer to the value within the specified register.
    ///0xFx18: sound timer = Vx.
    pub fn store_sound(&mut self, operation: &Instruction)
        requires
            old(self).wf(),
        ensures
            final(self).wf(),
            final(self)@ == (MachineView {
                sound: old(self)@.regs[reg_x(operation.value)],
                ..old(self)@
            }),
    {
        self.cpu.sound_timer = self.cpu.data_registers[operation.get_register() as usize];
        proof {
            assert(self@ =~= (MachineView {
                sound: old(self)@.regs[reg_x(operation.value)],
                ..old(self)@
            }));
        }
    }

    /// *ADD I, Vx*:
    ///Adds the index register and Vx and stores the sum in the index
    ///register. A sum reaching outside the 4096-byte space is fatal and
    ///changes nothing.
    ///0xFx1E: I += Vx.
    pub fn add_index(&mut self, operation: &Instruction) -> (r: Result<(), Chip8Error>)
        requires
            old(self).wf(),
        ensures
            final(self).wf(),
            old(self)@.index + old(self)@.regs[reg_x(operation.value)] >= MEMORY_SIZE ==> r
                == Err::<(), Chip8Error>(Chip8Error::MemoryOutOfRange) && final(self)@ == old(
                self,
            )@,
            old(self)@.index + old(self)@.regs[reg_x(operation.value)] < MEMORY_SIZE ==> r == Ok::<
                (),
                Chip8Error,
            >(()) && final(self)@ == (MachineView {
                index: (old(self)@.index + old(self)@.regs[reg_x(operation.value)]) as u16,
                ..old(self)@
            }),
    {
        let addend = self.cpu.data_registers[operation.get_register() as usize];
        if self.cpu.index_register as usize + addend as usize >= MEMORY_SIZE {
            return Err(Chip8Error::MemoryOutOfRange);
        }
        self.cpu.index_register = self.cpu.index_register + addend as u16;
        proof {
            assert(self@ =~= (MachineView {
                index: (old(self)@.index + old(self)@.regs[reg_x(operation.value)]) as u16,
                ..old(self)@
            }));
        }
        Ok(())
    }

    /// *LD F, Vx*:
    ///Stores the address of the font glyph for Vx's value into the index
    ///register: the glyph for digit d sits at address d * 5.
    ///0xFx29: I = Vx * 5.
    pub fn index_sprite(&mut self, operation: &Instruction)
        requires
            old(self).wf(),
        ensures
            final(self).wf(),
            final(self)@ == (MachineView {
                index: (old(self)@.regs[reg_x(operation.value)] * 5) as u16,
                ..old(self)@
            }),
    {
        let value = self.cpu.data_registers[operation.get_register() as usize];
        self.cpu.index_register = value as u16 * 5;
        proof {
            assert(self@ =~= (MachineView {
                index: (old(self)@.regs[reg_x(operation.value)] * 5) as u16,
                ..old(self)@
            }));
        }
    }

    /// *LD B, Vx*:
    ///Stores the three decimal digits of Vx (hundreds, tens, ones) at
    ///memory addresses I, I+1, and I+2. A write reaching outside memory is
    ///fatal and changes nothing.
    ///0xFx33.
    pub fn store_bcd(&mut self, operation: &Instruction) -> (r: Result<(), Chip8Error>)
        requires
            old(self).wf(),
        ensures
            final(self).wf(),
            old(self)@.index + 2 >= MEMORY_SIZE ==> r == Err::<(), Chip8Error>(
                Chip8Error::MemoryOutOfRange,
            ) && final(self)@ == old(self)@,
            old(self)@.index + 2 < MEMORY_SIZE ==> r == Ok::<(), Chip8Error>(()) && final(self)@
                == (MachineView {
                ram: old(self)@.ram.update(
                    old(self)@.index as int,
                    (old(self)@.regs[reg_x(operation.value)] / 100) as u8,
                ).update(
                    old(self)@.index + 1,
                    ((old(self)@.regs[reg_x(operation.value)] / 10) % 10) as u8,
                ).update(
                    old(self)@.index + 2,
                    (old(self)@.regs[reg_x(operation.value)] % 10) as u8,
                ),
                ..old(self)@
            }),
    {
        let value = self.cpu.data_registers[operation.get_register() as usize];
        let address = self.cpu.index_register as usize;
        if address + 2 >= MEMORY_SIZE {
            return Err(Chip8Error::MemoryOutOfRange);
        }
        let hundreds = value / 100;
        let tens = (value / 10) % 10;
        let ones = value % 10;
        self.memory.ram[address] = hundreds;
        self.memory.ram[address + 1] = tens;
        self.memory.ram[address + 2] = ones;
        proof {
            assert(self@ =~= (MachineView {
                ram: old(self)@.ram.update(
                    old(self)@.index as int,
                    (old(self)@.regs[reg_x(operation.value)] / 100) as u8,
                ).update(
                    old(self)@.index + 1,
                    ((old(self)@.regs[reg_x(operation.value)] / 10) % 10) as u8,
                ).update(
                    old(self)@.index + 2,
                    (old(self)@.regs[reg_x(operation.value)] % 10) as u8,
                ),
                ..old(self)@
            }));
        }
        Ok(())
    }

    /// *LD [I], Vx*:
    ///Stores registers V0..=Vx into consecutive memory locations starting
    ///at the address in the index register, in ascending register order.
    ///A write reaching outside memory is fatal and changes nothing.
    ///0xFx55.
    pub fn store_registers(&mut self, operation: &Instruction) -> (r: Result<(), Chip8Error>)
        requires
            old(self).wf(),
        ensures
            final(self).wf(),
            old(self)@.index + reg_x(operation.value) >= MEMORY_SIZE ==> r == Err::<
                (),
                Chip8Error,
            >(Chip8Error::MemoryOutOfRange) && final(self)@ == old(self)@,
            old(self)@.index + reg_x(operation.value) < MEMORY_SIZE ==> r == Ok::<(), Chip8Error>(
                (),
            ) && final(self)@ == (MachineView {
                ram: ram_with_regs(
                    old(self)@.ram,
                    old(self)@.index as int,
                    old(self)@.regs,
                    reg_x(operation.value),
                ),
                ..old(self)@
            }),
    {
        let x = operation.get_register() as usize;
        let base = self.cpu.index_register as usize;
        if base + x >= MEMORY_SIZE {
            return Err(Chip8Error::MemoryOutOfRange);
        }
        let mut i: usize = 0;
        while i <= x
            invariant
                old(self).wf(),
                self.cpu == old(self).cpu,
                self.frame_buffer == old(self).frame_buffer,
                self.input == old(self).input,
                self.memory.stack == old(self).memory.stack,
                self.memory.ram@.len() == MEMORY_SIZE,
                x == reg_x(operation.value),
                x < 16,
                base == old(self)@.index,
                base + x < MEMORY_SIZE,
                i <= x + 1,
                forall|j: int|
                    base <= j < base + i ==> self.memory.ram@[j] == old(self)@.regs[j - base],
                forall|j: int|
                    0 <= j < MEMORY_SIZE && !(base <= j < base + i) ==> self.memory.ram@[j] == old(
                        self,
                    )@.ram[j],
            decreases x + 1 - i,
        {
            let value = self.cpu.data_registers[i];
            self.memory.ram[base + i] = value;
            i += 1;
        }
        proof {
            assert(self@ =~= (MachineView {
                ram: ram_with_regs(
                    old(self)@.ram,
                    old(self)@.index as int,
                    old(self)@.regs,
                    reg_x(operation.value),
                ),
                ..old(self)@
            }));
        }
        Ok(())
    }

    /// *LD Vx, [I]*:
    ///Loads registers V0..=Vx from consecutive memory locations starting
    ///at the address in the index register, in ascending register order.
    ///A read reaching outside memory is fatal and changes nothing.
    ///0xFx65.
    pub fn load_registers(&mut self, operation: &Instruction) -> (r: Result<(), Chip8Error>)
        requires
            old(self).wf(),
        ensures
            final(self).wf(),
            old(self)@.index + reg_x(operation.value) >= MEMORY_SIZE ==> r == Err::<
                (),
                Chip8Error,
            >(Chip8Error::MemoryOutOfRange) && final(self)@ == old(self)@,
            old(self)@.index + reg_x(operation.value) < MEMORY_SIZE ==> r == Ok::<(), Chip8Error>(
                (),
            ) && final(self)@ == (MachineView {
                regs: regs_from_ram(
                    old(self)@.regs,
                    old(self)@.ram,
                    old(self)@.index as int,
                    reg_x(operation.value),
                ),
                ..old(self)@
            }),
    {
        let x = operation.get_register() as usize;
        let base = self.cpu.index_register as usize;
        if base + x >= MEMORY_SIZE {
            return Err(Chip8Error::MemoryOutOfRange);
        }
        let mut i: usize = 0;
        while i <= x
            invariant
                old(self).wf(),
                self.memory == old(self).memory,
                self.frame_buffer == old(self).frame_buffer,
                self.input == old(self).input,
                self.cpu.index_register == old(self).cpu.index_register,
                self.cpu.stack_pointer == old(self).cpu.stack_pointer,
                self.cpu.delay_timer == old(self).cpu.delay_timer,
                self.cpu.sound_timer == old(self).cpu.sound_timer,
                self.cpu.program_counter == old(self).cpu.program_counter,
                self.cpu.data_registers@.len() == 16,
                x == reg_x(operation.value),
                x < 16,
                base == old(self)@.index,
                base + x < MEMORY_SIZE,
                i <= x + 1,
                forall|j: int|
                    0 <= j < i ==> self.cpu.data_registers@[j] == old(self)@.ram[base + j],
                forall|j: int|
                    i <= j < 16 ==> self.cpu.data_registers@[j] == old(self)@.regs[j],
            decreases x + 1 - i,
        {
            let value = self.memory.ram[base + i];
            self.cpu.data_registers[i] = value;
            i += 1;
        }
        proof {
            assert(self@ =~= (MachineView {
                regs: regs_from_ram(
                    old(self)@.regs,
                    old(self)@.ram,
                    old(self)@.index as int,
                    reg_x(operation.value),
                ),
                ..old(self)@
            }));
        }
        Ok(())
    }

    /// Decodes and executes exactly one instruction against the machine.
    ///
    /// Dispatch is a two-level decode: the top nibble selects a family,
    /// and families 0x0, 0x8, 0xE, and 0xF decode a secondary nibble or
    /// byte. An unknown combination at either level is an
    /// `InvalidInstruction` fault, never a silent no-op: masking a
    /// malformed opcode would corrupt later state invisibly. On any fault,
    /// and while awaiting a keypress, the machine is left unchanged.
    pub fn map_operation_to_function(&mut self, operation: &Instruction) -> (r: Result<
        ExecOutcome,
        Chip8Error,
    >)
        requires
            old(self).wf(),
            old(self).cpu.program_counter + 2 <= 0xFFFF,
        ensures
            final(self).wf(),
            exists|rnd: u8| step_matches(old(self)@, final(self)@, operation.value, rnd, r),
    {
        proof {
            lemma_top_nibble(operation.value);
        }
        let ghost pre = self@;
        let op = operation.get_opcode();
        if op == 0x0 {
            if operation.value == 0x00E0 {
                self.clear_frame_buffer();
                let r: Result<ExecOutcome, Chip8Error> = Ok(ExecOutcome::Completed);
                proof {
                    assert(step_matches(pre, self@, operation.value, 0u8, r));
                }
                r
            } else if operation.value == 0x00EE {
                let r: Result<ExecOutcome, Chip8Error> = match self.return_subroutine() {
                    Ok(_) => Ok(ExecOutcome::Completed),
                    Err(e) => Err(e),
                };
                proof {
                    assert(step_matches(pre, self@, operation.value, 0u8, r));
                }
                r
            } else {
                let r: Result<ExecOutcome, Chip8Error> = Err(
                    Chip8Error::InvalidInstruction(operation.value),
                );
                proof {
                    assert(step_matches(pre, self@, operation.value, 0u8, r));
                }
                r
            }
        } else if op == 0x1 {
            self.jump(operation);
            let r: Result<ExecOutcome, Chip8Error> = Ok(ExecOutcome::Completed);
            proof {
                assert(step_matches(pre, self@, operation.value, 0u8, r));
            }
            r
        } else if op == 0x2 {
            let r: Result<ExecOutcome, Chip8Error> = match self.call(operation) {
                Ok(_) => Ok(ExecOutcome::Completed),
                Err(e) => Err(e),
            };
            proof {
                assert(step_matches(pre, self@, operation.value, 0u8, r));
            }
            r
        } else if op == 0x3 {
            self.skip_equal_immediate(operation);
            let r: Result<ExecOutcome, Chip8Error> = Ok(ExecOutcome::Completed);
            proof {
                assert(step_matches(pre, self@, operation.value, 0u8, r));
            }
            r
        } else if op == 0x4 {
            self.skip_not_equal_immediate(operation);
            let r: Result<ExecOutcome, Chip8Error> = Ok(ExecOutcome::Completed);
            proof {
                assert(step_matches(pre, self@, operation.value, 0u8, r));
            }
            r
        } else if op == 0x5 {
            self.skip_equal_register(operation);
            let r: Result<ExecOutcome, Chip8Error> = Ok(ExecOutcome::Completed);
            proof {
                assert(step_matches(pre, self@, operation.value, 0u8, r));
            }
            r
        } else if op == 0x6 {
            self.load_immediate(operation);
            let r: Result<ExecOutcome, Chip8Error> = Ok(ExecOutcome::Completed);
            proof {
                assert(step_matches(pre, self@, operation.value, 0u8, r));
            }
            r
        } else if op == 0x7 {
            self.add_immediate(operation);
            let r: Result<ExecOutcome, Chip8Error> = Ok(ExecOutcome::Completed);
            proof {
                assert(step_matches(pre, self@, operation.value, 0u8, r));
            }
            r
        } else if op == 0x8 {
            let sub = operation.value & 0x000F;
            if sub == 0x0 {
                self.move_register(operation);
                let r: Result<ExecOutcome, Chip8Error> = Ok(ExecOutcome::Completed);
                proof {
                    assert(step_matches(pre, self@, operation.value, 0u8, r));
                }
                r
            } else if sub == 0x1 {
                self.or_register(operation);
                let r: Result<ExecOutcome, Chip8Error> = Ok(ExecOutcome::Completed);
                proof {
                    assert(step_matches(pre, self@, operation.value, 0u8, r));
                }
                r
            } else if sub == 0x2 {
                self.and_register(operation);
                let r: Result<ExecOutcome, Chip8Error> = Ok(ExecOutcome::Completed);
                proof {
                    assert(step_matches(pre, self@, operation.value, 0u8, r));
                }
                r
            } else if sub == 0x3 {
                self.xor_register(operation);
                let r: Result<ExecOutcome, Chip8Error> = Ok(ExecOutcome::Completed);
                proof {
                    assert(step_matches(pre, self@, operation.value, 0u8, r));
                }
                r
            } else if sub == 0x4 {
                self.add_register(operation);
                let r: Result<ExecOutcome, Chip8Error> = Ok(ExecOutcome::Completed);
                proof {
                    assert(step_matches(pre, self@, operation.value, 0u8, r));
                }
                r
            } else if sub == 0x5 {
                self.subtract_register(operation);
                let r: Result<ExecOutcome, Chip8Error> = Ok(ExecOutcome::Completed);
                proof {
                    assert(step_matches(pre, self@, operation.value, 0u8, r));
                }
                r
            } else if sub == 0x6 {
                self.shift_right(operation);
                let r: Result<ExecOutcome, Chip8Error> = Ok(ExecOutcome::Completed);
                proof {
                    assert(step_matches(pre, self@, operation.value, 0u8, r));
                }
                r
            } else if sub == 0x7 {
                self.subtract_register_not(operation);
                let r: Result<ExecOutcome, Chip8Error> = Ok(ExecOutcome::Completed);
                proof {
                    assert(step_matches(pre, self@, operation.value, 0u8, r));
                }
                r
            } else if sub == 0xE {
                self.shift_left(operation);
                let r: Result<ExecOutcome, Chip8Error> = Ok(ExecOutcome::Completed);
                proof {
                    assert(step_matches(pre, self@, operation.value, 0u8, r));
                }
                r
            } else {
                let r: Result<ExecOutcome, Chip8Error> = Err(
                    Chip8Error::InvalidInstruction(operation.value),
                );
                proof {
                    assert(step_matches(pre, self@, operation.value, 0u8, r));
                }
                r
            }
        } else if op == 0x9 {
            self.skip_not_equal_register(operation);
            let r: Result<ExecOutcome, Chip8Error> = Ok(ExecOutcome::Completed);
            proof {
                assert(step_matches(pre, self@, operation.value, 0u8, r));
            }
            r
        } else if op == 0xA {
            self.load_address(operation);
            let r: Result<ExecOutcome, Chip8Error> = Ok(ExecOutcome::Completed);
            proof {
                assert(step_matches(pre, self@, operation.value, 0u8, r));
            }
            r
        } else if op == 0xB {
            self.jump_register(operation);
            let r: Result<ExecOutcome, Chip8Error> = Ok(ExecOutcome::Completed);
            proof {
                assert(step_matches(pre, self@, operation.value, 0u8, r));
            }
            r
        } else if op == 0xC {
            self.random(operation);
            let r: Result<ExecOutcome, Chip8Error> = Ok(ExecOutcome::Completed);
            proof {
                let b = choose|b: u8|
                    self@ == with_reg(
                        pre,
                        reg_x(operation.value),
                        b & imm_kk(operation.value),
                    );
                assert(step_matches(pre, self@, operation.value, b, r));
            }
            r
        } else if op == 0xD {
            let r: Result<ExecOutcome, Chip8Error> = match self.draw(operation) {
                Ok(_) => Ok(ExecOutcome::Completed),
                Err(e) => Err(e),
            };
            proof {
                assert(step_matches(pre, self@, operation.value, 0u8, r));
            }
            r
        } else if op == 0xE {
            let low = operation.value & 0x00FF;
            if low == 0x9E {
                self.skip_pressed(operation);
                let r: Result<ExecOutcome, Chip8Error> = Ok(ExecOutcome::Completed);
                proof {
                    assert(step_matches(pre, self@, operation.value, 0u8, r));
                }
                r
            } else if low == 0xA1 {
                self.skip_not_pressed(operation);
                let r: Result<ExecOutcome, Chip8Error> = Ok(ExecOutcome::Completed);
                proof {
                    assert(step_matches(pre, self@, operation.value, 0u8, r));
                }
                r
            } else {
                let r: Result<ExecOutcome, Chip8Error> = Err(
                    Chip8Error::InvalidInstruction(operation.value),
                );
                proof {
                    assert(step_matches(pre, self@, operation.value, 0u8, r));
                }
                r
            }
        } else if op == 0xF {
            let low = operation.value & 0x00FF;
            if low == 0x07 {
                self.load_delay(operation);
                let r: Result<ExecOutcome, Chip8Error> = Ok(ExecOutcome::Completed);
                proof {
                    assert(step_matches(pre, self@, operation.value, 0u8, r));
                }
                r
            } else if low == 0x0A {
                let outcome = self.load_keypress(operation);
                let r: Result<ExecOutcome, Chip8Error> = Ok(outcome);
                proof {
                    assert(step_matches(pre, self@, operation.value, 0u8, r));
                }
                r
            } else if low == 0x15 {
                self.store_delay(operation);
                let r: Result<ExecOutcome, Chip8Error> = Ok(ExecOutcome::Completed);
                proof {
                    assert(step_matches(pre, self@, operation.value, 0u8, r));
                }
                r
            } else if low == 0x18 {
                self.store_sound(operation);
                let r: Result<ExecOutcome, Chip8Error> = Ok(ExecOutcome::Completed);
                proof {
                    assert(step_matches(pre, self@, operation.value, 0u8, r));
                }
                r
            } else if low == 0x1E {
                let r: Result<ExecOutcome, Chip8Error> = match self.add_index(operation) {
                    Ok(_) => Ok(ExecOutcome::Completed),
                    Err(e) => Err(e),
                };
                proof {
                    assert(step_matches(pre, self@, operation.value, 0u8, r));
                }
                r
            } else if low == 0x29 {
                self.index_sprite(operation);
                let r: Result<ExecOutcome, Chip8Error> = Ok(ExecOutcome::Completed);
                proof {
                    assert(step_matches(pre, self@, operation.value, 0u8, r));
                }
                r
            } else if low == 0x33 {
                let r: Result<ExecOutcome, Chip8Error> = match self.store_bcd(operation) {
                    Ok(_) => Ok(ExecOutcome::Completed),
                    Err(e) => Err(e),
                };
                proof {
                    assert(step_matches(pre, self@, operation.value, 0u8, r));
                }
                r
            } else if low == 0x55 {
                let r: Result<ExecOutcome, Chip8Error> = match self.store_registers(operation) {
                    Ok(_) => Ok(ExecOutcome::Completed),
                    Err(e) => Err(e),
                };
                proof {
                    assert(step_matches(pre, self@, operation.value, 0u8, r));
                }
                r
            } else if low == 0x65 {
                let r: Result<ExecOutcome, Chip8Error> = match self.load_registers(operation) {
                    Ok(_) => Ok(ExecOutcome::Completed),
                    Err(e) => Err(e),
                };
                proof {
                    assert(step_matches(pre, self@, operation.value, 0u8, r));
                }
                r
            } else {
                let r: Result<ExecOutcome, Chip8Error> = Err(
                    Chip8Error::InvalidInstruction(operation.value),
                );
                proof {
                    assert(step_matches(pre, self@, operation.value, 0u8, r));
                }
                r
            }
        } else {
            let r: Result<ExecOutcome, Chip8Error> = Err(
                Chip8Error::InvalidInstruction(operation.value),
            );
            proof {
                assert(step_matches(pre, self@, operation.value, 0u8, r));
            }
            r
        }
    }

    /// One whole fetch-decode-execute cycle: reads the two bytes at the
    /// program counter, advances the counter by 2, and dispatches the
    /// instruction. On success the executed instruction comes back with
    /// how it concluded; a fetch outside memory, and every fault raised by
    /// the instruction itself, comes back as the error, with the machine
    /// exactly as it was before the cycle. While awaiting a keypress the
    /// machine is likewise left unchanged, so the host can feed a key and
    /// call `tick` again.
    ///
    /// Timers are not touched here: `decrement_timers` is its own entry
    /// point, paced separately by the host.
    pub fn tick(&mut self) -> (r: Result<(Instruction, ExecOutcome), Chip8Error>)
        requires
            old(self).wf(),
        ensures
            final(self).wf(),
            exists|rnd: u8| tick_matches(old(self)@, final(self)@, rnd, r),
    {
        let pc = self.cpu.program_counter;
        if pc as usize + 1 >= MEMORY_SIZE {
            let r: Result<(Instruction, ExecOutcome), Chip8Error> = Err(
                Chip8Error::MemoryOutOfRange,
            );
            proof {
                assert(tick_matches(old(self)@, self@, 0u8, r));
            }
            return r;
        }
        let value = self.memory.read_instruction(pc);
        let instruction = Instruction::new(value);
        self.cpu.program_counter = pc + 2;
        let ghost mid = self@;
        proof {
            assert(mid =~= (MachineView { pc: (old(self)@.pc + 2) as u16, ..old(self)@ }));
        }
        let outcome = self.map_operation_to_function(&instruction);
        proof {
            assert(instruction.value == crate::semantics::fetch_instr(old(self)@.ram, old(self)@.pc));
        }
        match outcome {
            Ok(ExecOutcome::Completed) => {
                let r: Result<(Instruction, ExecOutcome), Chip8Error> = Ok(
                    (instruction, ExecOutcome::Completed),
                );
                proof {
                    let rnd = choose|rnd: u8|
                        step_matches(mid, self@, instruction.value, rnd, outcome);
                    assert(tick_matches(old(self)@, self@, rnd, r));
                }
                r
            },
            Ok(ExecOutcome::AwaitingKey) => {
                self.cpu.program_counter = pc;
                let r: Result<(Instruction, ExecOutcome), Chip8Error> = Ok(
                    (instruction, ExecOutcome::AwaitingKey),
                );
                proof {
                    let rnd = choose|rnd: u8|
                        step_matches(mid, mid, instruction.value, rnd, outcome);
                    assert(self@ =~= old(self)@);
                    assert(tick_matches(old(self)@, self@, rnd, r));
                }
                r
            },
            Err(e) => {
                self.cpu.program_counter = pc;
                let r: Result<(Instruction, ExecOutcome), Chip8Error> = Err(e);
                proof {
                    let rnd = choose|rnd: u8|
                        step_matches(mid, mid, instruction.value, rnd, outcome);
                    assert(self@ =~= old(self)@);
                    assert(tick_matches(old(self)@, self@, rnd, r));
                }
                r
            },
        }
    }
}

/// A word whose top nibble is nonzero is neither of the two 0x0-family
/// instructions.
proof fn lemma_top_nibble(instr: u16)
    by (bit_vector)
    ensures
        instr >> 12 != 0 ==> instr != 0x00E0 && instr != 0x00EE,
{
}

} // verus!
