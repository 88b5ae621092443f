//! The mathematical model of the machine and of one execution step.
//!
//! `MachineView` is the ghost image of the whole machine; `spec_step` maps
//! a machine state and one 16-bit instruction word to the resulting state,
//! an awaiting-input suspension, or a fault. The dispatcher and `tick` are
//! verified against these functions, so the opcode table of the ISA is
//! written down here exactly once.

use vstd::prelude::*;

use crate::frame_buffer::{draw_collides, fb_after_draw, FB_ROWS};
use crate::input::spec_key_down;
use crate::instruction::{addr_nnn, imm_kk, imm_n, reg_x, reg_y, Instruction};
use crate::memory::MEMORY_SIZE;
use crate::Chip8Error;
use crate::ExecOutcome;

verus! {

/// The ghost image of a whole machine: registers, index register, program
/// counter, stack pointer and stack storage, timers, memory, framebuffer
/// rows, and the input model.
#[verifier::ext_equal]
pub ghost struct MachineView {
    pub regs: Seq<u8>,
    pub index: u16,
    pub pc: u16,
    pub sp: u8,
    pub stack: Seq<u16>,
    pub delay: u8,
    pub sound: u8,
    pub ram: Seq<u8>,
    pub fb: Seq<u64>,
    pub keys: u16,
    pub pending_key: Option<u8>,
}

impl MachineView {
    /// Fixed sizes of all machine components, the stack pointer within the
    /// 16-entry stack, and a pending keypress naming one of the 16 keys.
    pub open spec fn wf(&self) -> bool {
        &&& self.regs.len() == 16
        &&& self.stack.len() == 16
        &&& self.ram.len() == MEMORY_SIZE
        &&& self.fb.len() == FB_ROWS
        &&& self.sp <= 16
        &&& match self.pending_key {
            Some(k) => k < 16,
            None => true,
        }
    }
}

/// What one dispatched instruction does to the machine.
pub ghost enum StepSpec {
    /// The instruction completes, leaving this state.
    Next(MachineView),
    /// The instruction is `await-keypress` with no event pending: the
    /// machine stays as it is.
    AwaitKey,
    /// The instruction faults: the machine stays as it is and the fault is
    /// surfaced.
    Fault(Chip8Error),
}

/// The machine with register `x` set to `v`.
pub open spec fn with_reg(m: MachineView, x: int, v: u8) -> MachineView {
    MachineView { regs: m.regs.update(x, v), ..m }
}

/// The machine with the flag register VF set to `v`. Flag writes happen
/// after the primary result write, so an operation whose X is VF ends up
/// holding the flag.
pub open spec fn with_flag(m: MachineView, v: u8) -> MachineView {
    with_reg(m, 0xF, v)
}

/// The machine with the program counter advanced over one instruction when
/// `cond` holds.
pub open spec fn with_skip(m: MachineView, cond: bool) -> MachineView {
    if cond {
        MachineView { pc: (m.pc + 2) as u16, ..m }
    } else {
        m
    }
}

/// 8-bit subtraction `a - b` modulo 256.
pub open spec fn sub_wrap(a: u8, b: u8) -> u8 {
    (((a - b) + 256) % 256) as u8
}

/// Memory with registers `0..=x` written at `base`.
pub open spec fn ram_with_regs(ram: Seq<u8>, base: int, regs: Seq<u8>, x: int) -> Seq<u8> {
    Seq::new(
        ram.len(),
        |i: int|
            if base <= i <= base + x {
                regs[i - base]
            } else {
                ram[i]
            },
    )
}

/// Registers with `0..=x` loaded from memory at `base`.
pub open spec fn regs_from_ram(regs: Seq<u8>, ram: Seq<u8>, base: int, x: int) -> Seq<u8> {
    Seq::new(
        regs.len(),
        |i: int|
            if 0 <= i <= x {
                ram[base + i]
            } else {
                regs[i]
            },
    )
}

/// The big-endian 16-bit instruction word at `pc`.
pub open spec fn fetch_instr(ram: Seq<u8>, pc: u16) -> u16 {
    (ram[pc as int] * 256 + ram[pc as int + 1]) as u16
}

/// The effect of executing one decoded instruction `instr` on machine
/// state `pre`; `rnd` stands for the byte the `random` instruction drew.
///
/// This is the authoritative opcode table: a two-level decode (the top
/// nibble, then for families 0x0, 0x8, 0xE, and 0xF a secondary nibble or
/// byte) selecting one of the 35 operations, with every unknown
/// combination an `InvalidInstruction` fault.
pub open spec fn spec_step(pre: MachineView, instr: u16, rnd: u8) -> StepSpec {
    let op = instr >> 12;
    let x = reg_x(instr);
    let y = reg_y(instr);
    let kk = imm_kk(instr);
    let nnn = addr_nnn(instr);
    let n = imm_n(instr);
    let vx = pre.regs[x];
    let vy = pre.regs[y];
    if instr == 0x00E0 {
        // clear-screen
        StepSpec::Next(MachineView { fb: Seq::new(FB_ROWS as nat, |r: int| 0u64), ..pre })
    } else if instr == 0x00EE {
        // return
        if pre.sp == 0 {
            StepSpec::Fault(Chip8Error::StackUnderflow)
        } else {
            StepSpec::Next(
                MachineView { pc: pre.stack[pre.sp - 1], sp: (pre.sp - 1) as u8, ..pre },
            )
        }
    } else if op == 0x0 {
        StepSpec::Fault(Chip8Error::InvalidInstruction(instr))
    } else if op == 0x1 {
        // jump
        StepSpec::Next(MachineView { pc: nnn, ..pre })
    } else if op == 0x2 {
        // call
        if pre.sp >= 16 {
            StepSpec::Fault(Chip8Error::StackOverflow)
        } else {
            StepSpec::Next(
                MachineView {
                    stack: pre.stack.update(pre.sp as int, pre.pc),
                    sp: (pre.sp + 1) as u8,
                    pc: nnn,
                    ..pre
                },
            )
        }
    } else if op == 0x3 {
        // skip-if-equal-immediate
        StepSpec::Next(with_skip(pre, vx == kk))
    } else if op == 0x4 {
        // skip-if-not-equal-immediate
        StepSpec::Next(with_skip(pre, vx != kk))
    } else if op == 0x5 {
        // skip-if-registers-equal
        StepSpec::Next(with_skip(pre, vx == vy))
    } else if op == 0x6 {
        // load-immediate
        StepSpec::Next(with_reg(pre, x, kk))
    } else if op == 0x7 {
        // add-immediate: wraps silently, never touches VF
        StepSpec::Next(with_reg(pre, x, ((vx + kk) % 256) as u8))
    } else if op == 0x8 {
        let sub = instr & 0xF;
        if sub == 0x0 {
            // move
            StepSpec::Next(with_reg(pre, x, vy))
        } else if sub == 0x1 {
            // or
            StepSpec::Next(with_reg(pre, x, vx | vy))
        } else if sub == 0x2 {
            // and
            StepSpec::Next(with_reg(pre, x, vx & vy))
        } else if sub == 0x3 {
            // xor
            StepSpec::Next(with_reg(pre, x, vx ^ vy))
        } else if sub == 0x4 {
            // add-registers: VF is the carry
            StepSpec::Next(
                with_flag(
                    with_reg(pre, x, ((vx + vy) % 256) as u8),
                    if vx + vy >= 256 {
                        1u8
                    } else {
                        0u8
                    },
                ),
            )
        } else if sub == 0x5 {
            // sub (X-Y): VF = 1 exactly when no borrow occurred
            StepSpec::Next(
                with_flag(
                    with_reg(pre, x, sub_wrap(vx, vy)),
                    if vx >= vy {
                        1u8
                    } else {
                        0u8
                    },
                ),
            )
        } else if sub == 0x6 {
            // shift-right: VF is the bit shifted out of Y
            StepSpec::Next(with_flag(with_reg(pre, x, vy >> 1), vy & 1))
        } else if sub == 0x7 {
            // subn (Y-X): same inverted-borrow flag convention
            StepSpec::Next(
                with_flag(
                    with_reg(pre, x, sub_wrap(vy, vx)),
                    if vy >= vx {
                        1u8
                    } else {
                        0u8
                    },
                ),
            )
        } else if sub == 0xE {
            // shift-left: VF is the bit shifted out of Y
            StepSpec::Next(with_flag(with_reg(pre, x, ((2 * vy) % 256) as u8), vy >> 7))
        } else {
            StepSpec::Fault(Chip8Error::InvalidInstruction(instr))
        }
    } else if op == 0x9 {
        // skip-if-registers-not-equal
        StepSpec::Next(with_skip(pre, vx != vy))
    } else if op == 0xA {
        // load-index
        StepSpec::Next(MachineView { index: nnn, ..pre })
    } else if op == 0xB {
        // jump-with-offset
        StepSpec::Next(MachineView { pc: (nnn + pre.regs[0]) as u16, ..pre })
    } else if op == 0xC {
        // random
        StepSpec::Next(with_reg(pre, x, rnd & kk))
    } else if op == 0xD {
        // draw-sprite
        if pre.index + n > MEMORY_SIZE {
            StepSpec::Fault(Chip8Error::MemoryOutOfRange)
        } else {
            let sprite = pre.ram.subrange(pre.index as int, pre.index + n);
            StepSpec::Next(
                MachineView {
                    fb: fb_after_draw(pre.fb, vx, vy, sprite),
                    regs: pre.regs.update(
                        0xF,
                        if draw_collides(pre.fb, vx, vy, sprite) {
                            1u8
                        } else {
                            0u8
                        },
                    ),
                    ..pre
                },
            )
        }
    } else if op == 0xE {
        let low = instr & 0xFF;
        if low == 0x9E {
            // skip-if-key-pressed
            StepSpec::Next(with_skip(pre, spec_key_down(pre.keys, vx)))
        } else if low == 0xA1 {
            // skip-if-key-not-pressed
            StepSpec::Next(with_skip(pre, !spec_key_down(pre.keys, vx)))
        } else {
            StepSpec::Fault(Chip8Error::InvalidInstruction(instr))
        }
    } else if op == 0xF {
        let low = instr & 0xFF;
        if low == 0x07 {
            // load-delay-timer
            StepSpec::Next(with_reg(pre, x, pre.delay))
        } else if low == 0x0A {
            // await-keypress
            match pre.pending_key {
                Some(k) => StepSpec::Next(
                    MachineView { pending_key: None, ..with_reg(pre, x, k) },
                ),
                None => StepSpec::AwaitKey,
            }
        } else if low == 0x15 {
            // set-delay-timer
            StepSpec::Next(MachineView { delay: vx, ..pre })
        } else if low == 0x18 {
            // set-sound-timer
            StepSpec::Next(MachineView { sound: vx, ..pre })
        } else if low == 0x1E {
            // add-to-index: fatal when the sum leaves the address space
            if pre.index + vx >= MEMORY_SIZE {
                StepSpec::Fault(Chip8Error::MemoryOutOfRange)
            } else {
                StepSpec::Next(MachineView { index: (pre.index + vx) as u16, ..pre })
            }
        } else if low == 0x29 {
            // font-character-address: glyph for digit VX sits at VX * 5
            StepSpec::Next(MachineView { index: (vx * 5) as u16, ..pre })
        } else if low == 0x33 {
            // store-bcd
            if pre.index + 2 >= MEMORY_SIZE {
                StepSpec::Fault(Chip8Error::MemoryOutOfRange)
            } else {
                StepSpec::Next(
                    MachineView {
                        ram: pre.ram.update(pre.index as int, (vx / 100) as u8).update(
                            pre.index + 1,
                            ((vx / 10) % 10) as u8,
                        ).update(pre.index + 2, (vx % 10) as u8),
                        ..pre
                    },
                )
            }
        } else if low == 0x55 {
            // store-registers-range
            if pre.index + x >= MEMORY_SIZE {
                StepSpec::Fault(Chip8Error::MemoryOutOfRange)
            } else {
                StepSpec::Next(
                    MachineView { ram: ram_with_regs(pre.ram, pre.index as int, pre.regs, x), ..pre },
                )
            }
        } else if low == 0x65 {
            // load-registers-range
            if pre.index + x >= MEMORY_SIZE {
                StepSpec::Fault(Chip8Error::MemoryOutOfRange)
            } else {
                StepSpec::Next(
                    MachineView { regs: regs_from_ram(pre.regs, pre.ram, pre.index as int, x), ..pre },
                )
            }
        } else {
            StepSpec::Fault(Chip8Error::InvalidInstruction(instr))
        }
    } else {
        StepSpec::Fault(Chip8Error::InvalidInstruction(instr))
    }
}

/// Round trip of the register-range instructions: storing V0..=VX to
/// memory at the index register and then loading the same range back -
/// even into a register file that was overwritten in between - reproduces
/// the original V0..=VX values exactly.
///
/// `ram_with_regs` and `regs_from_ram` are the transforms that the
/// `store-registers-range` and `load-registers-range` instructions are
/// proved to apply.
pub proof fn lemma_store_load_registers_roundtrip(m: MachineView, x: int, overwritten: Seq<u8>)
    requires
        m.wf(),
        0 <= x < 16,
        m.index + x < MEMORY_SIZE,
        overwritten.len() == 16,
    ensures
        forall|i: int|
            0 <= i <= x ==> regs_from_ram(
                overwritten,
                ram_with_regs(m.ram, m.index as int, m.regs, x),
                m.index as int,
                x,
            )[i] == m.regs[i],
{
}

/// Relates the machine states around one dispatched instruction to the
/// dispatcher's result: the state advances exactly as `spec_step` says,
/// and on a suspension or a fault nothing changes.
pub open spec fn step_matches(
    pre: MachineView,
    post: MachineView,
    instr: u16,
    rnd: u8,
    r: Result<ExecOutcome, Chip8Error>,
) -> bool {
    match spec_step(pre, instr, rnd) {
        StepSpec::Next(m) => r == Ok::<ExecOutcome, Chip8Error>(ExecOutcome::Completed) && post
            == m,
        StepSpec::AwaitKey => r == Ok::<ExecOutcome, Chip8Error>(ExecOutcome::AwaitingKey) && post
            == pre,
        StepSpec::Fault(e) => r == Err::<ExecOutcome, Chip8Error>(e) && post == pre,
    }
}

/// The effect of one whole fetch-decode-execute cycle: fetch the word at
/// the program counter, advance the counter by 2, then execute. A fetch
/// outside memory is a fault; on a suspension or a fault the machine is
/// left exactly as it started.
pub open spec fn spec_tick(pre: MachineView, rnd: u8) -> StepSpec {
    if pre.pc + 1 >= MEMORY_SIZE {
        StepSpec::Fault(Chip8Error::MemoryOutOfRange)
    } else {
        let instr = fetch_instr(pre.ram, pre.pc);
        spec_step(MachineView { pc: (pre.pc + 2) as u16, ..pre }, instr, rnd)
    }
}

/// Relates the machine states around one `tick` to its result.
pub open spec fn tick_matches(
    pre: MachineView,
    post: MachineView,
    rnd: u8,
    r: Result<(Instruction, ExecOutcome), Chip8Error>,
) -> bool {
    if pre.pc + 1 >= MEMORY_SIZE {
        r == Err::<(Instruction, ExecOutcome), Chip8Error>(Chip8Error::MemoryOutOfRange) && post
            == pre
    } else {
        let instruction = Instruction { value: fetch_instr(pre.ram, pre.pc) };
        match spec_tick(pre, rnd) {
            StepSpec::Next(m) => r == Ok::<(Instruction, ExecOutcome), Chip8Error>(
                (instruction, ExecOutcome::Completed),
            ) && post == m,
            StepSpec::AwaitKey => r == Ok::<(Instruction, ExecOutcome), Chip8Error>(
                (instruction, ExecOutcome::AwaitingKey),
            ) && post == pre,
            StepSpec::Fault(e) => r == Err::<(Instruction, ExecOutcome), Chip8Error>(e) && post
                == pre,
        }
    }
}

} // verus!
