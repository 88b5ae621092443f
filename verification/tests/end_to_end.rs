use chip8::computer::Chip8Computer;
use chip8::{Chip8Error, ExecOutcome};

#[test]
fn clear_screen_rom_runs_one_cycle() {
    // A ROM of the two bytes 0x00 0xE0 (clear screen) as the sole
    // instruction: after one cycle the framebuffer is all zero and the
    // program counter sits at 0x202.
    let mut computer = Chip8Computer::new();
    computer.frame_buffer.draw_sprite(3, 3, vec![0xFF]);
    computer.load_rom(vec![0x00, 0xE0]);
    let (instruction, outcome) = computer.tick().unwrap();
    assert_eq!(instruction.value, 0x00E0);
    assert_eq!(outcome, ExecOutcome::Completed);
    assert!(computer.frame_buffer.get_frame_buffer().iter().all(|row| *row == 0));
    assert_eq!(computer.cpu.program_counter, 0x202);
}

#[test]
fn a_small_program_steps_through() {
    // 0x6105: V1 = 5; 0x7103: V1 += 3; 0x8120 after V2 set: V1 = V2.
    let mut computer = Chip8Computer::new();
    computer.load_rom(vec![0x61, 0x05, 0x71, 0x03, 0x62, 0x20, 0x81, 0x20]);
    computer.tick().unwrap();
    assert_eq!(computer.cpu.data_registers[1], 5);
    computer.tick().unwrap();
    assert_eq!(computer.cpu.data_registers[1], 8);
    computer.tick().unwrap();
    computer.tick().unwrap();
    assert_eq!(computer.cpu.data_registers[1], 0x20);
    assert_eq!(computer.cpu.program_counter, 0x208);
}

#[test]
fn unknown_opcode_is_a_decode_failure_with_the_raw_value() {
    // 0x8xy9 is outside the opcode table.
    let mut computer = Chip8Computer::new();
    computer.load_rom(vec![0x81, 0x29]);
    assert_eq!(computer.tick(), Err(Chip8Error::InvalidInstruction(0x8129)));
    // The machine is left as it was for diagnosis.
    assert_eq!(computer.cpu.program_counter, 0x200);
}

#[test]
fn sys_addr_is_not_implemented() {
    let mut computer = Chip8Computer::new();
    computer.load_rom(vec![0x01, 0x23]);
    assert_eq!(computer.tick(), Err(Chip8Error::InvalidInstruction(0x0123)));
}

#[test]
fn unknown_secondary_decodes_fail() {
    for rom in [[0xE1u8, 0x9F], [0xF1, 0x99]] {
        let mut computer = Chip8Computer::new();
        computer.load_rom(rom.to_vec());
        let value = ((rom[0] as u16) << 8) | rom[1] as u16;
        assert_eq!(computer.tick(), Err(Chip8Error::InvalidInstruction(value)));
    }
}

#[test]
fn return_on_empty_stack_faults_the_rom() {
    let mut computer = Chip8Computer::new();
    computer.load_rom(vec![0x00, 0xEE]);
    assert_eq!(computer.tick(), Err(Chip8Error::StackUnderflow));
    assert_eq!(computer.cpu.program_counter, 0x200);
}

#[test]
fn fetch_outside_memory_is_fatal() {
    let mut computer = Chip8Computer::new();
    computer.cpu.program_counter = 4095;
    assert_eq!(computer.tick(), Err(Chip8Error::MemoryOutOfRange));
    assert_eq!(computer.cpu.program_counter, 4095);
}

#[test]
fn await_keypress_suspends_until_the_host_feeds_a_key() {
    // 0xF30A: V3 = next keypress.
    let mut computer = Chip8Computer::new();
    computer.load_rom(vec![0xF3, 0x0A]);

    // No key pending: the machine reports the suspension and nothing
    // advances, not even the program counter.
    let (instruction, outcome) = computer.tick().unwrap();
    assert_eq!(instruction.value, 0xF30A);
    assert_eq!(outcome, ExecOutcome::AwaitingKey);
    assert_eq!(computer.cpu.program_counter, 0x200);
    assert_eq!(computer.cpu.data_registers[3], 0);

    // The host feeds a key; the same instruction now completes.
    computer.input.provide_keypress(0xB);
    let (_, outcome) = computer.tick().unwrap();
    assert_eq!(outcome, ExecOutcome::Completed);
    assert_eq!(computer.cpu.data_registers[3], 0xB);
    assert_eq!(computer.cpu.program_counter, 0x202);

    // The event was consumed.
    assert_eq!(computer.input.pending_key, None);
}

#[test]
fn call_and_return_through_the_dispatcher() {
    // 0x2206: call 0x206; at 0x206: 0x00EE return.
    let mut computer = Chip8Computer::new();
    computer.load_rom(vec![0x22, 0x06, 0x00, 0x00, 0x00, 0x00, 0x00, 0xEE]);
    computer.tick().unwrap();
    assert_eq!(computer.cpu.program_counter, 0x206);
    computer.tick().unwrap();
    assert_eq!(computer.cpu.program_counter, 0x202);
    assert_eq!(computer.cpu.stack_pointer, 0);
}

#[test]
fn skip_instruction_through_the_dispatcher() {
    // 0x3100: skip next if V1 == 0 - it is, so the next instruction
    // (which would fault) is skipped; then 0x6207 runs.
    let mut computer = Chip8Computer::new();
    computer.load_rom(vec![0x31, 0x00, 0xFF, 0xFF, 0x62, 0x07]);
    computer.tick().unwrap();
    assert_eq!(computer.cpu.program_counter, 0x204);
    computer.tick().unwrap();
    assert_eq!(computer.cpu.data_registers[2], 7);
}

#[test]
fn draw_through_the_dispatcher_sets_the_collision_flag() {
    // 0xA000: I = 0 (font glyph '0'); 0xD015: draw 5 rows at (V0, V1);
    // then again: everything erased, VF = 1.
    let mut computer = Chip8Computer::new();
    computer.load_rom(vec![0xA0, 0x00, 0xD0, 0x15, 0xD0, 0x15]);
    computer.tick().unwrap();
    computer.tick().unwrap();
    assert_eq!(computer.cpu.data_registers[0xF], 0);
    assert_ne!(computer.frame_buffer.get_frame_buffer()[0], 0);
    computer.tick().unwrap();
    assert_eq!(computer.cpu.data_registers[0xF], 1);
    assert!(computer.frame_buffer.get_frame_buffer().iter().all(|row| *row == 0));
}

#[test]
fn random_through_the_dispatcher_respects_the_mask() {
    let mut computer = Chip8Computer::new();
    computer.load_rom(vec![0xC1, 0x0F]);
    computer.tick().unwrap();
    assert_eq!(computer.cpu.data_registers[1] & 0xF0, 0);
}
