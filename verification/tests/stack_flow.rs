use chip8::computer::Chip8Computer;
use chip8::Chip8Error;
use chip8::instruction::Instruction;

#[test]
fn stack_is_last_in_first_out_over_all_16_entries() {
    let mut computer = Chip8Computer::new();
    let addresses: Vec<u16> = (0..16).map(|i| 0x200 + 2 * i as u16).collect();
    for address in &addresses {
        computer.cpu.push_stack(*address, &mut computer.memory).unwrap();
    }
    assert_eq!(computer.cpu.stack_pointer, 16);
    // A 17th push is fatal.
    assert_eq!(
        computer.cpu.push_stack(0xBEEF, &mut computer.memory),
        Err(Chip8Error::StackOverflow)
    );
    assert_eq!(computer.cpu.stack_pointer, 16);
    // Popping 16 times yields the addresses in exact reverse order.
    for address in addresses.iter().rev() {
        assert_eq!(computer.cpu.pop_stack(&mut computer.memory), Ok(*address));
    }
    assert_eq!(computer.cpu.stack_pointer, 0);
    // Popping from empty is fatal.
    assert_eq!(
        computer.cpu.pop_stack(&mut computer.memory),
        Err(Chip8Error::StackUnderflow)
    );
}

#[test]
fn call_pushes_and_return_pops() {
    let mut computer = Chip8Computer::new();
    computer.cpu.program_counter = 0x202;
    computer.call(&Instruction::new(0x2400)).unwrap();
    assert_eq!(computer.cpu.program_counter, 0x400);
    assert_eq!(computer.cpu.stack_pointer, 1);
    assert_eq!(computer.memory.get_stack()[0], 0x202);
    computer.return_subroutine().unwrap();
    assert_eq!(computer.cpu.program_counter, 0x202);
    assert_eq!(computer.cpu.stack_pointer, 0);
}

#[test]
fn return_with_empty_stack_is_fatal() {
    let mut computer = Chip8Computer::new();
    assert_eq!(computer.return_subroutine(), Err(Chip8Error::StackUnderflow));
}

#[test]
fn call_with_full_stack_is_fatal() {
    let mut computer = Chip8Computer::new();
    for _ in 0..16 {
        computer.call(&Instruction::new(0x2300)).unwrap();
    }
    assert_eq!(
        computer.call(&Instruction::new(0x2300)),
        Err(Chip8Error::StackOverflow)
    );
}

#[test]
fn jump_sets_the_program_counter() {
    let mut computer = Chip8Computer::new();
    computer.jump(&Instruction::new(0x1ABC));
    assert_eq!(computer.cpu.program_counter, 0xABC);
}

#[test]
fn jump_with_offset_adds_v0() {
    let mut computer = Chip8Computer::new();
    computer.cpu.data_registers[0] = 0x10;
    computer.jump_register(&Instruction::new(0xB300));
    assert_eq!(computer.cpu.program_counter, 0x310);
}

#[test]
fn conditional_skips() {
    let mut computer = Chip8Computer::new();
    computer.cpu.data_registers[1] = 0x42;

    computer.cpu.program_counter = 0x200;
    computer.skip_equal_immediate(&Instruction::new(0x3142));
    assert_eq!(computer.cpu.program_counter, 0x202);
    computer.skip_equal_immediate(&Instruction::new(0x3143));
    assert_eq!(computer.cpu.program_counter, 0x202);

    computer.skip_not_equal_immediate(&Instruction::new(0x4143));
    assert_eq!(computer.cpu.program_counter, 0x204);
    computer.skip_not_equal_immediate(&Instruction::new(0x4142));
    assert_eq!(computer.cpu.program_counter, 0x204);

    computer.cpu.data_registers[2] = 0x42;
    computer.skip_equal_register(&Instruction::new(0x5120));
    assert_eq!(computer.cpu.program_counter, 0x206);
    computer.cpu.data_registers[2] = 0x43;
    computer.skip_equal_register(&Instruction::new(0x5120));
    assert_eq!(computer.cpu.program_counter, 0x206);

    computer.skip_not_equal_register(&Instruction::new(0x9120));
    assert_eq!(computer.cpu.program_counter, 0x208);
    computer.cpu.data_registers[2] = 0x42;
    computer.skip_not_equal_register(&Instruction::new(0x9120));
    assert_eq!(computer.cpu.program_counter, 0x208);
}

#[test]
fn key_skips_follow_the_input_state() {
    let mut computer = Chip8Computer::new();
    computer.cpu.data_registers[1] = 0x5;
    computer.input.press_key(0x5);

    computer.skip_pressed(&Instruction::new(0xE19E));
    assert_eq!(computer.cpu.program_counter, 0x202);
    computer.skip_not_pressed(&Instruction::new(0xE1A1));
    assert_eq!(computer.cpu.program_counter, 0x202);

    computer.input.release_key(0x5);
    computer.skip_pressed(&Instruction::new(0xE19E));
    assert_eq!(computer.cpu.program_counter, 0x202);
    computer.skip_not_pressed(&Instruction::new(0xE1A1));
    assert_eq!(computer.cpu.program_counter, 0x204);
}

#[test]
fn check_pressed_reads_the_low_nibble_of_the_key_value() {
    let mut computer = Chip8Computer::new();
    computer.input.press_key(0x3);
    assert!(computer.input.check_pressed(0x03));
    // Only the low nibble names the key.
    assert!(computer.input.check_pressed(0xF3));
    assert!(!computer.input.check_pressed(0x04));
}
