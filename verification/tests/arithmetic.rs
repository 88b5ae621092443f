use chip8::computer::Chip8Computer;
use chip8::instruction::Instruction;

fn machine() -> Chip8Computer {
    Chip8Computer::new()
}

#[test]
fn add_registers_without_carry() {
    let mut computer = machine();
    computer.cpu.data_registers[1] = 100;
    computer.cpu.data_registers[2] = 55;
    computer.add_register(&Instruction::new(0x8124));
    assert_eq!(computer.cpu.data_registers[1], 155);
    assert_eq!(computer.cpu.data_registers[0xF], 0);
}

#[test]
fn add_registers_with_carry_wraps_modulo_256() {
    let mut computer = machine();
    computer.cpu.data_registers[1] = 200;
    computer.cpu.data_registers[2] = 100;
    computer.add_register(&Instruction::new(0x8124));
    assert_eq!(computer.cpu.data_registers[1], ((200 + 100) % 256) as u8);
    assert_eq!(computer.cpu.data_registers[0xF], 1);
}

#[test]
fn add_registers_exact_boundary() {
    // 255 + 1 = 256: result 0, carry set.
    let mut computer = machine();
    computer.cpu.data_registers[3] = 255;
    computer.cpu.data_registers[4] = 1;
    computer.add_register(&Instruction::new(0x8344));
    assert_eq!(computer.cpu.data_registers[3], 0);
    assert_eq!(computer.cpu.data_registers[0xF], 1);
}

#[test]
fn subtract_without_borrow_sets_flag() {
    // VF = 1 means no borrow: the ISA's inverted polarity.
    let mut computer = machine();
    computer.cpu.data_registers[1] = 55;
    computer.cpu.data_registers[2] = 22;
    computer.subtract_register(&Instruction::new(0x8125));
    assert_eq!(computer.cpu.data_registers[1], 33);
    assert_eq!(computer.cpu.data_registers[0xF], 1);
}

#[test]
fn subtract_with_borrow_clears_flag() {
    let mut computer = machine();
    computer.cpu.data_registers[1] = 22;
    computer.cpu.data_registers[2] = 55;
    computer.subtract_register(&Instruction::new(0x8125));
    assert_eq!(computer.cpu.data_registers[1], (22i32 - 55).rem_euclid(256) as u8);
    assert_eq!(computer.cpu.data_registers[0xF], 0);
}

#[test]
fn subtract_equal_values_counts_as_no_borrow() {
    let mut computer = machine();
    computer.cpu.data_registers[1] = 7;
    computer.cpu.data_registers[2] = 7;
    computer.subtract_register(&Instruction::new(0x8125));
    assert_eq!(computer.cpu.data_registers[1], 0);
    assert_eq!(computer.cpu.data_registers[0xF], 1);
}

#[test]
fn subtract_not_reverses_operands() {
    let mut computer = machine();
    computer.cpu.data_registers[1] = 22;
    computer.cpu.data_registers[2] = 55;
    computer.subtract_register_not(&Instruction::new(0x8127));
    assert_eq!(computer.cpu.data_registers[1], 33);
    assert_eq!(computer.cpu.data_registers[0xF], 1);
}

#[test]
fn shift_right_takes_source_from_second_register() {
    // result = v >> 1, VF = v & 1
    let mut computer = machine();
    computer.cpu.data_registers[2] = 0b1010_0101;
    computer.shift_right(&Instruction::new(0x8126));
    assert_eq!(computer.cpu.data_registers[1], 0b0101_0010);
    assert_eq!(computer.cpu.data_registers[0xF], 1);

    computer.cpu.data_registers[2] = 0b0000_0100;
    computer.shift_right(&Instruction::new(0x8126));
    assert_eq!(computer.cpu.data_registers[1], 0b0000_0010);
    assert_eq!(computer.cpu.data_registers[0xF], 0);
}

#[test]
fn shift_left_wraps_and_reports_top_bit() {
    // result = (v << 1) mod 256, VF = (v >> 7) & 1
    let mut computer = machine();
    computer.cpu.data_registers[2] = 0b1010_0101;
    computer.shift_left(&Instruction::new(0x812E));
    assert_eq!(computer.cpu.data_registers[1], 0b0100_1010);
    assert_eq!(computer.cpu.data_registers[0xF], 1);

    computer.cpu.data_registers[2] = 0b0010_0101;
    computer.shift_left(&Instruction::new(0x812E));
    assert_eq!(computer.cpu.data_registers[1], 0b0100_1010);
    assert_eq!(computer.cpu.data_registers[0xF], 0);
}

#[test]
fn add_immediate_wraps_without_touching_flag() {
    let mut computer = machine();
    computer.cpu.data_registers[5] = 250;
    computer.cpu.data_registers[0xF] = 9;
    computer.add_immediate(&Instruction::new(0x750A));
    assert_eq!(computer.cpu.data_registers[5], 4);
    assert_eq!(computer.cpu.data_registers[0xF], 9);
}

#[test]
fn load_and_move() {
    let mut computer = machine();
    computer.load_immediate(&Instruction::new(0x63AB));
    assert_eq!(computer.cpu.data_registers[3], 0xAB);
    computer.move_register(&Instruction::new(0x8430));
    assert_eq!(computer.cpu.data_registers[4], 0xAB);
}

#[test]
fn bitwise_operations() {
    let mut computer = machine();
    computer.cpu.data_registers[1] = 0b1100;
    computer.cpu.data_registers[2] = 0b1010;
    computer.or_register(&Instruction::new(0x8121));
    assert_eq!(computer.cpu.data_registers[1], 0b1110);

    computer.cpu.data_registers[1] = 0b1100;
    computer.and_register(&Instruction::new(0x8122));
    assert_eq!(computer.cpu.data_registers[1], 0b1000);

    computer.cpu.data_registers[1] = 0b1100;
    computer.xor_register(&Instruction::new(0x8123));
    assert_eq!(computer.cpu.data_registers[1], 0b0110);
}

#[test]
fn flag_register_as_target_ends_up_holding_the_flag() {
    // X == 0xF: the flag write follows the result write.
    let mut computer = machine();
    computer.cpu.data_registers[0xF] = 200;
    computer.cpu.data_registers[2] = 100;
    computer.add_register(&Instruction::new(0x8F24));
    assert_eq!(computer.cpu.data_registers[0xF], 1);
}

#[test]
fn random_masks_every_bit_outside_the_immediate() {
    let mut computer = machine();
    for _ in 0..32 {
        computer.random(&Instruction::new(0xC10F));
        assert_eq!(computer.cpu.data_registers[1] & 0xF0, 0);
    }
    // A zero mask forces a zero result whatever byte was drawn.
    computer.cpu.data_registers[1] = 77;
    computer.random(&Instruction::new(0xC100));
    assert_eq!(computer.cpu.data_registers[1], 0);
}
