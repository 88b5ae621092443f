use chip8::instruction::Instruction;

#[test]
fn opcode_is_top_nibble() {
    assert_eq!(Instruction::new(0x1234).get_opcode(), 0x1);
    assert_eq!(Instruction::new(0xF065).get_opcode(), 0xF);
    assert_eq!(Instruction::new(0x00E0).get_opcode(), 0x0);
    assert_eq!(Instruction::new(0xFFFF).get_opcode(), 0xF);
}

#[test]
fn immediate_is_low_byte() {
    assert_eq!(Instruction::new(0x1234).get_immediate(), 0x34);
    assert_eq!(Instruction::new(0x6AFF).get_immediate(), 0xFF);
    assert_eq!(Instruction::new(0xC200).get_immediate(), 0x00);
}

#[test]
fn address_immediate_is_low_twelve_bits() {
    assert_eq!(Instruction::new(0x1234).get_address_immediate(), 0x234);
    assert_eq!(Instruction::new(0xAFFF).get_address_immediate(), 0xFFF);
    assert_eq!(Instruction::new(0x2000).get_address_immediate(), 0x000);
}

#[test]
fn register_fields() {
    let instruction = Instruction::new(0x8A74);
    assert_eq!(instruction.get_register(), 0xA);
    assert_eq!(instruction.get_second_register(), 0x7);
    assert_eq!(instruction.get_small_immediate(), 0x4);
}

#[test]
fn every_field_of_one_word() {
    let instruction = Instruction::new(0xD9AB);
    assert_eq!(instruction.get_opcode(), 0xD);
    assert_eq!(instruction.get_register(), 0x9);
    assert_eq!(instruction.get_second_register(), 0xA);
    assert_eq!(instruction.get_small_immediate(), 0xB);
    assert_eq!(instruction.get_immediate(), 0xAB);
    assert_eq!(instruction.get_address_immediate(), 0x9AB);
    assert_eq!(instruction.value, 0xD9AB);
}
