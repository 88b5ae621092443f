use chip8::computer::Chip8Computer;
use chip8::instruction::Instruction;
use chip8::memory::Memory;

#[test]
fn fresh_memory_holds_the_font() {
    let memory = Memory::new();
    // Glyph '0' at 0x000.
    assert_eq!(&memory.ram[0..5], &[0xF0, 0x90, 0x90, 0x90, 0xF0]);
    // Glyph 'A' at 0x0A * 5 = 50.
    assert_eq!(&memory.ram[50..55], &[0xF0, 0x90, 0xF0, 0x90, 0x90]);
    // Glyph 'F' at 0x0F * 5 = 75.
    assert_eq!(&memory.ram[75..80], &[0xF0, 0x80, 0xF0, 0x80, 0x80]);
    // Everything after the font is zero.
    assert!(memory.ram[80..].iter().all(|b| *b == 0));
    assert_eq!(memory.ram.len(), 4096);
}

#[test]
fn store_rom_copies_verbatim_at_0x200() {
    let mut memory = Memory::new();
    memory.store_rom(vec![0xDE, 0xAD, 0xBE, 0xEF]);
    assert_eq!(&memory.ram[0x200..0x204], &[0xDE, 0xAD, 0xBE, 0xEF]);
    assert_eq!(memory.ram[0x1FF], 0);
    assert_eq!(memory.ram[0x204], 0);
}

#[test]
fn read_byte_and_bytes_and_instruction() {
    let memory = Memory::_new_from_rom(vec![0x12, 0x34, 0x56]);
    assert_eq!(memory.read_byte(0x200), 0x12);
    assert_eq!(memory.read_bytes(0x200, 3), vec![0x12, 0x34, 0x56]);
    assert_eq!(memory.read_instruction(0x200), 0x1234);
    assert_eq!(memory.read_instruction(0x201), 0x3456);
}

#[test]
fn empty_rom_leaves_memory_untouched() {
    let mut memory = Memory::new();
    memory.store_rom(Vec::new());
    let fresh = Memory::new();
    assert_eq!(memory.ram, fresh.ram);
}

#[test]
fn largest_rom_fills_memory_to_the_end() {
    let mut memory = Memory::new();
    memory.store_rom(vec![0x7E; 4096 - 0x200]);
    assert_eq!(memory.ram[0x200], 0x7E);
    assert_eq!(memory.ram[4095], 0x7E);
    assert_eq!(memory.ram[0x1FF], 0);
}

#[test]
fn fresh_machine_state() {
    let computer = Chip8Computer::new();
    assert_eq!(computer.cpu.program_counter, 0x200);
    assert_eq!(computer.cpu.stack_pointer, 0);
    assert_eq!(computer.cpu.index_register, 0);
    assert_eq!(computer.cpu.delay_timer, 0);
    assert_eq!(computer.cpu.sound_timer, 0);
    assert!(computer.cpu.data_registers.iter().all(|v| *v == 0));
    assert!(computer.frame_buffer.get_frame_buffer().iter().all(|row| *row == 0));
    assert_eq!(computer.memory.get_stack(), vec![0u16; 16]);
}

#[test]
fn store_bcd_of_157_writes_1_5_7() {
    let mut computer = Chip8Computer::new();
    computer.cpu.data_registers[4] = 157;
    computer.cpu.index_register = 0x300;
    computer.store_bcd(&Instruction::new(0xF433)).unwrap();
    assert_eq!(computer.memory.ram[0x300], 1);
    assert_eq!(computer.memory.ram[0x301], 5);
    assert_eq!(computer.memory.ram[0x302], 7);
}

#[test]
fn store_bcd_out_of_range_is_fatal_and_changes_nothing() {
    let mut computer = Chip8Computer::new();
    computer.cpu.data_registers[4] = 157;
    computer.cpu.index_register = 4094;
    let result = computer.store_bcd(&Instruction::new(0xF433));
    assert_eq!(result, Err(chip8::Chip8Error::MemoryOutOfRange));
    assert_eq!(computer.memory.ram[4094], 0);
    assert_eq!(computer.memory.ram[4095], 0);
}

#[test]
fn store_then_load_registers_reproduces_the_range() {
    let mut computer = Chip8Computer::new();
    for i in 0..6 {
        computer.cpu.data_registers[i] = (10 * i + 3) as u8;
    }
    computer.cpu.index_register = 0x250;
    computer.store_registers(&Instruction::new(0xF555)).unwrap();
    // Zero the whole register file, then load the range back.
    for i in 0..16 {
        computer.cpu.data_registers[i] = 0;
    }
    computer.load_registers(&Instruction::new(0xF565)).unwrap();
    for i in 0..6 {
        assert_eq!(computer.cpu.data_registers[i], (10 * i + 3) as u8);
    }
    // Registers past X were not loaded.
    assert!(computer.cpu.data_registers[6..].iter().all(|v| *v == 0));
}

#[test]
fn store_registers_is_ascending_from_the_index() {
    let mut computer = Chip8Computer::new();
    computer.cpu.data_registers[0] = 0xAA;
    computer.cpu.data_registers[1] = 0xBB;
    computer.cpu.data_registers[2] = 0xCC;
    computer.cpu.index_register = 0x400;
    computer.store_registers(&Instruction::new(0xF255)).unwrap();
    assert_eq!(&computer.memory.ram[0x400..0x403], &[0xAA, 0xBB, 0xCC]);
    assert_eq!(computer.memory.ram[0x403], 0);
}

#[test]
fn register_range_out_of_bounds_is_fatal() {
    let mut computer = Chip8Computer::new();
    computer.cpu.index_register = 4090;
    assert_eq!(
        computer.store_registers(&Instruction::new(0xF755)),
        Err(chip8::Chip8Error::MemoryOutOfRange)
    );
    assert_eq!(
        computer.load_registers(&Instruction::new(0xF765)),
        Err(chip8::Chip8Error::MemoryOutOfRange)
    );
}

#[test]
fn font_character_address_for_a_is_50() {
    let mut computer = Chip8Computer::new();
    computer.cpu.data_registers[3] = 0xA;
    computer.index_sprite(&Instruction::new(0xF329));
    assert_eq!(computer.cpu.index_register, 50);
}

#[test]
fn load_address_and_add_index() {
    let mut computer = Chip8Computer::new();
    computer.load_address(&Instruction::new(0xA123));
    assert_eq!(computer.cpu.index_register, 0x123);
    computer.cpu.data_registers[2] = 0x10;
    computer.add_index(&Instruction::new(0xF21E)).unwrap();
    assert_eq!(computer.cpu.index_register, 0x133);
}

#[test]
fn add_index_past_memory_is_fatal() {
    let mut computer = Chip8Computer::new();
    computer.cpu.index_register = 4095;
    computer.cpu.data_registers[2] = 1;
    assert_eq!(
        computer.add_index(&Instruction::new(0xF21E)),
        Err(chip8::Chip8Error::MemoryOutOfRange)
    );
    assert_eq!(computer.cpu.index_register, 4095);
}

#[test]
fn timers_store_load_and_saturating_decrement() {
    let mut computer = Chip8Computer::new();
    computer.cpu.data_registers[1] = 2;
    computer.store_delay(&Instruction::new(0xF115));
    computer.store_sound(&Instruction::new(0xF118));
    assert_eq!(computer.cpu.delay_timer, 2);
    assert_eq!(computer.cpu.sound_timer, 2);
    computer.decrement_timers();
    computer.decrement_timers();
    assert_eq!(computer.cpu.delay_timer, 0);
    assert_eq!(computer.cpu.sound_timer, 0);
    // Decrementing past zero is a no-op, never an underflow.
    computer.decrement_timers();
    assert_eq!(computer.cpu.delay_timer, 0);
    assert_eq!(computer.cpu.sound_timer, 0);

    computer.load_delay(&Instruction::new(0xF507));
    assert_eq!(computer.cpu.data_registers[5], 0);
}

#[test]
fn memory_view_string_formats_lines_of_16_bytes() {
    let memory = Memory::new();
    let view = memory.get_memory_view_string();
    let first_line = view.lines().next().unwrap();
    // Glyphs '0', '1', '2', '3' and part of '4' fill the first 16 bytes.
    assert_eq!(first_line, "0x0000:    0xf090  0x9090  0xf020  0x6020  0x2070  0xf010  0xf080  0xf0f0  ");
    assert_eq!(view.lines().count(), 4096 / 16);
}

#[test]
fn interesting_memory_shows_font_and_rom_with_a_break() {
    let mut memory = Memory::new();
    memory.store_rom(vec![0x11; 16]);
    let view = memory.get_only_interesting_memory();
    // The font region (0x000-0x04F) and the ROM region both appear,
    // separated by a break line; the empty space between them does not.
    assert!(view.contains("0x0000:"));
    assert!(view.contains(".....MEMORY BREAK.....\n"));
    assert!(view.contains("0x0200:    0x1111"));
    assert!(!view.contains("0x0100:"));
}
