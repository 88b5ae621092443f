use chip8::computer::Chip8Computer;
use chip8::frame_buffer::FrameBuffer;
use chip8::instruction::Instruction;

fn pixel(rows: &[u64], row: usize, col: usize) -> bool {
    (rows[row] >> (63 - col)) & 1 == 1
}

#[test]
fn sprite_wraps_around_the_right_edge() {
    // An 8x1 sprite of 0xFF at (60, 0) lights columns 60-63 and wraps the
    // remaining 4 bits to columns 0-3 of the same row.
    let mut frame_buffer = FrameBuffer::new();
    let collision = frame_buffer.draw_sprite(60, 0, vec![0xFF]);
    assert!(!collision);
    let rows = frame_buffer.get_frame_buffer();
    for col in 60..64 {
        assert!(pixel(&rows, 0, col), "column {} should be lit", col);
    }
    for col in 0..4 {
        assert!(pixel(&rows, 0, col), "column {} should be lit", col);
    }
    for col in 4..60 {
        assert!(!pixel(&rows, 0, col), "column {} should be dark", col);
    }
    assert!(rows[1..].iter().all(|row| *row == 0));
}

#[test]
fn redrawing_the_same_sprite_erases_it_and_reports_collision() {
    let mut frame_buffer = FrameBuffer::new();
    frame_buffer.draw_sprite(60, 0, vec![0xFF]);
    let collision = frame_buffer.draw_sprite(60, 0, vec![0xFF]);
    assert!(collision);
    assert!(frame_buffer.get_frame_buffer().iter().all(|row| *row == 0));
}

#[test]
fn partial_overlap_reports_collision_and_xors() {
    let mut frame_buffer = FrameBuffer::new();
    frame_buffer.draw_sprite(0, 5, vec![0b1111_0000]);
    let collision = frame_buffer.draw_sprite(2, 5, vec![0b1111_0000]);
    assert!(collision);
    let rows = frame_buffer.get_frame_buffer();
    // Columns 0-3 were lit; the second sprite covers 2-5, so the overlap
    // (2-3) is erased and 4-5 lit by the XOR.
    for col in [0, 1, 4, 5] {
        assert!(pixel(&rows, 5, col));
    }
    for col in [2, 3, 6, 7] {
        assert!(!pixel(&rows, 5, col));
    }
}

#[test]
fn sprite_clips_at_the_bottom_edge() {
    let mut frame_buffer = FrameBuffer::new();
    let collision = frame_buffer.draw_sprite(0, 30, vec![0xFF, 0xFF, 0xFF, 0xFF]);
    assert!(!collision);
    let rows = frame_buffer.get_frame_buffer();
    assert_ne!(rows[30], 0);
    assert_ne!(rows[31], 0);
    // Rows beyond 31 were dropped, not wrapped to the top.
    assert_eq!(rows[0], 0);
    assert_eq!(rows[1], 0);
}

#[test]
fn clear_turns_every_pixel_off() {
    let mut frame_buffer = FrameBuffer::new();
    frame_buffer.draw_sprite(10, 10, vec![0xFF, 0x81]);
    frame_buffer.clear();
    assert!(frame_buffer.get_frame_buffer().iter().all(|row| *row == 0));
}

#[test]
fn draw_instruction_reads_memory_at_the_index_register() {
    let mut computer = Chip8Computer::new();
    // The font glyph for 0: 0xF0 0x90 0x90 0x90 0xF0 at address 0.
    computer.cpu.index_register = 0;
    computer.cpu.data_registers[0] = 0;
    computer.cpu.data_registers[1] = 0;
    computer.draw(&Instruction::new(0xD015)).unwrap();
    let rows = computer.frame_buffer.get_frame_buffer();
    assert_eq!(rows[0] >> 56, 0xF0);
    assert_eq!(rows[1] >> 56, 0x90);
    assert_eq!(rows[4] >> 56, 0xF0);
    assert_eq!(computer.cpu.data_registers[0xF], 0);
    // Drawing the same glyph again erases it and sets the collision flag.
    computer.draw(&Instruction::new(0xD015)).unwrap();
    assert!(computer.frame_buffer.get_frame_buffer().iter().all(|row| *row == 0));
    assert_eq!(computer.cpu.data_registers[0xF], 1);
}

#[test]
fn draw_with_sprite_read_out_of_range_is_fatal() {
    let mut computer = Chip8Computer::new();
    computer.cpu.index_register = 4090;
    assert_eq!(
        computer.draw(&Instruction::new(0xD01F)),
        Err(chip8::Chip8Error::MemoryOutOfRange)
    );
    assert!(computer.frame_buffer.get_frame_buffer().iter().all(|row| *row == 0));
}

#[test]
fn buffer_text_draws_blocks_and_spaces() {
    let mut frame_buffer = FrameBuffer::new();
    frame_buffer.draw_sprite(0, 0, vec![0b1010_0000]);
    let text = frame_buffer.get_buffer_as_string();
    let lines: Vec<&str> = text.lines().collect();
    assert_eq!(lines.len(), 32);
    assert!(lines.iter().all(|line| line.chars().count() == 64));
    let first: Vec<char> = lines[0].chars().collect();
    assert_eq!(first[0], '\u{2588}');
    assert_eq!(first[1], ' ');
    assert_eq!(first[2], '\u{2588}');
    assert_eq!(first[3], ' ');
    assert!(lines[1].chars().all(|c| c == ' '));
}
