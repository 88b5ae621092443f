//! The 4096-byte address space and the 16-entry return-address stack.
//!
//! Addresses 0x000-0x04F are seeded with the fixed hexadecimal glyph font
//! (16 glyphs of 5 bytes each); a program image is loaded verbatim at
//! 0x200. The `font-character-address` instruction relies on the glyph for
//! digit `d` sitting at address `d * 5`.

use vstd::prelude::*;

verus! {

/// Number of addressable bytes.
pub const MEMORY_SIZE: usize = 4096;

/// Address at which a loaded program image begins.
pub const ROM_START: usize = 0x200;

/// The fixed 80-byte font table: glyphs for hex digits 0-F, 5 bytes each.
pub open spec fn font_table() -> Seq<u8> {
    seq![
        0xF0u8, 0x90, 0x90, 0x90, 0xF0, // 0
        0x20, 0x60, 0x20, 0x20, 0x70, // 1
        0xF0, 0x10, 0xF0, 0x80, 0xF0, // 2
        0xF0, 0x10, 0xF0, 0x10, 0xF0, // 3
        0x90, 0x90, 0xF0, 0x10, 0x10, // 4
        0xF0, 0x80, 0xF0, 0x10, 0xF0, // 5
        0xF0, 0x80, 0xF0, 0x90, 0xF0, // 6
        0xF0, 0x10, 0x20, 0x40, 0x40, // 7
        0xF0, 0x90, 0xF0, 0x90, 0xF0, // 8
        0xF0, 0x90, 0xF0, 0x10, 0xF0, // 9
        0xF0, 0x90, 0xF0, 0x90, 0x90, // A
        0xE0, 0x90, 0xE0, 0x90, 0xE0, // B
        0xF0, 0x80, 0x80, 0x80, 0xF0, // C
        0xE0, 0x90, 0x90, 0x90, 0xE0, // D
        0xF0, 0x80, 0xF0, 0x80, 0xF0, // E
        0xF0, 0x80, 0xF0, 0x80, 0x80, // F
    ]
}

/// Memory contents right after construction: the font, then zeroes.
pub open spec fn initial_ram() -> Seq<u8> {
    Seq::new(MEMORY_SIZE as nat, |i: int| if i < 80 { font_table()[i] } else { 0u8 })
}

/// Memory contents with a program image written at 0x200.
pub open spec fn ram_with_rom(ram: Seq<u8>, rom: Seq<u8>) -> Seq<u8> {
    Seq::new(
        ram.len(),
        |i: int|
            if ROM_START <= i < ROM_START + rom.len() {
                rom[i - ROM_START]
            } else {
                ram[i]
            },
    )
}

/// The lowercase hex digit for a value 0-15.
pub open spec fn hex_digit(d: int) -> char {
    if d == 0 {
        '0'
    } else if d == 1 {
        '1'
    } else if d == 2 {
        '2'
    } else if d == 3 {
        '3'
    } else if d == 4 {
        '4'
    } else if d == 5 {
        '5'
    } else if d == 6 {
        '6'
    } else if d == 7 {
        '7'
    } else if d == 8 {
        '8'
    } else if d == 9 {
        '9'
    } else if d == 10 {
        'a'
    } else if d == 11 {
        'b'
    } else if d == 12 {
        'c'
    } else if d == 13 {
        'd'
    } else if d == 14 {
        'e'
    } else {
        'f'
    }
}

/// One byte as two lowercase hex digits.
pub open spec fn hex2(b: u8) -> Seq<char> {
    seq![hex_digit(b as int / 16), hex_digit(b as int % 16)]
}

/// An address as four lowercase hex digits.
pub open spec fn hex4(v: int) -> Seq<char> {
    seq![
        hex_digit(v / 4096 % 16),
        hex_digit(v / 256 % 16),
        hex_digit(v / 16 % 16),
        hex_digit(v % 16),
    ]
}

/// The byte groups of one dump line: each two bytes rendered as
/// "0x" + four hex digits + two spaces.
pub open spec fn pair_text(ram: Seq<u8>, start: int, count: int) -> Seq<char>
    decreases count,
{
    if count < 2 {
        Seq::empty()
    } else {
        seq!['0', 'x'] + hex2(ram[start]) + hex2(ram[start + 1]) + seq![' ', ' '] + pair_text(
            ram,
            start + 2,
            count - 2,
        )
    }
}

/// One dump line: the starting address, a colon and four spaces, then
/// `count` bytes in groups of two, ended by a newline.
pub open spec fn chunk_text(ram: Seq<u8>, start: int, count: int) -> Seq<char> {
    seq!['0', 'x'] + hex4(start) + seq![':', ' ', ' ', ' ', ' '] + pair_text(ram, start, count)
        + seq!['\n']
}

/// The hex dump of `ram[start..end)`, 16 bytes per line.
pub open spec fn memory_section_text(ram: Seq<u8>, start: int, end: int) -> Seq<char>
    decreases end - start,
{
    if end <= start {
        Seq::empty()
    } else {
        let count = if end - start < 16 {
            end - start
        } else {
            16
        };
        chunk_text(ram, start, count) + memory_section_text(ram, start + count, end)
    }
}

/// The separator printed between two interesting regions of memory.
pub open spec fn memory_break_text() -> Seq<char> {
    seq![
        '.', '.', '.', '.', '.', 'M', 'E', 'M', 'O', 'R', 'Y', ' ', 'B', 'R', 'E', 'A', 'K',
        '.', '.', '.', '.', '.', '\n',
    ]
}

/// The text that the interesting-memory scan emits from position `i`
/// onward, given the scan state so far: `zeros` consecutive zero bytes
/// just seen, where the open interesting run began (if one is open), and
/// whether a section was already emitted. A run is closed and printed -
/// its bounds aligned outward to 16-byte lines - once 48 consecutive zero
/// bytes follow it; runs still open when the scan ends are not printed.
pub open spec fn interesting_text(
    ram: Seq<u8>,
    i: int,
    zeros: int,
    start: Option<int>,
    emitted: bool,
) -> Seq<char>
    decreases ram.len() - i,
{
    if i < 0 || i >= ram.len() {
        Seq::empty()
    } else if ram[i] == 0 {
        let z = zeros + 1;
        match start {
            Some(s) => {
                if z == 48 {
                    let aligned = s - s % 16;
                    let last_interesting = i - 48;
                    let last_index = last_interesting + (16 - last_interesting % 16);
                    (if emitted {
                        memory_break_text()
                    } else {
                        Seq::empty()
                    }) + memory_section_text(ram, aligned, last_index) + interesting_text(
                        ram,
                        i + 1,
                        0,
                        None,
                        true,
                    )
                } else {
                    interesting_text(ram, i + 1, z, start, emitted)
                }
            },
            None => interesting_text(ram, i + 1, z, None, emitted),
        }
    } else {
        match start {
            Some(s) => interesting_text(ram, i + 1, 0, start, emitted),
            None => interesting_text(ram, i + 1, 0, Some(i), emitted),
        }
    }
}

/// The exec counterpart of `hex_digit`.
fn hex_char(d: u8) -> (r: char)
    requires
        d < 16,
    ensures
        r == hex_digit(d as int),
{
    if d < 10 {
        (48 + d) as char
    } else {
        (87 + d) as char
    }
}

/// Appends one byte as two lowercase hex digits.
fn push_hex2(chars: &mut Vec<char>, b: u8)
    ensures
        final(chars)@ == old(chars)@ + hex2(b),
{
    chars.push(hex_char(b / 16));
    chars.push(hex_char(b % 16));
    proof {
        assert(chars@ =~= old(chars)@ + hex2(b));
    }
}

/// Appends an address as four lowercase hex digits.
fn push_hex4(chars: &mut Vec<char>, v: usize)
    requires
        v < 65536,
    ensures
        final(chars)@ == old(chars)@ + hex4(v as int),
{
    chars.push(hex_char(((v / 4096) % 16) as u8));
    chars.push(hex_char(((v / 256) % 16) as u8));
    chars.push(hex_char(((v / 16) % 16) as u8));
    chars.push(hex_char((v % 16) as u8));
    proof {
        assert(chars@ =~= old(chars)@ + hex4(v as int));
    }
}

/// The address space and the call stack's backing storage.
pub struct Memory {
    /// Always exactly 4096 bytes.
    pub ram: Vec<u8>,
    /// Backing storage for the 16-entry call stack; the entries in use are
    /// counted by the CPU's stack pointer.
    pub stack: Vec<u16>,
}

impl Memory {
    /// Both backing vectors have their fixed sizes.
    pub open spec fn wf(&self) -> bool {
        &&& self.ram@.len() == MEMORY_SIZE
        &&& self.stack@.len() == 16
    }

    /// Fresh memory: the font at 0x000-0x04F, zeroes everywhere else, and
    /// an all-zero stack.
    pub fn new() -> (r: Self)
        ensures
            r.wf(),
            r.ram@ == initial_ram(),
            forall|i: int| 0 <= i < 16 ==> r.stack@[i] == 0u16,
    {
        let mut ram: Vec<u8> = Vec::new();
        push_glyph(&mut ram, 0xF0, 0x90, 0x90, 0x90, 0xF0);
        push_glyph(&mut ram, 0x20, 0x60, 0x20, 0x20, 0x70);
        push_glyph(&mut ram, 0xF0, 0x10, 0xF0, 0x80, 0xF0);
        push_glyph(&mut ram, 0xF0, 0x10, 0xF0, 0x10, 0xF0);
        push_glyph(&mut ram, 0x90, 0x90, 0xF0, 0x10, 0x10);
        push_glyph(&mut ram, 0xF0, 0x80, 0xF0, 0x10, 0xF0);
        push_glyph(&mut ram, 0xF0, 0x80, 0xF0, 0x90, 0xF0);
        push_glyph(&mut ram, 0xF0, 0x10, 0x20, 0x40, 0x40);
        push_glyph(&mut ram, 0xF0, 0x90, 0xF0, 0x90, 0xF0);
        push_glyph(&mut ram, 0xF0, 0x90, 0xF0, 0x10, 0xF0);
        push_glyph(&mut ram, 0xF0, 0x90, 0xF0, 0x90, 0x90);
        push_glyph(&mut ram, 0xE0, 0x90, 0xE0, 0x90, 0xE0);
        push_glyph(&mut ram, 0xF0, 0x80, 0x80, 0x80, 0xF0);
        push_glyph(&mut ram, 0xE0, 0x90, 0x90, 0x90, 0xE0);
        push_glyph(&mut ram, 0xF0, 0x80, 0xF0, 0x80, 0xF0);
        push_glyph(&mut ram, 0xF0, 0x80, 0xF0, 0x80, 0x80);
        assert(ram@ =~= font_table());
        while ram.len() < MEMORY_SIZE
            invariant
                80 <= ram@.len() <= MEMORY_SIZE,
                ram@.take(80) == font_table(),
                forall|i: int| 80 <= i < ram@.len() ==> ram@[i] == 0u8,
            decreases MEMORY_SIZE - ram@.len(),
        {
            ram.push(0);
            proof {
                assert(ram@.take(80) =~= font_table());
            }
        }
        proof {
            assert(forall|i: int| 0 <= i < 80 ==> ram@[i] == #[trigger] ram@.take(80)[i]);
            assert(ram@ =~= initial_ram());
        }
        let mut stack: Vec<u16> = Vec::new();
        while stack.len() < 16
            invariant
                stack@.len() <= 16,
                forall|i: int| 0 <= i < stack@.len() ==> stack@[i] == 0u16,
            decreases 16 - stack@.len(),
        {
            stack.push(0);
        }
        Memory { ram, stack }
    }

    /// Fresh memory with a program image already loaded at 0x200.
    pub fn _new_from_rom(rom_bytes: Vec<u8>) -> (r: Self)
        requires
            rom_bytes@.len() <= MEMORY_SIZE - ROM_START,
        ensures
            r.wf(),
            forall|i: int|
                ROM_START <= i < ROM_START + rom_bytes@.len() ==> r.ram@[i] == rom_bytes@[i
                    - ROM_START],
            forall|i: int|
                0 <= i < MEMORY_SIZE && !(ROM_START <= i < ROM_START + rom_bytes@.len())
                    ==> r.ram@[i] == initial_ram()[i],
            forall|i: int| 0 <= i < 16 ==> r.stack@[i] == 0u16,
    {
        let mut memory = Memory::new();
        memory.store_rom(rom_bytes);
        memory
    }

    /// Copies a program image verbatim into memory starting at 0x200.
    ///
    /// No header is expected and no opcode is validated here: illegal
    /// opcodes are only detected at dispatch time.
    pub fn store_rom(&mut self, rom_bytes: Vec<u8>)
        requires
            old(self).wf(),
            rom_bytes@.len() <= MEMORY_SIZE - ROM_START,
        ensures
            final(self).wf(),
            forall|i: int|
                ROM_START <= i < ROM_START + rom_bytes@.len() ==> final(self).ram@[i]
                    == rom_bytes@[i - ROM_START],
            forall|i: int|
                0 <= i < MEMORY_SIZE && !(ROM_START <= i < ROM_START + rom_bytes@.len())
                    ==> final(self).ram@[i] == old(self).ram@[i],
            final(self).ram@ == ram_with_rom(old(self).ram@, rom_bytes@),
            final(self).stack == old(self).stack,
    {
        let mut i: usize = 0;
        while i < rom_bytes.len()
            invariant
                self.wf(),
                i <= rom_bytes@.len(),
                rom_bytes@.len() <= MEMORY_SIZE - ROM_START,
                forall|j: int| ROM_START <= j < ROM_START + i ==> self.ram@[j] == rom_bytes@[j - ROM_START],
                forall|j: int|
                    0 <= j < MEMORY_SIZE && !(ROM_START <= j < ROM_START + i) ==> self.ram@[j]
                        == old(self).ram@[j],
                self.stack == old(self).stack,
            decreases rom_bytes@.len() - i,
        {
            let byte = rom_bytes[i];
            self.ram[ROM_START + i] = byte;
            i += 1;
        }
        proof {
            assert(self.ram@ =~= ram_with_rom(old(self).ram@, rom_bytes@));
        }
    }

    /// Reads the byte at the given address.
    pub fn read_byte(&self, address: u16) -> (r: u8)
        requires
            self.wf(),
            address < MEMORY_SIZE,
        ensures
            r == self.ram@[address as int],
    {
        self.ram[address as usize]
    }

    /// Reads `num_bytes` consecutive bytes starting at `starting_address`.
    pub fn read_bytes(&self, starting_address: u16, num_bytes: u16) -> (r: Vec<u8>)
        requires
            self.wf(),
            starting_address + num_bytes <= MEMORY_SIZE,
        ensures
            r@ == self.ram@.subrange(
                starting_address as int,
                starting_address as int + num_bytes as int,
            ),
    {
        let mut bytes: Vec<u8> = Vec::new();
        let mut offset: u16 = 0;
        while offset < num_bytes
            invariant
                self.wf(),
                offset <= num_bytes,
                starting_address + num_bytes <= MEMORY_SIZE,
                bytes@ == self.ram@.subrange(
                    starting_address as int,
                    starting_address as int + offset as int,
                ),
            decreases num_bytes - offset,
        {
            bytes.push(self.ram[(starting_address + offset) as usize]);
            proof {
                assert(bytes@ =~= self.ram@.subrange(
                    starting_address as int,
                    starting_address as int + offset as int + 1,
                ));
            }
            offset += 1;
        }
        bytes
    }

    /// Reads the big-endian 16-bit instruction word at the given address.
    pub fn read_instruction(&self, address: u16) -> (r: u16)
        requires
            self.wf(),
            address + 1 < MEMORY_SIZE,
        ensures
            r == self.ram@[address as int] * 256 + self.ram@[address as int + 1],
    {
        let high = self.ram[address as usize];
        let low = self.ram[(address + 1) as usize];
        proof {
            assert(((high as u16) << 8) == high as u16 * 256) by (bit_vector);
        }
        ((high as u16) << 8) + low as u16
    }

    /// A copy of the call stack's backing storage.
    pub fn get_stack(&self) -> (r: Vec<u16>)
        requires
            self.wf(),
        ensures
            r@ == self.stack@,
    {
        let mut out: Vec<u16> = Vec::new();
        let mut i: usize = 0;
        while i < self.stack.len()
            invariant
                self.wf(),
                i <= 16,
                out@ == self.stack@.take(i as int),
            decreases 16 - i,
        {
            out.push(self.stack[i]);
            proof {
                assert(out@ =~= self.stack@.take(i as int + 1));
            }
            i += 1;
        }
        proof {
            assert(self.stack@.take(16) =~= self.stack@);
        }
        out
    }
}

/// Appends one dump line: `count` bytes of `ram` starting at `start`.
fn push_chunk_line(chars: &mut Vec<char>, ram: &Vec<u8>, start: usize, count: usize)
    requires
        ram@.len() == MEMORY_SIZE,
        start + count <= MEMORY_SIZE,
        count % 2 == 0,
    ensures
        final(chars)@ == old(chars)@ + chunk_text(ram@, start as int, count as int),
{
    chars.push('0');
    chars.push('x');
    push_hex4(chars, start);
    chars.push(':');
    chars.push(' ');
    chars.push(' ');
    chars.push(' ');
    chars.push(' ');
    let ghost head = chars@;
    proof {
        assert(head =~= old(chars)@ + seq!['0', 'x'] + hex4(start as int) + seq![
            ':', ' ', ' ', ' ', ' ',
        ]);
    }
    let mut j: usize = 0;
    while j < count
        invariant
            ram@.len() == MEMORY_SIZE,
            start + count <= MEMORY_SIZE,
            count % 2 == 0,
            j % 2 == 0,
            j <= count,
            chars@ + pair_text(ram@, start + j, count - j) == head + pair_text(
                ram@,
                start as int,
                count as int,
            ),
        decreases count - j,
    {
        let ghost before = chars@;
        chars.push('0');
        chars.push('x');
        push_hex2(chars, ram[start + j]);
        push_hex2(chars, ram[start + j + 1]);
        chars.push(' ');
        chars.push(' ');
        proof {
            let piece = seq!['0', 'x'] + hex2(ram@[start + j]) + hex2(ram@[start + j + 1])
                + seq![' ', ' '];
            assert(chars@ =~= before + piece);
            assert(pair_text(ram@, start + j, count - j) == piece + pair_text(
                ram@,
                start + j + 2,
                count - j - 2,
            ));
            assert(chars@ + pair_text(ram@, start + j + 2, count - j - 2) =~= before + pair_text(
                ram@,
                start + j,
                count - j,
            ));
        }
        j += 2;
    }
    proof {
        assert(chars@ + pair_text(ram@, start + count, 0) =~= chars@);
    }
    chars.push('\n');
    proof {
        assert(chars@ =~= old(chars)@ + chunk_text(ram@, start as int, count as int));
    }
}

impl Memory {
    /// The hex dump of `ram[starting_index..ending_index)`, 16 bytes per
    /// line; an ending index past the end of memory is clamped.
    fn view_memory_section(&self, starting_index: usize, ending_index: usize) -> (r: Vec<char>)
        requires
            self.wf(),
            starting_index <= ending_index,
            starting_index <= MEMORY_SIZE,
            (if ending_index < MEMORY_SIZE {
                ending_index as int
            } else {
                MEMORY_SIZE as int
            }) - starting_index >= 0,
            ((if ending_index < MEMORY_SIZE {
                ending_index as int
            } else {
                MEMORY_SIZE as int
            }) - starting_index) % 2 == 0,
        ensures
            r@ == memory_section_text(
                self.ram@,
                starting_index as int,
                if ending_index < MEMORY_SIZE {
                    ending_index as int
                } else {
                    MEMORY_SIZE as int
                },
            ),
    {
        let ending = if ending_index < MEMORY_SIZE {
            ending_index
        } else {
            MEMORY_SIZE
        };
        let mut chars: Vec<char> = Vec::new();
        let mut pos: usize = starting_index;
        while pos < ending
            invariant
                self.wf(),
                starting_index <= pos <= ending,
                ending <= MEMORY_SIZE,
                (ending - pos) % 2 == 0,
                chars@ + memory_section_text(self.ram@, pos as int, ending as int)
                    == memory_section_text(self.ram@, starting_index as int, ending as int),
            decreases ending - pos,
        {
            let ghost before = chars@;
            let count = if ending - pos < 16 {
                ending - pos
            } else {
                16
            };
            push_chunk_line(&mut chars, &self.ram, pos, count);
            proof {
                assert(memory_section_text(self.ram@, pos as int, ending as int) == chunk_text(
                    self.ram@,
                    pos as int,
                    count as int,
                ) + memory_section_text(self.ram@, pos + count, ending as int));
                assert(chars@ + memory_section_text(self.ram@, pos + count, ending as int)
                    =~= before + memory_section_text(self.ram@, pos as int, ending as int));
            }
            pos += count;
        }
        proof {
            assert(chars@ + memory_section_text(self.ram@, ending as int, ending as int)
                =~= chars@);
        }
        chars
    }

    /// The interesting parts of memory as a hex dump: each run of data
    /// that is followed by 48 consecutive zero bytes is printed as 16-byte
    /// lines, aligned outward to line boundaries, with a break line
    /// between runs. Data not yet followed by such a gap when the scan
    /// ends is not printed.
    #[verifier::rlimit(60)]
    pub fn get_only_interesting_memory(&self) -> (r: String)
        requires
            self.wf(),
        ensures
            r@ == interesting_text(self.ram@, 0, 0, None, false),
    {
        let mut chars: Vec<char> = Vec::new();
        let mut num_consecutive_zeros: usize = 0;
        let mut start_of_interesting_data: Option<usize> = None;
        let mut i: usize = 0;
        while i < MEMORY_SIZE
            invariant
                self.wf(),
                i <= MEMORY_SIZE,
                num_consecutive_zeros <= i,
                start_of_interesting_data matches Some(s) ==> s + num_consecutive_zeros + 1 <= i
                    && num_consecutive_zeros < 48,
                chars@ + interesting_text(
                    self.ram@,
                    i as int,
                    num_consecutive_zeros as int,
                    match start_of_interesting_data {
                        Some(s) => Some(s as int),
                        None => None,
                    },
                    chars@.len() > 0,
                ) == interesting_text(self.ram@, 0, 0, None, false),
            decreases MEMORY_SIZE - i,
        {
            let ghost before = chars@;
            let ghost z0 = num_consecutive_zeros as int;
            let ghost st0: Option<int> = match start_of_interesting_data {
                Some(s) => Some(s as int),
                None => None,
            };
            let ghost em0 = before.len() > 0;
            let byte = self.ram[i];
            if byte == 0 {
                num_consecutive_zeros += 1;
                if start_of_interesting_data.is_some() && num_consecutive_zeros == 48 {
                    let start_index = match start_of_interesting_data {
                        Some(s) => s,
                        None => 0,
                    };
                    let aligned_start_index = start_index - start_index % 16;
                    let last_interesting_index = i - num_consecutive_zeros;
                    let last_index = last_interesting_index + (16 - last_interesting_index % 16);
                    proof {
                        let s = start_index as int;
                        let li = last_interesting_index as int;
                        let a = s - s % 16;
                        let b = li + (16 - li % 16);
                        assert(a % 16 == 0 && b % 16 == 0 && (b - a) % 2 == 0 && a <= s && li < b)
                            by (nonlinear_arith)
                            requires
                                0 <= s,
                                0 <= li,
                                a == s - s % 16,
                                b == li + (16 - li % 16),
                        ;
                    }
                    let mut section = self.view_memory_section(aligned_start_index, last_index);
                    if !chars.is_empty() {
                        push_memory_break(&mut chars);
                    }
                    chars.append(&mut section);
                    proof {
                        assert(chars@ =~= before + (if before.len() > 0 {
                            memory_break_text()
                        } else {
                            Seq::<char>::empty()
                        }) + memory_section_text(
                            self.ram@,
                            aligned_start_index as int,
                            last_index as int,
                        ));
                        assert(chars@.len() > 0);
                    }
                    num_consecutive_zeros = 0;
                    start_of_interesting_data = None;
                }
            } else {
                num_consecutive_zeros = 0;
                if start_of_interesting_data.is_none() {
                    start_of_interesting_data = Some(i);
                }
            }
            proof {
                let st_new: Option<int> = match start_of_interesting_data {
                    Some(s) => Some(s as int),
                    None => None,
                };
                assert(chars@ + interesting_text(
                    self.ram@,
                    i + 1,
                    num_consecutive_zeros as int,
                    st_new,
                    chars@.len() > 0,
                ) =~= before + interesting_text(self.ram@, i as int, z0, st0, em0));
            }
            i += 1;
        }
        crate::chars_to_string(chars)
    }

    /// The whole address space as a hex dump, 16 bytes per line.
    pub fn get_memory_view_string(&self) -> (r: String)
        requires
            self.wf(),
        ensures
            r@ == memory_section_text(self.ram@, 0, MEMORY_SIZE as int),
    {
        let chars = self.view_memory_section(0x00, MEMORY_SIZE);
        crate::chars_to_string(chars)
    }
}

/// Appends the separator printed between two interesting regions.
fn push_memory_break(chars: &mut Vec<char>)
    ensures
        final(chars)@ == old(chars)@ + memory_break_text(),
{
    chars.push('.');
    chars.push('.');
    chars.push('.');
    chars.push('.');
    chars.push('.');
    chars.push('M');
    chars.push('E');
    chars.push('M');
    chars.push('O');
    chars.push('R');
    chars.push('Y');
    chars.push(' ');
    chars.push('B');
    chars.push('R');
    chars.push('E');
    chars.push('A');
    chars.push('K');
    chars.push('.');
    chars.push('.');
    chars.push('.');
    chars.push('.');
    chars.push('.');
    chars.push('\n');
    proof {
        assert(chars@ =~= old(chars)@ + memory_break_text());
    }
}

/// Appends one 5-byte glyph to the font region being built.
fn push_glyph(ram: &mut Vec<u8>, b0: u8, b1: u8, b2: u8, b3: u8, b4: u8)
    ensures
        final(ram)@ == old(ram)@ + seq![b0, b1, b2, b3, b4],
{
    ram.push(b0);
    ram.push(b1);
    ram.push(b2);
    ram.push(b3);
    ram.push(b4);
    proof {
        assert(ram@ =~= old(ram)@ + seq![b0, b1, b2, b3, b4]);
    }
}

} // verus!
