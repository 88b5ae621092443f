//! The 32x64 monochrome framebuffer, one 64-bit word per row.
//!
//! Column 0 is the leftmost pixel and lives in bit 63 of its row word.
//! Sprites are XOR-blitted: each sprite byte is placed at its horizontal
//! offset by a circular rotation of the row word, so a sprite drawn near
//! the right edge wraps to the left edge of the same row. Rows below the
//! bottom edge are clipped, never wrapped.

use vstd::prelude::*;

verus! {

/// Number of pixel rows.
pub const FB_ROWS: usize = 32;

/// Number of pixel columns.
pub const FB_COLS: usize = 64;

/// The 64-bit row word holding one 8-pixel sprite byte placed with its
/// leftmost bit at column `start_x % 64`, wrapping around the row.
pub open spec fn row_pattern(byte: u8, start_x: u8) -> u64 {
    let hi = (byte as u64) << 56;
    let s = start_x % 64;
    if s == 0 {
        hi
    } else {
        (hi >> (s as u64)) | (hi << ((64 - s) as u64))
    }
}

/// Whether the pixel at `col` of row word `row` is lit: column `c` is bit
/// `63 - c`.
pub open spec fn row_pixel(row: u64, col: int) -> bool {
    (row >> ((63 - col) as u64)) & 1 == 1
}

/// Which bit of a placed sprite byte covers column `col`: the byte's most
/// significant bit lands at column `start_x % 64` and the following bits
/// at the following columns, wrapping at the right edge.
pub open spec fn sprite_pixel(byte: u8, start_x: u8, col: u8) -> bool {
    let s = start_x % 64;
    let offset = if col >= s {
        (col - s) as u8
    } else {
        ((col + 64) - s) as u8
    };
    offset < 8 && (byte >> ((7 - offset) as u8)) & 1 == 1
}

/// The placed sprite byte lights exactly the columns that `sprite_pixel`
/// names: eight consecutive columns starting at `start_x % 64`, wrapping
/// around the right edge, each taking one bit of the byte in order.
pub proof fn lemma_row_pattern_pixel(byte: u8, start_x: u8, col: u8)
    requires
        col < 64,
    ensures
        row_pixel(row_pattern(byte, start_x), col as int) == sprite_pixel(byte, start_x, col),
{
    assert((row_pattern(byte, start_x) >> ((63 - col) as u64)) & 1 == 1 <==> sprite_pixel(
        byte,
        start_x,
        col,
    )) by (bit_vector)
        requires
            col < 64,
    ;
}

/// The framebuffer rows after XOR-blitting `bytes` at `(start_x, start_y)`:
/// row `start_y + i` is XORed with the placed sprite byte `i`; rows at or
/// below the bottom edge are dropped.
pub open spec fn fb_after_draw(rows: Seq<u64>, start_x: u8, start_y: u8, bytes: Seq<u8>) -> Seq<
    u64,
> {
    Seq::new(
        rows.len(),
        |r: int|
            if start_y <= r < start_y + bytes.len() {
                rows[r] ^ row_pattern(bytes[r - start_y], start_x)
            } else {
                rows[r]
            },
    )
}

/// Whether XOR-blitting `bytes` at `(start_x, start_y)` erases some pixel
/// that was lit: true exactly when a placed sprite byte overlaps a set bit
/// of its target row.
pub open spec fn draw_collides(rows: Seq<u64>, start_x: u8, start_y: u8, bytes: Seq<u8>) -> bool {
    exists|i: int|
        0 <= i < bytes.len() && start_y + i < rows.len() && (rows[start_y + i] & row_pattern(
            bytes[i],
            start_x,
        )) != 0u64
}

/// The bitmap rendered as text: each row becomes 64 characters - a full
/// block (U+2588) where the pixel is lit, a space where it is dark -
/// followed by a newline.
pub open spec fn buffer_text(rows: Seq<u64>) -> Seq<char> {
    Seq::new(
        rows.len() * 65,
        |i: int|
            if i % 65 == 64 {
                '\n'
            } else if row_pixel(rows[i / 65], i % 65) {
                '\u{2588}'
            } else {
                ' '
            },
    )
}

/// The monochrome bitmap: 32 rows of 64 pixels, packed one row per word.
pub struct FrameBuffer {
    /// Always exactly 32 row words.
    pub buffer: Vec<u64>,
}

impl FrameBuffer {
    /// The backing vector has its fixed size.
    pub open spec fn wf(&self) -> bool {
        self.buffer@.len() == FB_ROWS
    }

    /// A framebuffer with every pixel off.
    pub fn new() -> (r: Self)
        ensures
            r.wf(),
            forall|i: int| 0 <= i < FB_ROWS ==> r.buffer@[i] == 0u64,
    {
        let mut buffer: Vec<u64> = Vec::new();
        while buffer.len() < FB_ROWS
            invariant
                buffer@.len() <= FB_ROWS,
                forall|i: int| 0 <= i < buffer@.len() ==> buffer@[i] == 0u64,
            decreases FB_ROWS - buffer@.len(),
        {
            buffer.push(0);
        }
        FrameBuffer { buffer }
    }

    /// A copy of the current bitmap, one word per row.
    pub fn get_frame_buffer(&self) -> (r: Vec<u64>)
        requires
            self.wf(),
        ensures
            r@ == self.buffer@,
    {
        let mut out: Vec<u64> = Vec::new();
        let mut i: usize = 0;
        while i < self.buffer.len()
            invariant
                self.wf(),
                i <= FB_ROWS,
                out@ == self.buffer@.take(i as int),
            decreases FB_ROWS - i,
        {
            out.push(self.buffer[i]);
            proof {
                assert(out@ =~= self.buffer@.take(i as int + 1));
            }
            i += 1;
        }
        proof {
            assert(self.buffer@.take(FB_ROWS as int) =~= self.buffer@);
        }
        out
    }

    /// XOR-blits the sprite rows in `bytes` onto the bitmap starting at the
    /// given coordinates, wrapping horizontally and clipping vertically.
    ///
    /// Returns whether any previously lit pixel was erased.
    pub fn draw_sprite(&mut self, start_x: u8, start_y: u8, bytes: Vec<u8>) -> (collision: bool)
        requires
            old(self).wf(),
        ensures
            final(self).wf(),
            final(self).buffer@ == fb_after_draw(old(self).buffer@, start_x, start_y, bytes@),
            collision == draw_collides(old(self).buffer@, start_x, start_y, bytes@),
    {
        let mut collision = false;
        let mut i: usize = 0;
        let sy = start_y as usize;
        while i < bytes.len() && sy < FB_ROWS && i < FB_ROWS - sy
            invariant
                old(self).wf(),
                self.wf(),
                sy == start_y as usize,
                i <= bytes@.len(),
                forall|r: int|
                    0 <= r < FB_ROWS && !(start_y <= r < start_y + i) ==> self.buffer@[r] == old(
                        self,
                    ).buffer@[r],
                forall|j: int|
                    0 <= j < i && start_y + j < FB_ROWS ==> self.buffer@[start_y + j] == (old(
                        self,
                    ).buffer@[start_y + j] ^ row_pattern(bytes@[j], start_x)),
                collision == exists|j: int|
                    0 <= j < i && start_y + j < FB_ROWS && (old(self).buffer@[start_y + j]
                        & row_pattern(bytes@[j], start_x)) != 0u64,
            decreases bytes@.len() - i,
        {
            let byte = bytes[i];
            let y = sy + i;

            let hi = (byte as u64) << 56;
            let s = start_x % 64;
            let pattern = if s == 0 {
                hi
            } else {
                (hi >> (s as u64)) | (hi << ((64 - s) as u64))
            };
            assert(pattern == row_pattern(bytes@[i as int], start_x));

            let row = self.buffer[y];
            if row & pattern != 0 {
                collision = true;
            }
            self.buffer[y] = row ^ pattern;
            i += 1;
        }
        proof {
            assert(self.buffer@ =~= fb_after_draw(old(self).buffer@, start_x, start_y, bytes@));
            assert(collision == draw_collides(old(self).buffer@, start_x, start_y, bytes@));
        }
        collision
    }

    /// The bitmap rendered as text: 32 lines of 64 characters, a full
    /// block for a lit pixel and a space for a dark one, each line ended
    /// by a newline.
    pub fn get_buffer_as_string(&self) -> (r: String)
        requires
            self.wf(),
        ensures
            r@ == buffer_text(self.buffer@),
    {
        let mut chars: Vec<char> = Vec::new();
        let mut row: usize = 0;
        while row < FB_ROWS
            invariant
                self.wf(),
                row <= FB_ROWS,
                chars@.len() == row * (FB_COLS + 1),
                forall|i: int|
                    0 <= i < chars@.len() ==> chars@[i] == buffer_text(self.buffer@)[i],
            decreases FB_ROWS - row,
        {
            let line = self.buffer[row];
            let mut col: usize = 0;
            while col < FB_COLS
                invariant
                    self.wf(),
                    row < FB_ROWS,
                    col <= FB_COLS,
                    line == self.buffer@[row as int],
                    chars@.len() == row * (FB_COLS + 1) + col,
                    forall|i: int|
                        0 <= i < chars@.len() ==> chars@[i] == buffer_text(self.buffer@)[i],
                decreases FB_COLS - col,
            {
                proof {
                    let i = chars@.len() as int;
                    let r = row as int;
                    let c = col as int;
                    assert(i / 65 == r && i % 65 == c) by (nonlinear_arith)
                        requires
                            i == r * 65 + c,
                            0 <= c < 65,
                            0 <= r,
                    ;
                }
                let bit = (line >> ((63 - col) as u64)) & 1;
                if bit == 1 {
                    chars.push('\u{2588}');
                } else {
                    chars.push(' ');
                }
                col += 1;
            }
            proof {
                let i = chars@.len() as int;
                let r = row as int;
                assert(i / 65 == r && i % 65 == 64 && i + 1 == (r + 1) * 65) by (nonlinear_arith)
                    requires
                        i == r * 65 + 64,
                        0 <= r,
                ;
            }
            chars.push('\n');
            row += 1;
        }
        proof {
            assert(chars@ =~= buffer_text(self.buffer@));
        }
        crate::chars_to_string(chars)
    }

    /// Turns every pixel off.
    pub fn clear(&mut self)
        requires
            old(self).wf(),
        ensures
            final(self).wf(),
            forall|i: int| 0 <= i < FB_ROWS ==> final(self).buffer@[i] == 0u64,
    {
        let mut i: usize = 0;
        while i < self.buffer.len()
            invariant
                self.wf(),
                i <= FB_ROWS,
                forall|j: int| 0 <= j < i ==> self.buffer@[j] == 0u64,
            decreases FB_ROWS - i,
        {
            self.buffer[i] = 0;
            i += 1;
        }
    }
}

} // verus!
