//! The built-in hexadecimal font: 16 glyphs of 5 rows, 4 pixels wide.

use vstd::prelude::*;

verus! {

/// First memory address of the font.
pub const FONT_BASE: u16 = 0x50;

/// Number of bytes per glyph, one per row.
pub const GLYPH_SIZE: u16 = 5;

/// Number of font bytes: 16 glyphs of 5 rows.
pub const FONT_SIZE: usize = 80;

/// The font sprites for the digits 0 to F, in order; each row is one byte with
/// the leftmost pixel in bit 7.
pub const FONT_SET: [u8; 80] = [
    0xF0, 0x90, 0x90, 0x90, 0xF0, // 0
    0x20, 0x60, 0x20, 0x20, 0x70, // 1
    0xF0, 0x10, 0xF0, 0x80, 0xF0, // 2
    0xF0, 0x10, 0xF0, 0x10, 0xF0, // 3
    0x90, 0x90, 0xF0, 0x10, 0x10, // 4
    0xF0, 0x80, 0xF0, 0x10, 0xF0, // 5
    0xF0, 0x80, 0xF0, 0x90, 0xF0, // 6
    0xF0, 0x10, 0x20, 0x40, 0x40, // 7
    0xF0, 0x90, 0xF0, 0x90, 0xF0, // 8
    0xF0, 0x90, 0xF0, 0x10, 0xF0, // 9
    0xF0, 0x90, 0xF0, 0x90, 0x90, // A
    0xE0, 0x90, 0xE0, 0x90, 0xE0, // B
    0xF0, 0x80, 0x80, 0x80, 0xF0, // C
    0xE0, 0x90, 0x90, 0x90, 0xE0, // D
    0xF0, 0x80, 0xF0, 0x80, 0xF0, // E
    0xF0, 0x80, 0xF0, 0x80, 0x80, // F
];

/// Memory with the font copied to 0x50..=0x9F.
pub open spec fn with_font(mem: Seq<u8>) -> Seq<u8> {
    Seq::new(
        mem.len(),
        |i: int|
            if 0x50 <= i < 0xA0 {
                FONT_SET[i - 0x50]
            } else {
                mem[i]
            },
    )
}

} // verus!
