use vstd::prelude::*;

verus! {

/// Address of the first byte of the built-in glyphs.
pub const FONT_START: u16 = 0x50;

/// Number of bytes in one glyph: five rows of eight pixels, of which the left
/// four are used.
pub const GLYPH_HEIGHT: u16 = 5;

/// The five rows of the glyph that shows one hexadecimal digit.
pub open spec fn glyph(digit: int) -> Seq<u8> {
    if digit == 0x0 {
        seq![0xF0u8, 0x90u8, 0x90u8, 0x90u8, 0xF0u8]
    } else if digit == 0x1 {
        seq![0x20u8, 0x60u8, 0x20u8, 0x20u8, 0x70u8]
    } else if digit == 0x2 {
        seq![0xF0u8, 0x10u8, 0xF0u8, 0x80u8, 0xF0u8]
    } else if digit == 0x3 {
        seq![0xF0u8, 0x10u8, 0xF0u8, 0x10u8, 0xF0u8]
    } else if digit == 0x4 {
        seq![0x90u8, 0x90u8, 0xF0u8, 0x10u8, 0x10u8]
    } else if digit == 0x5 {
        seq![0xF0u8, 0x80u8, 0xF0u8, 0x10u8, 0xF0u8]
    } else if digit == 0x6 {
        seq![0xF0u8, 0x80u8, 0xF0u8, 0x90u8, 0xF0u8]
    } else if digit == 0x7 {
        seq![0xF0u8, 0x10u8, 0x20u8, 0x40u8, 0x40u8]
    } else if digit == 0x8 {
        seq![0xF0u8, 0x90u8, 0xF0u8, 0x90u8, 0xF0u8]
    } else if digit == 0x9 {
        seq![0xF0u8, 0x90u8, 0xF0u8, 0x10u8, 0xF0u8]
    } else if digit == 0xA {
        seq![0xF0u8, 0x90u8, 0xF0u8, 0x90u8, 0x90u8]
    } else if digit == 0xB {
        seq![0xE0u8, 0x90u8, 0xE0u8, 0x90u8, 0xE0u8]
    } else if digit == 0xC {
        seq![0xF0u8, 0x80u8, 0x80u8, 0x80u8, 0xF0u8]
    } else if digit == 0xD {
        seq![0xE0u8, 0x90u8, 0x90u8, 0x90u8, 0xE0u8]
    } else if digit == 0xE {
        seq![0xF0u8, 0x80u8, 0xF0u8, 0x80u8, 0xF0u8]
    } else {
        seq![0xF0u8, 0x80u8, 0xF0u8, 0x80u8, 0x80u8]
    }
}

/// Byte `i` of the glyph table: the sixteen glyphs laid end to end.
pub open spec fn font_byte(i: int) -> u8 {
    glyph(i / 5)[i % 5]
}

/// Address of the glyph for a digit.
pub open spec fn glyph_address(digit: int) -> int {
    FONT_START as int + 5 * digit
}

/// What a fresh memory holds at an address: the glyph table from
/// `FONT_START` on, zero everywhere else.
pub open spec fn initial_byte(addr: int) -> u8 {
    if FONT_START as int <= addr < FONT_START as int + 80 {
        font_byte(addr - FONT_START as int)
    } else {
        0u8
    }
}

/// The glyph table as one array, in the order in which it lies in memory.
pub fn font_table() -> (table: [u8; 80])
    ensures
        forall|i: int| 0 <= i < 80 ==> table[i] == font_byte(i),
{
    let table: [u8; 80] = [
        0xF0, 0x90, 0x90, 0x90, 0xF0,
        0x20, 0x60, 0x20, 0x20, 0x70,
        0xF0, 0x10, 0xF0, 0x80, 0xF0,
        0xF0, 0x10, 0xF0, 0x10, 0xF0,
        0x90, 0x90, 0xF0, 0x10, 0x10,
        0xF0, 0x80, 0xF0, 0x10, 0xF0,
        0xF0, 0x80, 0xF0, 0x90, 0xF0,
        0xF0, 0x10, 0x20, 0x40, 0x40,
        0xF0, 0x90, 0xF0, 0x90, 0xF0,
        0xF0, 0x90, 0xF0, 0x10, 0xF0,
        0xF0, 0x90, 0xF0, 0x90, 0x90,
        0xE0, 0x90, 0xE0, 0x90, 0xE0,
        0xF0, 0x80, 0x80, 0x80, 0xF0,
        0xE0, 0x90, 0x90, 0x90, 0xE0,
        0xF0, 0x80, 0xF0, 0x80, 0xF0,
        0xF0, 0x80, 0xF0, 0x80, 0x80,
    ];
    table
}

} // verus!
