//! The font sprite table: 16 glyphs for the hexadecimal digits 0-F, each 5
//! bytes tall and 8 pixels wide, loaded at address 0 of memory on
//! construction and on reset.

use vstd::prelude::*;

verus! {

/// Number of bytes in the font table: 16 glyphs of 5 rows each.
pub const FONT_BYTES: usize = 80;

/// Row `row` (0-4) of the glyph for hexadecimal digit `glyph` (0-15).
pub open spec fn spec_glyph_row(glyph: int, row: int) -> u8 {
    let rows: Seq<u8> = if glyph == 0x0 {
        seq![0xF0, 0x90, 0x90, 0x90, 0xF0]
    } else if glyph == 0x1 {
        seq![0x20, 0x60, 0x20, 0x20, 0x70]
    } else if glyph == 0x2 {
        seq![0xF0, 0x10, 0xF0, 0x80, 0xF0]
    } else if glyph == 0x3 {
        seq![0xF0, 0x10, 0xF0, 0x10, 0xF0]
    } else if glyph == 0x4 {
        seq![0x90, 0x90, 0xF0, 0x10, 0x10]
    } else if glyph == 0x5 {
        seq![0xF0, 0x80, 0xF0, 0x10, 0xF0]
    } else if glyph == 0x6 {
        seq![0xF0, 0x80, 0xF0, 0x90, 0xF0]
    } else if glyph == 0x7 {
        seq![0xF0, 0x10, 0x20, 0x40, 0x40]
    } else if glyph == 0x8 {
        seq![0xF0, 0x90, 0xF0, 0x90, 0xF0]
    } else if glyph == 0x9 {
        seq![0xF0, 0x90, 0xF0, 0x10, 0xF0]
    } else if glyph == 0xA {
        seq![0xF0, 0x90, 0xF0, 0x90, 0x90]
    } else if glyph == 0xB {
        seq![0xE0, 0x90, 0xE0, 0x90, 0xE0]
    } else if glyph == 0xC {
        seq![0xF0, 0x80, 0x80, 0x80, 0xF0]
    } else if glyph == 0xD {
        seq![0xE0, 0x90, 0x90, 0x90, 0xE0]
    } else if glyph == 0xE {
        seq![0xF0, 0x80, 0xF0, 0x80, 0xF0]
    } else {
        seq![0xF0, 0x80, 0xF0, 0x80, 0x80]
    };
    rows[row]
}

/// The whole 80-byte font table as it sits at the bottom of memory.
pub open spec fn font_seq() -> Seq<u8> {
    Seq::new(FONT_BYTES as nat, |k: int| spec_glyph_row(k / 5, k % 5))
}

/// Byte `k` of the font table.
pub fn font_byte(k: usize) -> (r: u8)
    requires
        k < FONT_BYTES,
    ensures
        r == font_seq()[k as int],
{
    let glyph: usize = k / 5;
    let row: usize = k % 5;
    match glyph {
        0x0 => match row {
            0 => 0xF0,
            1 => 0x90,
            2 => 0x90,
            3 => 0x90,
            _ => 0xF0,
        },
        0x1 => match row {
            0 => 0x20,
            1 => 0x60,
            2 => 0x20,
            3 => 0x20,
            _ => 0x70,
        },
        0x2 => match row {
            0 => 0xF0,
            1 => 0x10,
            2 => 0xF0,
            3 => 0x80,
            _ => 0xF0,
        },
        0x3 => match row {
            0 => 0xF0,
            1 => 0x10,
            2 => 0xF0,
            3 => 0x10,
            _ => 0xF0,
        },
        0x4 => match row {
            0 => 0x90,
            1 => 0x90,
            2 => 0xF0,
            3 => 0x10,
            _ => 0x10,
        },
        0x5 => match row {
            0 => 0xF0,
            1 => 0x80,
            2 => 0xF0,
            3 => 0x10,
            _ => 0xF0,
        },
        0x6 => match row {
            0 => 0xF0,
            1 => 0x80,
            2 => 0xF0,
            3 => 0x90,
            _ => 0xF0,
        },
        0x7 => match row {
            0 => 0xF0,
            1 => 0x10,
            2 => 0x20,
            3 => 0x40,
            _ => 0x40,
        },
        0x8 => match row {
            0 => 0xF0,
            1 => 0x90,
            2 => 0xF0,
            3 => 0x90,
            _ => 0xF0,
        },
        0x9 => match row {
            0 => 0xF0,
            1 => 0x90,
            2 => 0xF0,
            3 => 0x10,
            _ => 0xF0,
        },
        0xA => match row {
            0 => 0xF0,
            1 => 0x90,
            2 => 0xF0,
            3 => 0x90,
            _ => 0x90,
        },
        0xB => match row {
            0 => 0xE0,
            1 => 0x90,
            2 => 0xE0,
            3 => 0x90,
            _ => 0xE0,
        },
        0xC => match row {
            0 => 0xF0,
            1 => 0x80,
            2 => 0x80,
            3 => 0x80,
            _ => 0xF0,
        },
        0xD => match row {
            0 => 0xE0,
            1 => 0x90,
            2 => 0x90,
            3 => 0x90,
            _ => 0xE0,
        },
        0xE => match row {
            0 => 0xF0,
            1 => 0x80,
            2 => 0xF0,
            3 => 0x80,
            _ => 0xF0,
        },
        _ => match row {
            0 => 0xF0,
            1 => 0x80,
            2 => 0xF0,
            3 => 0x80,
            _ => 0x80,
        },
    }
}

} // verus!
