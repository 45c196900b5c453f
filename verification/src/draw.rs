//! The mathematical model of sprite drawing: a sprite is `n` bytes read
//! from memory, each byte one row of 8 pixels, XOR-ed onto the 64x32
//! display with wrapping coordinates. Every pixel of the grid is covered by
//! at most one sprite cell, so the effect is a pointwise XOR.

use vstd::prelude::*;

verus! {

/// The divisor that isolates bit `c` of a sprite row, counting bit 0 as
/// the leftmost (most significant) pixel.
pub open spec fn col_weight(c: int) -> int {
    if c == 0 {
        128
    } else if c == 1 {
        64
    } else if c == 2 {
        32
    } else if c == 3 {
        16
    } else if c == 4 {
        8
    } else if c == 5 {
        4
    } else if c == 6 {
        2
    } else {
        1
    }
}

/// Executable counterpart of `col_weight`.
pub fn col_weight_u8(c: usize) -> (w: u8)
    requires
        c < 8,
    ensures
        w as int == col_weight(c as int),
        w >= 1,
{
    match c {
        0 => 128,
        1 => 64,
        2 => 32,
        3 => 16,
        4 => 8,
        5 => 4,
        6 => 2,
        _ => 1,
    }
}

/// True when pixel `c` (0 = leftmost) of sprite row `b` is set.
pub open spec fn sprite_bit(b: u8, c: int) -> bool {
    (b as int / col_weight(c)) % 2 == 1
}

/// Row-major index of the display pixel that sprite cell (`r`, `c`) lands
/// on when the sprite is drawn at (`vx`, `vy`): both coordinates wrap.
pub open spec fn pix_index(vx: int, vy: int, r: int, c: int) -> int {
    ((vy + r) % 32) * 64 + ((vx + c) % 64)
}

/// True when some set sprite cell among the first `k` full rows, plus the
/// first `j` columns of row `k`, lands on pixel `p`. The sprite's rows sit
/// in memory `ram` starting at address `i`.
pub open spec fn covered_part(
    ram: Seq<u8>,
    i: int,
    vx: int,
    vy: int,
    k: int,
    j: int,
    p: int,
) -> bool {
    exists|r: int, c: int|
        #![trigger pix_index(vx, vy, r, c)]
        0 <= r && 0 <= c < 8 && (r < k || (r == k && c < j)) && p == pix_index(vx, vy, r, c)
            && sprite_bit(ram[i + r], c)
}

/// True when some set cell of the whole `n`-row sprite lands on pixel `p`.
pub open spec fn covered(ram: Seq<u8>, i: int, vx: int, vy: int, n: int, p: int) -> bool {
    covered_part(ram, i, vx, vy, n, 0, p)
}

/// The display after XOR-drawing the sprite onto `s`.
pub open spec fn draw_screen(
    s: Seq<bool>,
    ram: Seq<u8>,
    i: int,
    vx: int,
    vy: int,
    n: int,
) -> Seq<bool> {
    Seq::new(2048, |p: int| s[p] != covered(ram, i, vx, vy, n, p))
}

/// True when the draw erases some pixel: a set sprite cell lands on a
/// pixel that was already on. This is what the draw instruction reports in
/// the flag register.
pub open spec fn draw_erases(s: Seq<bool>, ram: Seq<u8>, i: int, vx: int, vy: int, n: int) -> bool {
    exists|p: int| 0 <= p < 2048 && s[p] && covered(ram, i, vx, vy, n, p)
}

/// Two distinct cells of one sprite never land on the same pixel, because
/// a sprite is at most 16 rows tall (under the height of the grid) and 8
/// columns wide (under its width).
pub proof fn lemma_pix_injective(vx: int, vy: int, r1: int, c1: int, r2: int, c2: int)
    requires
        0 <= vx,
        0 <= vy,
        0 <= r1 < 16,
        0 <= c1 < 8,
        0 <= r2 < 16,
        0 <= c2 < 8,
        pix_index(vx, vy, r1, c1) == pix_index(vx, vy, r2, c2),
    ensures
        r1 == r2,
        c1 == c2,
{
    let y1 = (vy + r1) % 32;
    let y2 = (vy + r2) % 32;
    let x1 = (vx + c1) % 64;
    let x2 = (vx + c2) % 64;
    assert(0 <= y1 < 32 && 0 <= y2 < 32 && 0 <= x1 < 64 && 0 <= x2 < 64);
    assert(y1 == y2 && x1 == x2);
    let qy1 = (vy + r1) / 32;
    let qy2 = (vy + r2) / 32;
    assert(vy + r1 == 32 * qy1 + y1);
    assert(vy + r2 == 32 * qy2 + y2);
    assert(r1 - r2 == 32 * qy1 - 32 * qy2);
    assert(r1 == r2);
    let qx1 = (vx + c1) / 64;
    let qx2 = (vx + c2) / 64;
    assert(vx + c1 == 64 * qx1 + x1);
    assert(vx + c2 == 64 * qx2 + x2);
    assert(c1 - c2 == 64 * qx1 - 64 * qx2);
    assert(c1 == c2);
}

/// Law: drawing the same sprite at the same location twice restores the
/// display exactly, because every touched pixel is XOR-flipped twice.
pub proof fn lemma_draw_twice(s: Seq<bool>, ram: Seq<u8>, i: int, vx: int, vy: int, n: int)
    requires
        s.len() == 2048,
    ensures
        draw_screen(draw_screen(s, ram, i, vx, vy, n), ram, i, vx, vy, n) == s,
{
    let s1 = draw_screen(s, ram, i, vx, vy, n);
    let s2 = draw_screen(s1, ram, i, vx, vy, n);
    assert forall|p: int| 0 <= p < 2048 implies s2[p] == s[p] by {
        assert(s1[p] == (s[p] != covered(ram, i, vx, vy, n, p)));
    }
    assert(s2 =~= s);
}

} // verus!
