//! Decoding of 16-bit instruction words into the fixed instruction set.
//! The high nibble selects the family; the remaining nibbles carry register
//! indices (`x`, `y`), a 4-bit count (`n`), an 8-bit immediate (`kk`) or a
//! 12-bit address. A word matching none of the documented patterns decodes
//! to `None` and is reported by the interpreter as `UnknownOpcode`.

use vstd::prelude::*;

verus! {

/// One decoded instruction. Register indices are always below 16,
/// addresses below 0x1000 and row counts below 16; see `wf`.
#[derive(Clone, Copy, Debug, PartialEq, Eq, Structural)]
pub enum Instr {
    /// 00E0: clear the display.
    Cls,
    /// 00EE: return from a subroutine.
    Ret,
    /// 1addr: unconditional jump.
    Jump(u16),
    /// 2addr: call a subroutine.
    Call(u16),
    /// 3xkk: skip the next instruction if `Vx == kk`.
    SkipEqImm(u8, u8),
    /// 4xkk: skip the next instruction if `Vx != kk`.
    SkipNeImm(u8, u8),
    /// 5xy0: skip the next instruction if `Vx == Vy`.
    SkipEqReg(u8, u8),
    /// 6xkk: `Vx = kk`.
    SetImm(u8, u8),
    /// 7xkk: `Vx = Vx + kk`, wrapping, no flag.
    AddImm(u8, u8),
    /// 8xy0: `Vx = Vy`.
    Move(u8, u8),
    /// 8xy1: `Vx = Vx | Vy`.
    Or(u8, u8),
    /// 8xy2: `Vx = Vx & Vy`.
    And(u8, u8),
    /// 8xy3: `Vx = Vx ^ Vy`.
    Xor(u8, u8),
    /// 8xy4: `Vx = Vx + Vy`, `VF` records the carry.
    AddReg(u8, u8),
    /// 8xy5: `Vx = Vx - Vy`, `VF = 1` when no borrow.
    SubReg(u8, u8),
    /// 8xy6: `VF = Vx & 1`, then `Vx = Vx >> 1`.
    Shr(u8),
    /// 8xy7: `Vx = Vy - Vx`, `VF = 1` when no borrow.
    SubN(u8, u8),
    /// 8xyE: `VF` takes the high bit of `Vx`, then `Vx = Vx << 1`.
    Shl(u8),
    /// 9xy0: skip the next instruction if `Vx != Vy`.
    SkipNeReg(u8, u8),
    /// Aaddr: `I = addr`.
    SetIndex(u16),
    /// Baddr: `pc = addr + V0`.
    JumpV0(u16),
    /// Cxkk: `Vx = random byte & kk`.
    Random(u8, u8),
    /// Dxyn: draw an `n`-row sprite from `I` at `(Vx, Vy)`.
    Draw(u8, u8, u8),
    /// Ex9E: skip the next instruction if key `Vx` is pressed.
    SkipKeyPressed(u8),
    /// ExA1: skip the next instruction if key `Vx` is not pressed.
    SkipKeyReleased(u8),
    /// Fx07: `Vx = delay timer`.
    ReadDelay(u8),
    /// Fx0A: suspend until a key is pressed, then store its index in `Vx`.
    WaitKey(u8),
    /// Fx15: `delay timer = Vx`.
    SetDelay(u8),
    /// Fx18: `sound timer = Vx`.
    SetSound(u8),
    /// Fx1E: `I = I + Vx`, wrapping.
    AddIndex(u8),
    /// Fx29: `I` points at the font glyph for the low nibble of `Vx`.
    FontChar(u8),
    /// Fx33: store the decimal digits of `Vx` at `I`, `I+1`, `I+2`.
    StoreBcd(u8),
    /// Fx55: store `V0..=Vx` into memory starting at `I`.
    StoreRegs(u8),
    /// Fx65: load `V0..=Vx` from memory starting at `I`.
    LoadRegs(u8),
}

impl Instr {
    /// Bounds that every decoded instruction satisfies: register indices
    /// are nibbles, addresses are 12 bits, sprite heights are nibbles.
    pub open spec fn wf(self) -> bool {
        match self {
            Instr::Cls => true,
            Instr::Ret => true,
            Instr::Jump(a) => a < 0x1000,
            Instr::Call(a) => a < 0x1000,
            Instr::SkipEqImm(x, _kk) => x < 16,
            Instr::SkipNeImm(x, _kk) => x < 16,
            Instr::SkipEqReg(x, y) => x < 16 && y < 16,
            Instr::SetImm(x, _kk) => x < 16,
            Instr::AddImm(x, _kk) => x < 16,
            Instr::Move(x, y) => x < 16 && y < 16,
            Instr::Or(x, y) => x < 16 && y < 16,
            Instr::And(x, y) => x < 16 && y < 16,
            Instr::Xor(x, y) => x < 16 && y < 16,
            Instr::AddReg(x, y) => x < 16 && y < 16,
            Instr::SubReg(x, y) => x < 16 && y < 16,
            Instr::Shr(x) => x < 16,
            Instr::SubN(x, y) => x < 16 && y < 16,
            Instr::Shl(x) => x < 16,
            Instr::SkipNeReg(x, y) => x < 16 && y < 16,
            Instr::SetIndex(a) => a < 0x1000,
            Instr::JumpV0(a) => a < 0x1000,
            Instr::Random(x, _kk) => x < 16,
            Instr::Draw(x, y, n) => x < 16 && y < 16 && n < 16,
            Instr::SkipKeyPressed(x) => x < 16,
            Instr::SkipKeyReleased(x) => x < 16,
            Instr::ReadDelay(x) => x < 16,
            Instr::WaitKey(x) => x < 16,
            Instr::SetDelay(x) => x < 16,
            Instr::SetSound(x) => x < 16,
            Instr::AddIndex(x) => x < 16,
            Instr::FontChar(x) => x < 16,
            Instr::StoreBcd(x) => x < 16,
            Instr::StoreRegs(x) => x < 16,
            Instr::LoadRegs(x) => x < 16,
        }
    }
}

/// What `decode` returns for every word: the unique documented pattern the
/// word matches, or `None`.
pub open spec fn spec_decode(w: u16) -> Option<Instr> {
    let op = w / 0x1000;
    let x = ((w / 0x100) % 0x10) as u8;
    let y = ((w / 0x10) % 0x10) as u8;
    let n = (w % 0x10) as u8;
    let kk = (w % 0x100) as u8;
    let addr = w % 0x1000;
    if w == 0x00E0 {
        Some(Instr::Cls)
    } else if w == 0x00EE {
        Some(Instr::Ret)
    } else if op == 0x1 {
        Some(Instr::Jump(addr))
    } else if op == 0x2 {
        Some(Instr::Call(addr))
    } else if op == 0x3 {
        Some(Instr::SkipEqImm(x, kk))
    } else if op == 0x4 {
        Some(Instr::SkipNeImm(x, kk))
    } else if op == 0x5 && n == 0 {
        Some(Instr::SkipEqReg(x, y))
    } else if op == 0x6 {
        Some(Instr::SetImm(x, kk))
    } else if op == 0x7 {
        Some(Instr::AddImm(x, kk))
    } else if op == 0x8 && n == 0x0 {
        Some(Instr::Move(x, y))
    } else if op == 0x8 && n == 0x1 {
        Some(Instr::Or(x, y))
    } else if op == 0x8 && n == 0x2 {
        Some(Instr::And(x, y))
    } else if op == 0x8 && n == 0x3 {
        Some(Instr::Xor(x, y))
    } else if op == 0x8 && n == 0x4 {
        Some(Instr::AddReg(x, y))
    } else if op == 0x8 && n == 0x5 {
        Some(Instr::SubReg(x, y))
    } else if op == 0x8 && n == 0x6 {
        Some(Instr::Shr(x))
    } else if op == 0x8 && n == 0x7 {
        Some(Instr::SubN(x, y))
    } else if op == 0x8 && n == 0xE {
        Some(Instr::Shl(x))
    } else if op == 0x9 && n == 0 {
        Some(Instr::SkipNeReg(x, y))
    } else if op == 0xA {
        Some(Instr::SetIndex(addr))
    } else if op == 0xB {
        Some(Instr::JumpV0(addr))
    } else if op == 0xC {
        Some(Instr::Random(x, kk))
    } else if op == 0xD {
        Some(Instr::Draw(x, y, n))
    } else if op == 0xE && kk == 0x9E {
        Some(Instr::SkipKeyPressed(x))
    } else if op == 0xE && kk == 0xA1 {
        Some(Instr::SkipKeyReleased(x))
    } else if op == 0xF && kk == 0x07 {
        Some(Instr::ReadDelay(x))
    } else if op == 0xF && kk == 0x0A {
        Some(Instr::WaitKey(x))
    } else if op == 0xF && kk == 0x15 {
        Some(Instr::SetDelay(x))
    } else if op == 0xF && kk == 0x18 {
        Some(Instr::SetSound(x))
    } else if op == 0xF && kk == 0x1E {
        Some(Instr::AddIndex(x))
    } else if op == 0xF && kk == 0x29 {
        Some(Instr::FontChar(x))
    } else if op == 0xF && kk == 0x33 {
        Some(Instr::StoreBcd(x))
    } else if op == 0xF && kk == 0x55 {
        Some(Instr::StoreRegs(x))
    } else if op == 0xF && kk == 0x65 {
        Some(Instr::LoadRegs(x))
    } else {
        None
    }
}

/// Every instruction that decodes at all satisfies the nibble bounds.
pub proof fn lemma_decode_wf(w: u16)
    ensures
        spec_decode(w) matches Some(i) ==> i.wf(),
{
}

/// Splits a word into the documented patterns.
pub fn decode(w: u16) -> (r: Option<Instr>)
    ensures
        r == spec_decode(w),
{
    let op = w / 0x1000;
    let x = ((w / 0x100) % 0x10) as u8;
    let y = ((w / 0x10) % 0x10) as u8;
    let n = (w % 0x10) as u8;
    let kk = (w % 0x100) as u8;
    let addr = w % 0x1000;
    if w == 0x00E0 {
        Some(Instr::Cls)
    } else if w == 0x00EE {
        Some(Instr::Ret)
    } else if op == 0x1 {
        Some(Instr::Jump(addr))
    } else if op == 0x2 {
        Some(Instr::Call(addr))
    } else if op == 0x3 {
        Some(Instr::SkipEqImm(x, kk))
    } else if op == 0x4 {
        Some(Instr::SkipNeImm(x, kk))
    } else if op == 0x5 && n == 0 {
        Some(Instr::SkipEqReg(x, y))
    } else if op == 0x6 {
        Some(Instr::SetImm(x, kk))
    } else if op == 0x7 {
        Some(Instr::AddImm(x, kk))
    } else if op == 0x8 && n == 0x0 {
        Some(Instr::Move(x, y))
    } else if op == 0x8 && n == 0x1 {
        Some(Instr::Or(x, y))
    } else if op == 0x8 && n == 0x2 {
        Some(Instr::And(x, y))
    } else if op == 0x8 && n == 0x3 {
        Some(Instr::Xor(x, y))
    } else if op == 0x8 && n == 0x4 {
        Some(Instr::AddReg(x, y))
    } else if op == 0x8 && n == 0x5 {
        Some(Instr::SubReg(x, y))
    } else if op == 0x8 && n == 0x6 {
        Some(Instr::Shr(x))
    } else if op == 0x8 && n == 0x7 {
        Some(Instr::SubN(x, y))
    } else if op == 0x8 && n == 0xE {
        Some(Instr::Shl(x))
    } else if op == 0x9 && n == 0 {
        Some(Instr::SkipNeReg(x, y))
    } else if op == 0xA {
        Some(Instr::SetIndex(addr))
    } else if op == 0xB {
        Some(Instr::JumpV0(addr))
    } else if op == 0xC {
        Some(Instr::Random(x, kk))
    } else if op == 0xD {
        Some(Instr::Draw(x, y, n))
    } else if op == 0xE && kk == 0x9E {
        Some(Instr::SkipKeyPressed(x))
    } else if op == 0xE && kk == 0xA1 {
        Some(Instr::SkipKeyReleased(x))
    } else if op == 0xF && kk == 0x07 {
        Some(Instr::ReadDelay(x))
    } else if op == 0xF && kk == 0x0A {
        Some(Instr::WaitKey(x))
    } else if op == 0xF && kk == 0x15 {
        Some(Instr::SetDelay(x))
    } else if op == 0xF && kk == 0x18 {
        Some(Instr::SetSound(x))
    } else if op == 0xF && kk == 0x1E {
        Some(Instr::AddIndex(x))
    } else if op == 0xF && kk == 0x29 {
        Some(Instr::FontChar(x))
    } else if op == 0xF && kk == 0x33 {
        Some(Instr::StoreBcd(x))
    } else if op == 0xF && kk == 0x55 {
        Some(Instr::StoreRegs(x))
    } else if op == 0xF && kk == 0x65 {
        Some(Instr::LoadRegs(x))
    } else {
        None
    }
}

} // verus!
