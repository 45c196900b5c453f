//! The interpreter core: memory, registers, call stack, timers, display
//! and key state, driven by `tick` (one fetch-decode-execute step) and
//! `tick_timers` (one 60 Hz timer tick). The two entry points are
//! independent: timers never touch the program counter or registers, and
//! instruction execution never consults the wall clock.

use vstd::prelude::*;

use crate::draw::{
    col_weight_u8,
    covered_part,
    draw_erases,
    draw_screen,
    lemma_pix_injective,
    pix_index,
    sprite_bit,
};
use crate::font::{font_seq, font_byte, FONT_BYTES};
use crate::instr::{Instr, decode, lemma_decode_wf, spec_decode};
use crate::stack::Stack;

verus! {

/// Bytes of addressable memory.
pub const RAM_SIZE: usize = 4096;

/// Number of general-purpose registers.
pub const NUM_REGS: usize = 16;

/// Number of logical keys.
pub const NUM_KEYS: usize = 16;

/// Display width in pixels.
pub const SCREEN_WIDTH: usize = 64;

/// Display height in pixels.
pub const SCREEN_HEIGHT: usize = 32;

/// Pixels of the display.
pub const SCREEN_LEN: usize = 2048;

/// Call stack capacity used by `Emu::new`.
pub const STACK_SIZE: usize = 16;

/// Address at which program images are loaded and where the program
/// counter starts.
pub const START_ADDR: u16 = 0x200;

/// Largest program image that fits between the load address and the end
/// of memory.
pub const MAX_PROGRAM: usize = 3584;

/// Why a step of the interpreter failed. No error is silently swallowed:
/// every failure of `tick` is one of these.
#[derive(Clone, Copy, Debug, PartialEq, Eq, Structural)]
pub enum InterpreterError {
    /// A subroutine call found the stack at capacity.
    StackOverflow,
    /// A subroutine return found the stack empty.
    StackUnderflow,
    /// A memory access reached past the end of memory.
    OutOfBounds,
    /// The fetched word matches no documented pattern; carries the word
    /// and the address it was fetched from.
    UnknownOpcode(u16, u16),
}

/// The abstract state of the machine: every contract of the interpreter
/// is stated over this view.
#[verifier::ext_equal]
pub ghost struct St {
    pub pc: u16,
    pub ram: Seq<u8>,
    pub screen: Seq<bool>,
    pub v: Seq<u8>,
    pub i: u16,
    pub stack: Seq<u16>,
    pub stack_max: Option<usize>,
    pub keys: Seq<bool>,
    pub dt: u8,
    pub st: u8,
    pub waiting: Option<u8>,
    pub rng: u16,
}

/// The interpreter. It exclusively owns all machine state; external
/// collaborators reach it only through the public methods.
pub struct Emu {
    pub pc: u16,
    pub ram: Vec<u8>,
    pub screen: Vec<bool>,
    pub v_reg: Vec<u8>,
    pub i_reg: u16,
    pub stack: Stack,
    pub keys: Vec<bool>,
    pub dt: u8,
    pub st: u8,
    /// `Some(x)` while a key-wait instruction is suspended on register
    /// `x`; cleared when a key press resumes it.
    pub waiting: Option<u8>,
    /// State of the deterministic pseudo-random generator behind the
    /// random instruction.
    pub rng: u16,
}

impl View for Emu {
    type V = St;

    open spec fn view(&self) -> St {
        St {
            pc: self.pc,
            ram: self.ram@,
            screen: self.screen@,
            v: self.v_reg@,
            i: self.i_reg,
            stack: self.stack.data@,
            stack_max: self.stack.max,
            keys: self.keys@,
            dt: self.dt,
            st: self.st,
            waiting: self.waiting,
            rng: self.rng,
        }
    }
}

/// The 16-bit big-endian word at address `a` of memory.
pub open spec fn word_at(ram: Seq<u8>, a: int) -> u16 {
    (ram[a] * 256 + ram[a + 1]) as u16
}

/// `n` reduced to 8 bits, as wrapping register arithmetic does.
pub open spec fn wrap8(n: int) -> u8 {
    (n % 256) as u8
}

/// `n` reduced to 16 bits, as wrapping address arithmetic does.
pub open spec fn wrap16(n: int) -> u16 {
    (n % 0x10000) as u16
}

/// Successor of the pseudo-random generator state: a 16-bit linear
/// congruential step, fixed so that runs are reproducible.
pub open spec fn next_rng(s: u16) -> u16 {
    ((s as int * 25173 + 13849) % 0x10000) as u16
}

/// The byte handed to the random instruction for generator state `s`.
pub open spec fn rng_byte(s: u16) -> u8 {
    (s as int % 256) as u8
}

/// Index of the first pressed key at or after `k`, or 16 when none is.
pub open spec fn min_pressed_from(keys: Seq<bool>, k: int) -> int
    decreases 16 - k,
{
    if k < 0 || k >= 16 {
        16
    } else if keys[k] {
        k
    } else {
        min_pressed_from(keys, k + 1)
    }
}

/// Index of the lowest pressed key, or 16 when none is pressed.
pub open spec fn min_pressed(keys: Seq<bool>) -> int {
    min_pressed_from(keys, 0)
}

/// The machine state established by construction and by `reset`: font at
/// the bottom of memory, everything else zeroed, the program counter at
/// the load address.
pub open spec fn st_initial() -> St {
    St {
        pc: START_ADDR,
        ram: Seq::new(4096, |a: int| if a < 80 { font_seq()[a] } else { 0u8 }),
        screen: Seq::new(2048, |p: int| false),
        v: Seq::new(16, |j: int| 0u8),
        i: 0,
        stack: Seq::empty(),
        stack_max: Some(16),
        keys: Seq::new(16, |j: int| false),
        dt: 0,
        st: 0,
        waiting: None,
        rng: 1,
    }
}

impl Emu {
    /// Structural invariant: the containers have their fixed sizes and a
    /// suspended key wait names a real register.
    pub open spec fn wf(self) -> bool {
        &&& self.ram@.len() == 4096
        &&& self.screen@.len() == 2048
        &&& self.v_reg@.len() == 16
        &&& self.keys@.len() == 16
        &&& (self.waiting matches Some(x) ==> x < 16)
    }

    /// A fresh machine in the initial state.
    pub fn new() -> (r: Emu)
        ensures
            r.wf(),
            r@ == st_initial(),
    {
        let mut ram: Vec<u8> = Vec::new();
        let mut k: usize = 0;
        while k < FONT_BYTES
            invariant
                ram@.len() == k,
                k <= 80,
                forall|a: int| 0 <= a < k ==> ram@[a] == font_seq()[a],
            decreases 80 - k,
        {
            ram.push(font_byte(k));
            k += 1;
        }
        while k < RAM_SIZE
            invariant
                ram@.len() == k,
                80 <= k <= 4096,
                forall|a: int| 0 <= a < 80 ==> ram@[a] == font_seq()[a],
                forall|a: int| 80 <= a < k ==> ram@[a] == 0u8,
            decreases 4096 - k,
        {
            ram.push(0u8);
            k += 1;
        }
        let screen = falses(SCREEN_LEN);
        let v_reg = zero_bytes(NUM_REGS);
        let keys = falses(NUM_KEYS);
        let r = Emu {
            pc: START_ADDR,
            ram,
            screen,
            v_reg,
            i_reg: 0,
            stack: Stack::new(Some(STACK_SIZE)),
            keys,
            dt: 0,
            st: 0,
            waiting: None,
            rng: 1,
        };
        proof {
            assert(r@.ram =~= st_initial().ram);
            assert(r@ =~= st_initial());
        }
        r
    }

    /// A fresh machine whose call stack holds at most `max` return
    /// addresses, or is unbounded for `None`; everything else as `new`.
    /// `reset` returns the machine to the default capacity.
    pub fn with_stack_limit(max: Option<usize>) -> (r: Emu)
        ensures
            r.wf(),
            r@ == (St { stack_max: max, ..st_initial() }),
    {
        let mut e = Emu::new();
        e.stack = Stack::new(max);
        e
    }

    /// Atomically restores the initial state: font reloaded, memory
    /// zeroed beyond it, registers, timers, stack, keys and display
    /// cleared, program counter back at the load address.
    pub fn reset(&mut self)
        ensures
            final(self).wf(),
            final(self)@ == st_initial(),
    {
        *self = Emu::new();
    }

    /// One 60 Hz timer tick: each counter falls by one, floored at zero.
    /// Never touches the program counter, registers or any other state,
    /// so it may be interleaved freely with `tick`.
    pub fn tick_timers(&mut self)
        ensures
            final(self)@ == (St {
                dt: if old(self).dt > 0 { (old(self).dt - 1) as u8 } else { 0u8 },
                st: if old(self).st > 0 { (old(self).st - 1) as u8 } else { 0u8 },
                ..old(self)@
            }),
    {
        if self.dt > 0 {
            self.dt = self.dt - 1;
        }
        if self.st > 0 {
            self.st = self.st - 1;
        }
    }

    /// Writes a program image starting at the load address; fails with
    /// `OutOfBounds`, changing nothing, when the image does not fit.
    pub fn load(&mut self, data: &Vec<u8>) -> (r: Result<(), InterpreterError>)
        requires
            old(self).wf(),
        ensures
            final(self).wf(),
            data@.len() > 3584 ==> r == Err::<(), InterpreterError>(InterpreterError::OutOfBounds)
                && final(self)@ == old(self)@,
            data@.len() <= 3584 ==> r == Ok::<(), InterpreterError>(())
                && final(self)@ == (St {
                    ram: loaded_ram(old(self)@.ram, data@),
                    ..old(self)@
                }),
    {
        if data.len() > MAX_PROGRAM {
            return Err(InterpreterError::OutOfBounds);
        }
        let mut j: usize = 0;
        while j < data.len()
            invariant
                old(self).wf(),
                self.ram@.len() == 4096,
                j <= data@.len() <= 3584,
                forall|a: int| 0x200 <= a < 0x200 + j ==> self.ram@[a] == data@[a - 0x200],
                forall|a: int|
                    0 <= a < 4096 && !(0x200 <= a < 0x200 + j) ==> self.ram@[a] == old(self)@.ram[a],
                self.pc == old(self).pc,
                self.screen@ == old(self)@.screen,
                self.v_reg@ == old(self)@.v,
                self.i_reg == old(self).i_reg,
                self.stack.data@ == old(self)@.stack,
                self.stack.max == old(self)@.stack_max,
                self.keys@ == old(self)@.keys,
                self.dt == old(self).dt,
                self.st == old(self).st,
                self.waiting == old(self).waiting,
                self.rng == old(self).rng,
            decreases data@.len() - j,
        {
            self.ram[0x200 + j] = data[j];
            j += 1;
        }
        proof {
            assert(self@.ram =~= loaded_ram(old(self)@.ram, data@));
            assert(self@ =~= (St { ram: loaded_ram(old(self)@.ram, data@), ..old(self)@ }));
        }
        Ok(())
    }

    /// Records a key press or release reported by the input collaborator.
    pub fn set_key(&mut self, idx: usize, pressed: bool)
        requires
            old(self).wf(),
            idx < 16,
        ensures
            final(self).wf(),
            final(self)@ == (St { keys: old(self)@.keys.update(idx as int, pressed), ..old(self)@ }),
    {
        self.keys[idx] = pressed;
    }

    /// Read-only snapshot of the pixel grid for the renderer, row-major,
    /// 64 by 32.
    pub fn display(&self) -> (r: &Vec<bool>)
        ensures
            r@ == self@.screen,
    {
        &self.screen
    }

    /// Current sound timer value, for the audio collaborator to poll.
    pub fn sound_value(&self) -> (r: u8)
        ensures
            r == self@.st,
    {
        self.st
    }

    /// Whether audio should currently be on: the sound timer is nonzero.
    pub fn sound_active(&self) -> (r: bool)
        ensures
            r == (self@.st > 0),
    {
        self.st > 0
    }

    /// Whether the interpreter is suspended waiting for a key press.
    pub fn awaiting_key(&self) -> (r: bool)
        ensures
            r == (self@.waiting matches Some(_)),
    {
        match self.waiting {
            Some(_) => true,
            None => false,
        }
    }

    /// Reads the two bytes at the program counter big-endian into one
    /// instruction word and advances the counter by two. Fails with
    /// `OutOfBounds`, changing nothing, when the counter points past
    /// memory; a truncated program cannot continue.
    pub fn fetch(&mut self) -> (r: Result<u16, InterpreterError>)
        requires
            old(self).wf(),
        ensures
            final(self).wf(),
            old(self).pc as int + 1 < 4096 ==> r == Ok::<u16, InterpreterError>(
                word_at(old(self)@.ram, old(self).pc as int),
            ) && final(self)@ == (St { pc: (old(self).pc + 2) as u16, ..old(self)@ }),
            old(self).pc as int + 1 >= 4096 ==> r == Err::<u16, InterpreterError>(
                InterpreterError::OutOfBounds,
            ) && final(self)@ == old(self)@,
    {
        if self.pc >= 4095 {
            return Err(InterpreterError::OutOfBounds);
        }
        let hi = self.ram[self.pc as usize];
        let lo = self.ram[self.pc as usize + 1];
        let w = (hi as u16) * 256 + (lo as u16);
        self.pc = self.pc + 2;
        Ok(w)
    }
}

/// The memory picture after a program image lands at the load address.
pub open spec fn loaded_ram(ram: Seq<u8>, data: Seq<u8>) -> Seq<u8> {
    Seq::new(4096, |a: int| if 0x200 <= a < 0x200 + data.len() { data[a - 0x200] } else { ram[a] })
}

/// The program counter after a conditional skip: two further bytes when
/// the condition held.
pub open spec fn skip_pc(pc: u16, cond: bool) -> u16 {
    if cond {
        (pc + 2) as u16
    } else {
        pc
    }
}

/// Whether the call stack of state `s` is at capacity.
pub open spec fn st_stack_full(s: St) -> bool {
    match s.stack_max {
        Some(m) => s.stack.len() >= m,
        None => false,
    }
}

/// The memory picture after registers `V0..=Vx` are stored at `i`.
pub open spec fn regs_stored(ram: Seq<u8>, v: Seq<u8>, i: int, x: int) -> Seq<u8> {
    Seq::new(4096, |a: int| if i <= a < i + x + 1 { v[a - i] } else { ram[a] })
}

/// The register picture after `V0..=Vx` are loaded from memory at `i`.
pub open spec fn regs_loaded(v: Seq<u8>, ram: Seq<u8>, i: int, x: int) -> Seq<u8> {
    Seq::new(16, |j: int| if j <= x { ram[i + j] } else { v[j] })
}

/// What executing one decoded instruction does, relating the machine
/// state after the fetch (`pre`: program counter already past the word)
/// to the state when `execute` returns. Every arm pins the whole state:
/// the fields not named in the update are unchanged.
pub open spec fn step_post(pre: St, post: St, instr: Instr, r: Result<(), InterpreterError>) -> bool {
    let rok = Ok::<(), InterpreterError>(());
    match instr {
        Instr::Cls => r == rok && post == (St { screen: Seq::new(2048, |p: int| false), ..pre }),
        Instr::Ret => if pre.stack.len() == 0 {
            r == Err::<(), InterpreterError>(InterpreterError::StackUnderflow) && post == pre
        } else {
            r == rok && post == (St { pc: pre.stack.last(), stack: pre.stack.drop_last(), ..pre })
        },
        Instr::Jump(a) => r == rok && post == (St { pc: a, ..pre }),
        Instr::Call(a) => if st_stack_full(pre) {
            r == Err::<(), InterpreterError>(InterpreterError::StackOverflow) && post == pre
        } else {
            r == rok && post == (St { pc: a, stack: pre.stack.push(pre.pc), ..pre })
        },
        Instr::SkipEqImm(x, kk) => r == rok && post == (St {
            pc: skip_pc(pre.pc, pre.v[x as int] == kk),
            ..pre
        }),
        Instr::SkipNeImm(x, kk) => r == rok && post == (St {
            pc: skip_pc(pre.pc, pre.v[x as int] != kk),
            ..pre
        }),
        Instr::SkipEqReg(x, y) => r == rok && post == (St {
            pc: skip_pc(pre.pc, pre.v[x as int] == pre.v[y as int]),
            ..pre
        }),
        Instr::SetImm(x, kk) => r == rok && post == (St { v: pre.v.update(x as int, kk), ..pre }),
        Instr::AddImm(x, kk) => r == rok && post == (St {
            v: pre.v.update(x as int, wrap8(pre.v[x as int] + kk)),
            ..pre
        }),
        Instr::Move(x, y) => r == rok && post == (St {
            v: pre.v.update(x as int, pre.v[y as int]),
            ..pre
        }),
        Instr::Or(x, y) => r == rok && post == (St {
            v: pre.v.update(x as int, pre.v[x as int] | pre.v[y as int]),
            ..pre
        }),
        Instr::And(x, y) => r == rok && post == (St {
            v: pre.v.update(x as int, pre.v[x as int] & pre.v[y as int]),
            ..pre
        }),
        Instr::Xor(x, y) => r == rok && post == (St {
            v: pre.v.update(x as int, pre.v[x as int] ^ pre.v[y as int]),
            ..pre
        }),
        Instr::AddReg(x, y) => r == rok && post == (St {
            v: pre.v.update(x as int, wrap8(pre.v[x as int] + pre.v[y as int])).update(
                15,
                if pre.v[x as int] + pre.v[y as int] > 255 {
                    1u8
                } else {
                    0u8
                },
            ),
            ..pre
        }),
        Instr::SubReg(x, y) => r == rok && post == (St {
            v: pre.v.update(x as int, wrap8(pre.v[x as int] - pre.v[y as int] + 256)).update(
                15,
                if pre.v[x as int] >= pre.v[y as int] {
                    1u8
                } else {
                    0u8
                },
            ),
            ..pre
        }),
        Instr::Shr(x) => r == rok && post == (St {
            v: pre.v.update(x as int, (pre.v[x as int] / 2) as u8).update(
                15,
                (pre.v[x as int] % 2) as u8,
            ),
            ..pre
        }),
        Instr::SubN(x, y) => r == rok && post == (St {
            v: pre.v.update(x as int, wrap8(pre.v[y as int] - pre.v[x as int] + 256)).update(
                15,
                if pre.v[y as int] >= pre.v[x as int] {
                    1u8
                } else {
                    0u8
                },
            ),
            ..pre
        }),
        Instr::Shl(x) => r == rok && post == (St {
            v: pre.v.update(x as int, wrap8(pre.v[x as int] * 2)).update(
                15,
                (pre.v[x as int] / 128) as u8,
            ),
            ..pre
        }),
        Instr::SkipNeReg(x, y) => r == rok && post == (St {
            pc: skip_pc(pre.pc, pre.v[x as int] != pre.v[y as int]),
            ..pre
        }),
        Instr::SetIndex(a) => r == rok && post == (St { i: a, ..pre }),
        Instr::JumpV0(a) => r == rok && post == (St { pc: (a + pre.v[0]) as u16, ..pre }),
        Instr::Random(x, kk) => r == rok && post == (St {
            rng: next_rng(pre.rng),
            v: pre.v.update(x as int, rng_byte(next_rng(pre.rng)) & kk),
            ..pre
        }),
        Instr::Draw(x, y, n) => if pre.i as int + n as int > 4096 {
            r == Err::<(), InterpreterError>(InterpreterError::OutOfBounds) && post == pre
        } else {
            r == rok && post == (St {
                screen: draw_screen(
                    pre.screen,
                    pre.ram,
                    pre.i as int,
                    pre.v[x as int] as int,
                    pre.v[y as int] as int,
                    n as int,
                ),
                v: pre.v.update(
                    15,
                    if draw_erases(
                        pre.screen,
                        pre.ram,
                        pre.i as int,
                        pre.v[x as int] as int,
                        pre.v[y as int] as int,
                        n as int,
                    ) {
                        1u8
                    } else {
                        0u8
                    },
                ),
                ..pre
            })
        },
        Instr::SkipKeyPressed(x) => r == rok && post == (St {
            pc: skip_pc(pre.pc, pre.keys[pre.v[x as int] as int % 16]),
            ..pre
        }),
        Instr::SkipKeyReleased(x) => r == rok && post == (St {
            pc: skip_pc(pre.pc, !pre.keys[pre.v[x as int] as int % 16]),
            ..pre
        }),
        Instr::ReadDelay(x) => r == rok && post == (St { v: pre.v.update(x as int, pre.dt), ..pre }),
        Instr::WaitKey(x) => r == rok && (if min_pressed(pre.keys) < 16 {
            post == (St { v: pre.v.update(x as int, min_pressed(pre.keys) as u8), ..pre })
        } else {
            post == (St { waiting: Some(x), ..pre })
        }),
        Instr::SetDelay(x) => r == rok && post == (St { dt: pre.v[x as int], ..pre }),
        Instr::SetSound(x) => r == rok && post == (St { st: pre.v[x as int], ..pre }),
        Instr::AddIndex(x) => r == rok && post == (St {
            i: wrap16(pre.i + pre.v[x as int]),
            ..pre
        }),
        Instr::FontChar(x) => r == rok && post == (St {
            i: ((pre.v[x as int] as int % 16) * 5) as u16,
            ..pre
        }),
        Instr::StoreBcd(x) => if pre.i as int + 3 > 4096 {
            r == Err::<(), InterpreterError>(InterpreterError::OutOfBounds) && post == pre
        } else {
            r == rok && post == (St {
                ram: pre.ram.update(pre.i as int, (pre.v[x as int] / 100) as u8).update(
                    pre.i as int + 1,
                    ((pre.v[x as int] / 10) % 10) as u8,
                ).update(pre.i as int + 2, (pre.v[x as int] % 10) as u8),
                ..pre
            })
        },
        Instr::StoreRegs(x) => if pre.i as int + x as int + 1 > 4096 {
            r == Err::<(), InterpreterError>(InterpreterError::OutOfBounds) && post == pre
        } else {
            r == rok && post == (St {
                ram: regs_stored(pre.ram, pre.v, pre.i as int, x as int),
                ..pre
            })
        },
        Instr::LoadRegs(x) => if pre.i as int + x as int + 1 > 4096 {
            r == Err::<(), InterpreterError>(InterpreterError::OutOfBounds) && post == pre
        } else {
            r == rok && post == (St {
                v: regs_loaded(pre.v, pre.ram, pre.i as int, x as int),
                ..pre
            })
        },
    }
}

/// What one call of `tick` does: resume or keep waiting when suspended on
/// a key; otherwise fetch, decode and execute one instruction, reporting
/// a fetch past memory as `OutOfBounds` and an unrecognized word as
/// `UnknownOpcode` with the word and its address.
pub open spec fn tick_rel(pre: St, post: St, r: Result<(), InterpreterError>) -> bool {
    let rok = Ok::<(), InterpreterError>(());
    match pre.waiting {
        Some(x) => if min_pressed(pre.keys) < 16 {
            r == rok && post == (St {
                v: pre.v.update(x as int, min_pressed(pre.keys) as u8),
                waiting: None,
                ..pre
            })
        } else {
            r == rok && post == pre
        },
        None => if pre.pc as int + 1 >= 4096 {
            r == Err::<(), InterpreterError>(InterpreterError::OutOfBounds) && post == pre
        } else {
            let w = word_at(pre.ram, pre.pc as int);
            let fetched = St { pc: (pre.pc + 2) as u16, ..pre };
            match spec_decode(w) {
                None => r == Err::<(), InterpreterError>(
                    InterpreterError::UnknownOpcode(w, pre.pc),
                ) && post == fetched,
                Some(instr) => step_post(fetched, post, instr, r),
            }
        },
    }
}

/// Index of the lowest pressed key, or 16 when none is pressed.
fn first_pressed_key(keys: &Vec<bool>) -> (r: usize)
    requires
        keys@.len() == 16,
    ensures
        r as int == min_pressed(keys@),
        r <= 16,
{
    let mut k: usize = 0;
    while k < 16
        invariant
            k <= 16,
            keys@.len() == 16,
            min_pressed(keys@) == min_pressed_from(keys@, k as int),
        decreases 16 - k,
    {
        if keys[k] {
            return k;
        }
        k += 1;
    }
    16
}

impl Emu {
    /// Advances the pseudo-random generator and hands back the byte the
    /// random instruction uses.
    fn next_random(&mut self) -> (b: u8)
        ensures
            final(self)@ == (St { rng: next_rng(old(self).rng), ..old(self)@ }),
            b == rng_byte(next_rng(old(self).rng)),
    {
        let next: u16 = ((self.rng as u32 * 25173 + 13849) % 0x10000) as u16;
        self.rng = next;
        (next % 256) as u8
    }

    /// Store the decimal digits of `Vx` at `I`, `I+1`, `I+2`.
    fn op_bcd(&mut self, x: u8) -> (r: Result<(), InterpreterError>)
        requires
            old(self).wf(),
            x < 16,
        ensures
            final(self).wf(),
            step_post(old(self)@, final(self)@, Instr::StoreBcd(x), r),
    {
        if self.i_reg as u32 + 3 > 4096 {
            return Err(InterpreterError::OutOfBounds);
        }
        let i0 = self.i_reg as usize;
        let vv = self.v_reg[x as usize];
        self.ram[i0] = vv / 100;
        self.ram[i0 + 1] = (vv / 10) % 10;
        self.ram[i0 + 2] = vv % 10;
        Ok(())
    }

    /// Store `V0..=Vx` into memory starting at `I`.
    #[verifier::loop_isolation(false)]
    fn op_store_regs(&mut self, x: u8) -> (r: Result<(), InterpreterError>)
        requires
            old(self).wf(),
            x < 16,
        ensures
            final(self).wf(),
            step_post(old(self)@, final(self)@, Instr::StoreRegs(x), r),
    {
        if self.i_reg as u32 + x as u32 + 1 > 4096 {
            return Err(InterpreterError::OutOfBounds);
        }
        let i0 = self.i_reg as usize;
        let ghost pre = old(self)@;
        let mut j: usize = 0;
        while j <= x as usize
            invariant
                j <= x as usize + 1,
                self.ram@.len() == 4096,
                forall|a: int| i0 <= a < i0 + j ==> self.ram@[a] == pre.v[a - i0],
                forall|a: int|
                    0 <= a < 4096 && !(i0 <= a < i0 + j) ==> self.ram@[a] == pre.ram[a],
                (St { ram: pre.ram, ..self@ }) == pre,
            decreases x as int + 1 - j,
        {
            self.ram[i0 + j] = self.v_reg[j];
            j += 1;
        }
        proof {
            assert(self@.ram =~= regs_stored(pre.ram, pre.v, i0 as int, x as int));
            assert(self@ =~= (St {
                ram: regs_stored(pre.ram, pre.v, i0 as int, x as int),
                ..pre
            }));
        }
        Ok(())
    }

    /// Load `V0..=Vx` from memory starting at `I`.
    #[verifier::loop_isolation(false)]
    fn op_load_regs(&mut self, x: u8) -> (r: Result<(), InterpreterError>)
        requires
            old(self).wf(),
            x < 16,
        ensures
            final(self).wf(),
            step_post(old(self)@, final(self)@, Instr::LoadRegs(x), r),
    {
        if self.i_reg as u32 + x as u32 + 1 > 4096 {
            return Err(InterpreterError::OutOfBounds);
        }
        let i0 = self.i_reg as usize;
        let ghost pre = old(self)@;
        let mut j: usize = 0;
        while j <= x as usize
            invariant
                j <= x as usize + 1,
                self.v_reg@.len() == 16,
                forall|jj: int| 0 <= jj < j ==> self.v_reg@[jj] == pre.ram[i0 + jj],
                forall|jj: int| j <= jj < 16 ==> self.v_reg@[jj] == pre.v[jj],
                (St { v: pre.v, ..self@ }) == pre,
            decreases x as int + 1 - j,
        {
            self.v_reg[j] = self.ram[i0 + j];
            j += 1;
        }
        proof {
            assert(self@.v =~= regs_loaded(pre.v, pre.ram, i0 as int, x as int));
            assert(self@ =~= (St {
                v: regs_loaded(pre.v, pre.ram, i0 as int, x as int),
                ..pre
            }));
        }
        Ok(())
    }

    /// Suspend on a key wait, or resume at once when a key is already
    /// pressed.
    fn op_wait_key(&mut self, x: u8) -> (r: Result<(), InterpreterError>)
        requires
            old(self).wf(),
            x < 16,
        ensures
            final(self).wf(),
            step_post(old(self)@, final(self)@, Instr::WaitKey(x), r),
    {
        let k = first_pressed_key(&self.keys);
        if k < 16 {
            self.v_reg[x as usize] = k as u8;
        } else {
            self.waiting = Some(x);
        }
        Ok(())
    }

    /// XOR-draw an `n`-row sprite read from memory at `I` onto the
    /// display at (`Vx`, `Vy`), wrapping both coordinates, and record in
    /// `VF` whether any pixel was erased.
    #[verifier::loop_isolation(false)]
    fn op_draw(&mut self, x: u8, y: u8, n: u8) -> (r: Result<(), InterpreterError>)
        requires
            old(self).wf(),
            x < 16,
            y < 16,
            n < 16,
        ensures
            final(self).wf(),
            step_post(old(self)@, final(self)@, Instr::Draw(x, y, n), r),
    {
        if self.i_reg as u32 + n as u32 > 4096 {
            return Err(InterpreterError::OutOfBounds);
        }
        let i0 = self.i_reg as usize;
        let vx = self.v_reg[x as usize];
        let vy = self.v_reg[y as usize];
        let ghost pre = old(self)@;
        let ghost s0 = pre.screen;
        let ghost ram0 = pre.ram;
        let ghost vxi = vx as int;
        let ghost vyi = vy as int;
        let ghost i0i = i0 as int;
        let mut erased = false;
        proof {
            assert forall|p: int| !covered_part(ram0, i0i, vxi, vyi, 0, 0, p) by {
                if covered_part(ram0, i0i, vxi, vyi, 0, 0, p) {
                    let (rr, cc) = choose|rr: int, cc: int|
                        0 <= rr && 0 <= cc < 8 && (rr < 0 || (rr == 0 && cc < 0)) && p
                            == pix_index(vxi, vyi, rr, cc) && sprite_bit(ram0[i0i + rr], cc);
                    assert(false);
                }
            }
            assert(self.screen@ =~= Seq::new(
                2048,
                |p: int| s0[p] != covered_part(ram0, i0i, vxi, vyi, 0, 0, p),
            ));
        }
        let mut row: usize = 0;
        while row < n as usize
            invariant
                row <= n as usize,
                self.screen@ == Seq::new(
                    2048,
                    |p: int| s0[p] != covered_part(ram0, i0i, vxi, vyi, row as int, 0, p),
                ),
                erased == (exists|p: int|
                    0 <= p < 2048 && s0[p] && covered_part(ram0, i0i, vxi, vyi, row as int, 0, p)),
                (St { screen: pre.screen, ..self@ }) == pre,
            decreases n as int - row,
        {
            let byte = self.ram[i0 + row];
            let mut c: usize = 0;
            while c < 8
                invariant
                    c <= 8,
                    row < n as usize,
                    byte == ram0[i0i + row as int],
                    self.screen@ == Seq::new(
                        2048,
                        |p: int| s0[p] != covered_part(ram0, i0i, vxi, vyi, row as int, c as int, p),
                    ),
                    erased == (exists|p: int|
                        0 <= p < 2048 && s0[p] && covered_part(
                            ram0,
                            i0i,
                            vxi,
                            vyi,
                            row as int,
                            c as int,
                            p,
                        )),
                    (St { screen: pre.screen, ..self@ }) == pre,
                decreases 8 - c,
            {
                let w = col_weight_u8(c);
                let bit = (byte / w) % 2 == 1;
                let py = (vy as usize + row) % 32;
                let px = (vx as usize + c) % 64;
                let idx = py * 64 + px;
                let ghost ri = row as int;
                let ghost ci = c as int;
                let ghost scr_before = self.screen@;
                let ghost erased_before = erased;
                proof {
                    assert(bit == sprite_bit(ram0[i0i + ri], ci));
                    assert(idx as int == pix_index(vxi, vyi, ri, ci));
                    assert(idx < 2048);
                    assert(!covered_part(ram0, i0i, vxi, vyi, ri, ci, idx as int)) by {
                        if covered_part(ram0, i0i, vxi, vyi, ri, ci, idx as int) {
                            let (rr, cc) = choose|rr: int, cc: int|
                                0 <= rr && 0 <= cc < 8 && (rr < ri || (rr == ri && cc < ci))
                                    && idx as int == pix_index(vxi, vyi, rr, cc) && sprite_bit(
                                    ram0[i0i + rr],
                                    cc,
                                );
                            lemma_pix_injective(vxi, vyi, rr, cc, ri, ci);
                            assert(false);
                        }
                    };
                }
                if bit {
                    let oldpix = self.screen[idx];
                    self.screen[idx] = !oldpix;
                    if oldpix {
                        erased = true;
                    }
                }
                proof {
                    assert forall|p: int|
                        covered_part(ram0, i0i, vxi, vyi, ri, ci + 1, p) == (covered_part(
                            ram0,
                            i0i,
                            vxi,
                            vyi,
                            ri,
                            ci,
                            p,
                        ) || (p == idx as int && sprite_bit(ram0[i0i + ri], ci))) by {
                        if covered_part(ram0, i0i, vxi, vyi, ri, ci + 1, p) {
                            let (rr, cc) = choose|rr: int, cc: int|
                                0 <= rr && 0 <= cc < 8 && (rr < ri || (rr == ri && cc < ci + 1))
                                    && p == pix_index(vxi, vyi, rr, cc) && sprite_bit(
                                    ram0[i0i + rr],
                                    cc,
                                );
                            if rr == ri && cc == ci {
                                assert(p == idx as int && sprite_bit(ram0[i0i + ri], ci));
                            } else {
                                assert(covered_part(ram0, i0i, vxi, vyi, ri, ci, p));
                            }
                        }
                        if covered_part(ram0, i0i, vxi, vyi, ri, ci, p) {
                            let (rr, cc) = choose|rr: int, cc: int|
                                0 <= rr && 0 <= cc < 8 && (rr < ri || (rr == ri && cc < ci)) && p
                                    == pix_index(vxi, vyi, rr, cc) && sprite_bit(ram0[i0i + rr], cc);
                            assert(covered_part(ram0, i0i, vxi, vyi, ri, ci + 1, p));
                        }
                        if p == idx as int && sprite_bit(ram0[i0i + ri], ci) {
                            assert(pix_index(vxi, vyi, ri, ci) == idx as int);
                            assert(covered_part(ram0, i0i, vxi, vyi, ri, ci + 1, p));
                        }
                    }
                    assert forall|p: int| 0 <= p < 2048 implies self.screen@[p] == (s0[p]
                        != covered_part(ram0, i0i, vxi, vyi, ri, ci + 1, p)) by {
                        assert(scr_before[p] == (s0[p] != covered_part(
                            ram0,
                            i0i,
                            vxi,
                            vyi,
                            ri,
                            ci,
                            p,
                        )));
                    }
                    assert(self.screen@ =~= Seq::new(
                        2048,
                        |p: int| s0[p] != covered_part(ram0, i0i, vxi, vyi, ri, ci + 1, p),
                    ));
                    assert(erased == (exists|p: int|
                        0 <= p < 2048 && s0[p] && covered_part(
                            ram0,
                            i0i,
                            vxi,
                            vyi,
                            ri,
                            ci + 1,
                            p,
                        ))) by {
                        if erased_before {
                            let p = choose|p: int|
                                0 <= p < 2048 && s0[p] && covered_part(
                                    ram0,
                                    i0i,
                                    vxi,
                                    vyi,
                                    ri,
                                    ci,
                                    p,
                                );
                            assert(covered_part(ram0, i0i, vxi, vyi, ri, ci + 1, p));
                        }
                        if bit && s0[idx as int] {
                            assert(covered_part(ram0, i0i, vxi, vyi, ri, ci + 1, idx as int));
                        }
                        if !erased && (exists|p: int|
                            0 <= p < 2048 && s0[p] && covered_part(
                                ram0,
                                i0i,
                                vxi,
                                vyi,
                                ri,
                                ci + 1,
                                p,
                            )) {
                            let p = choose|p: int|
                                0 <= p < 2048 && s0[p] && covered_part(
                                    ram0,
                                    i0i,
                                    vxi,
                                    vyi,
                                    ri,
                                    ci + 1,
                                    p,
                                );
                            assert(false);
                        }
                    }
                }
                c += 1;
            }
            proof {
                let ri = row as int;
                assert forall|p: int|
                    covered_part(ram0, i0i, vxi, vyi, ri, 8, p) == covered_part(
                        ram0,
                        i0i,
                        vxi,
                        vyi,
                        ri + 1,
                        0,
                        p,
                    ) by {
                    if covered_part(ram0, i0i, vxi, vyi, ri, 8, p) {
                        let (rr, cc) = choose|rr: int, cc: int|
                            0 <= rr && 0 <= cc < 8 && (rr < ri || (rr == ri && cc < 8)) && p
                                == pix_index(vxi, vyi, rr, cc) && sprite_bit(ram0[i0i + rr], cc);
                        assert(covered_part(ram0, i0i, vxi, vyi, ri + 1, 0, p));
                    }
                    if covered_part(ram0, i0i, vxi, vyi, ri + 1, 0, p) {
                        let (rr, cc) = choose|rr: int, cc: int|
                            0 <= rr && 0 <= cc < 8 && (rr < ri + 1 || (rr == ri + 1 && cc < 0)) && p
                                == pix_index(vxi, vyi, rr, cc) && sprite_bit(ram0[i0i + rr], cc);
                        assert(covered_part(ram0, i0i, vxi, vyi, ri, 8, p));
                    }
                }
                assert(self.screen@ =~= Seq::new(
                    2048,
                    |p: int| s0[p] != covered_part(ram0, i0i, vxi, vyi, ri + 1, 0, p),
                ));
                assert((exists|p: int|
                    0 <= p < 2048 && s0[p] && covered_part(ram0, i0i, vxi, vyi, ri, 8, p))
                    == (exists|p: int|
                    0 <= p < 2048 && s0[p] && covered_part(ram0, i0i, vxi, vyi, ri + 1, 0, p)));
            }
            row += 1;
        }
        self.v_reg[15] = if erased {
            1
        } else {
            0
        };
        proof {
            let ni = n as int;
            assert(self@.screen =~= draw_screen(s0, ram0, i0i, vxi, vyi, ni));
            assert(erased == draw_erases(s0, ram0, i0i, vxi, vyi, ni));
            assert(self@ =~= (St {
                screen: draw_screen(s0, ram0, i0i, vxi, vyi, ni),
                v: pre.v.update(
                    15,
                    if draw_erases(s0, ram0, i0i, vxi, vyi, ni) {
                        1u8
                    } else {
                        0u8
                    },
                ),
                ..pre
            }));
        }
        Ok(())
    }

    /// Performs the effect of one decoded instruction on the machine
    /// state; `step_post` states the effect of every arm exactly.
    pub fn execute(&mut self, instr: Instr) -> (r: Result<(), InterpreterError>)
        requires
            old(self).wf(),
            instr.wf(),
            old(self).pc <= 4096,
        ensures
            final(self).wf(),
            step_post(old(self)@, final(self)@, instr, r),
    {
        match instr {
            Instr::Cls => {
                self.screen = falses(SCREEN_LEN);
                Ok(())
            },
            Instr::Ret => {
                match self.stack.pop() {
                    Ok(addr) => {
                        self.pc = addr;
                        Ok(())
                    },
                    Err(_) => Err(InterpreterError::StackUnderflow),
                }
            },
            Instr::Jump(a) => {
                self.pc = a;
                Ok(())
            },
            Instr::Call(a) => {
                match self.stack.push(self.pc) {
                    Ok(_) => {
                        self.pc = a;
                        Ok(())
                    },
                    Err(_) => Err(InterpreterError::StackOverflow),
                }
            },
            Instr::SkipEqImm(x, kk) => {
                if self.v_reg[x as usize] == kk {
                    self.pc = self.pc + 2;
                }
                Ok(())
            },
            Instr::SkipNeImm(x, kk) => {
                if self.v_reg[x as usize] != kk {
                    self.pc = self.pc + 2;
                }
                Ok(())
            },
            Instr::SkipEqReg(x, y) => {
                if self.v_reg[x as usize] == self.v_reg[y as usize] {
                    self.pc = self.pc + 2;
                }
                Ok(())
            },
            Instr::SetImm(x, kk) => {
                self.v_reg[x as usize] = kk;
                Ok(())
            },
            Instr::AddImm(x, kk) => {
                let vx = self.v_reg[x as usize];
                self.v_reg[x as usize] = ((vx as u16 + kk as u16) % 256) as u8;
                Ok(())
            },
            Instr::Move(x, y) => {
                self.v_reg[x as usize] = self.v_reg[y as usize];
                Ok(())
            },
            Instr::Or(x, y) => {
                self.v_reg[x as usize] = self.v_reg[x as usize] | self.v_reg[y as usize];
                Ok(())
            },
            Instr::And(x, y) => {
                self.v_reg[x as usize] = self.v_reg[x as usize] & self.v_reg[y as usize];
                Ok(())
            },
            Instr::Xor(x, y) => {
                self.v_reg[x as usize] = self.v_reg[x as usize] ^ self.v_reg[y as usize];
                Ok(())
            },
            Instr::AddReg(x, y) => {
                let s: u16 = self.v_reg[x as usize] as u16 + self.v_reg[y as usize] as u16;
                self.v_reg[x as usize] = (s % 256) as u8;
                self.v_reg[15] = if s > 255 {
                    1
                } else {
                    0
                };
                Ok(())
            },
            Instr::SubReg(x, y) => {
                let vx = self.v_reg[x as usize];
                let vy = self.v_reg[y as usize];
                self.v_reg[x as usize] = ((vx as u16 + 256 - vy as u16) % 256) as u8;
                self.v_reg[15] = if vx >= vy {
                    1
                } else {
                    0
                };
                Ok(())
            },
            Instr::Shr(x) => {
                let vx = self.v_reg[x as usize];
                self.v_reg[x as usize] = vx / 2;
                self.v_reg[15] = vx % 2;
                Ok(())
            },
            Instr::SubN(x, y) => {
                let vx = self.v_reg[x as usize];
                let vy = self.v_reg[y as usize];
                self.v_reg[x as usize] = ((vy as u16 + 256 - vx as u16) % 256) as u8;
                self.v_reg[15] = if vy >= vx {
                    1
                } else {
                    0
                };
                Ok(())
            },
            Instr::Shl(x) => {
                let vx = self.v_reg[x as usize];
                self.v_reg[x as usize] = ((vx as u16 * 2) % 256) as u8;
                self.v_reg[15] = vx / 128;
                Ok(())
            },
            Instr::SkipNeReg(x, y) => {
                if self.v_reg[x as usize] != self.v_reg[y as usize] {
                    self.pc = self.pc + 2;
                }
                Ok(())
            },
            Instr::SetIndex(a) => {
                self.i_reg = a;
                Ok(())
            },
            Instr::JumpV0(a) => {
                self.pc = a + self.v_reg[0] as u16;
                Ok(())
            },
            Instr::Random(x, kk) => {
                let b = self.next_random();
                self.v_reg[x as usize] = b & kk;
                Ok(())
            },
            Instr::Draw(x, y, n) => self.op_draw(x, y, n),
            Instr::SkipKeyPressed(x) => {
                let key = (self.v_reg[x as usize] % 16) as usize;
                if self.keys[key] {
                    self.pc = self.pc + 2;
                }
                Ok(())
            },
            Instr::SkipKeyReleased(x) => {
                let key = (self.v_reg[x as usize] % 16) as usize;
                if !self.keys[key] {
                    self.pc = self.pc + 2;
                }
                Ok(())
            },
            Instr::ReadDelay(x) => {
                self.v_reg[x as usize] = self.dt;
                Ok(())
            },
            Instr::WaitKey(x) => self.op_wait_key(x),
            Instr::SetDelay(x) => {
                self.dt = self.v_reg[x as usize];
                Ok(())
            },
            Instr::SetSound(x) => {
                self.st = self.v_reg[x as usize];
                Ok(())
            },
            Instr::AddIndex(x) => {
                let vx = self.v_reg[x as usize];
                self.i_reg = ((self.i_reg as u32 + vx as u32) % 0x10000) as u16;
                Ok(())
            },
            Instr::FontChar(x) => {
                let vx = self.v_reg[x as usize];
                self.i_reg = (vx % 16) as u16 * 5;
                Ok(())
            },
            Instr::StoreBcd(x) => self.op_bcd(x),
            Instr::StoreRegs(x) => self.op_store_regs(x),
            Instr::LoadRegs(x) => self.op_load_regs(x),
        }
    }

    /// One step of the fetch-decode-execute cycle, or of the suspended
    /// key wait. The caller chooses the instruction rate; `tick_rel`
    /// states the exact effect, including every error case.
    pub fn tick(&mut self) -> (r: Result<(), InterpreterError>)
        requires
            old(self).wf(),
        ensures
            final(self).wf(),
            tick_rel(old(self)@, final(self)@, r),
    {
        match self.waiting {
            Some(x) => {
                let k = first_pressed_key(&self.keys);
                if k < 16 {
                    self.v_reg[x as usize] = k as u8;
                    self.waiting = None;
                }
                return Ok(());
            },
            None => {},
        }
        let at = self.pc;
        let w = match self.fetch() {
            Ok(w) => w,
            Err(e) => {
                return Err(e);
            },
        };
        match decode(w) {
            None => Err(InterpreterError::UnknownOpcode(w, at)),
            Some(instr) => {
                proof {
                    lemma_decode_wf(w);
                }
                self.execute(instr)
            },
        }
    }
}

/// A vector of `n` unset pixels or keys.
fn falses(n: usize) -> (r: Vec<bool>)
    ensures
        r@ == Seq::new(n as nat, |j: int| false),
{
    let mut v: Vec<bool> = Vec::new();
    let mut k: usize = 0;
    while k < n
        invariant
            v@.len() == k,
            k <= n,
            forall|j: int| 0 <= j < k ==> v@[j] == false,
        decreases n - k,
    {
        v.push(false);
        k += 1;
    }
    proof {
        assert(v@ =~= Seq::new(n as nat, |j: int| false));
    }
    v
}

/// A vector of `n` zero bytes.
fn zero_bytes(n: usize) -> (r: Vec<u8>)
    ensures
        r@ == Seq::new(n as nat, |j: int| 0u8),
{
    let mut v: Vec<u8> = Vec::new();
    let mut k: usize = 0;
    while k < n
        invariant
            v@.len() == k,
            k <= n,
            forall|j: int| 0 <= j < k ==> v@[j] == 0u8,
        decreases n - k,
    {
        v.push(0u8);
        k += 1;
    }
    proof {
        assert(v@ =~= Seq::new(n as nat, |j: int| 0u8));
    }
    v
}

} // verus!
