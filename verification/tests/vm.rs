use chip8_core::emu::{Emu, InterpreterError};
use chip8_core::stack::{Stack, StackError};

fn boot(prog: &[u8]) -> Emu {
    let mut e = Emu::new();
    let image: Vec<u8> = prog.to_vec();
    e.load(&image).unwrap();
    e
}

fn run(e: &mut Emu, steps: usize) {
    let mut k = 0;
    while k < steps {
        e.tick().unwrap();
        k += 1;
    }
}

#[test]
fn set_imm_sets_register() {
    let mut e = boot(&[0x6A, 0x2B]);
    run(&mut e, 1);
    assert_eq!(e.v_reg[10], 0x2B);
    assert_eq!(e.pc, 0x202);
}

#[test]
fn add_imm_wraps_without_flag() {
    let mut e = boot(&[0x60, 0xFF, 0x70, 0x02]);
    run(&mut e, 2);
    assert_eq!(e.v_reg[0], 0x01);
    assert_eq!(e.v_reg[15], 0x00);
}

#[test]
fn add_reg_overflow_sets_flag() {
    let mut e = boot(&[0x60, 0xFF, 0x61, 0x01, 0x80, 0x14]);
    run(&mut e, 3);
    assert_eq!(e.v_reg[0], 0x00);
    assert_eq!(e.v_reg[15], 0x01);
}

#[test]
fn add_reg_without_overflow_clears_flag() {
    let mut e = boot(&[0x60, 0x01, 0x61, 0x02, 0x80, 0x14]);
    run(&mut e, 3);
    assert_eq!(e.v_reg[0], 0x03);
    assert_eq!(e.v_reg[15], 0x00);
}

#[test]
fn sub_reg_with_borrow() {
    let mut e = boot(&[0x60, 0x01, 0x61, 0x02, 0x80, 0x15]);
    run(&mut e, 3);
    assert_eq!(e.v_reg[0], 0xFF);
    assert_eq!(e.v_reg[15], 0x00);
}

#[test]
fn sub_reg_without_borrow() {
    let mut e = boot(&[0x60, 0x02, 0x61, 0x01, 0x80, 0x15]);
    run(&mut e, 3);
    assert_eq!(e.v_reg[0], 0x01);
    assert_eq!(e.v_reg[15], 0x01);
}

#[test]
fn subn_reg_flags() {
    let mut e = boot(&[0x60, 0x01, 0x61, 0x03, 0x80, 0x17]);
    run(&mut e, 3);
    assert_eq!(e.v_reg[0], 0x02);
    assert_eq!(e.v_reg[15], 0x01);
}

#[test]
fn stack_round_trip_and_bounds() {
    let mut s = Stack::new(Some(2));
    assert_eq!(s.push(0xAAA), Ok(()));
    assert_eq!(s.push(0xBBB), Ok(()));
    assert_eq!(s.push(0xCCC), Err(StackError::StackOverflow));
    assert_eq!(s.pop(), Ok(0xBBB));
    assert_eq!(s.pop(), Ok(0xAAA));
    assert_eq!(s.pop(), Err(StackError::StackUnderflow));
}

#[test]
fn stack_unbounded_and_top() {
    let mut s = Stack::new(None);
    let mut k: u16 = 0;
    while k < 100 {
        assert_eq!(s.push(k), Ok(()));
        k += 1;
    }
    assert_eq!(s.top(), Some(99));
    let empty = Stack::new(None);
    assert_eq!(empty.top(), None);
}

#[test]
fn draw_puts_glyph_pixels_on() {
    // I = 0 points at the font glyph for 0, whose first row is 0xF0.
    let mut e = boot(&[0xA0, 0x00, 0xD0, 0x15]);
    run(&mut e, 2);
    assert_eq!(e.v_reg[15], 0x00);
    assert!(e.screen[0] && e.screen[1] && e.screen[2] && e.screen[3]);
    assert!(!e.screen[4] && !e.screen[5] && !e.screen[6] && !e.screen[7]);
}

#[test]
fn draw_twice_restores_screen() {
    let mut e = boot(&[0xA0, 0x00, 0xD0, 0x15, 0xD0, 0x15]);
    run(&mut e, 3);
    assert_eq!(e.v_reg[15], 0x01);
    let mut p = 0;
    while p < 2048 {
        assert!(!e.screen[p]);
        p += 1;
    }
}

#[test]
fn timer_decay_floors_at_zero() {
    let mut e = boot(&[0x60, 0x05, 0xF0, 0x18, 0xF0, 0x15]);
    run(&mut e, 3);
    assert_eq!(e.sound_value(), 5);
    assert!(e.sound_active());
    assert_eq!(e.dt, 5);
    for _ in 0..5 {
        e.tick_timers();
    }
    assert_eq!(e.sound_value(), 0);
    assert!(!e.sound_active());
    assert_eq!(e.dt, 0);
    e.tick_timers();
    assert_eq!(e.sound_value(), 0);
    assert_eq!(e.dt, 0);
}

#[test]
fn timers_do_not_touch_cpu_state() {
    let mut e = boot(&[0x60, 0x05]);
    run(&mut e, 1);
    e.tick_timers();
    assert_eq!(e.pc, 0x202);
    assert_eq!(e.v_reg[0], 0x05);
}

#[test]
fn draw_wraps_columns() {
    // An eight-wide sprite of all-on pixels drawn at column 63 covers
    // column 63 and wraps into columns 0..=6 of the same row.
    let mut e = boot(&[0x60, 0x3F, 0x61, 0x00, 0xA2, 0x08, 0xD0, 0x11, 0xFF]);
    run(&mut e, 4);
    assert!(e.screen[63]);
    for col in 0..7 {
        assert!(e.screen[col]);
    }
    for col in 7..63 {
        assert!(!e.screen[col]);
    }
}

#[test]
fn reset_restores_initial_state() {
    let mut e = boot(&[0x60, 0x05, 0x61, 0x03, 0x80, 0x14, 0xA0, 0x00, 0xD0, 0x15]);
    run(&mut e, 5);
    e.set_key(3, true);
    e.reset();
    let fresh = Emu::new();
    assert_eq!(e.ram, fresh.ram);
    assert_eq!(e.screen, fresh.screen);
    assert_eq!(e.v_reg, fresh.v_reg);
    assert_eq!(e.keys, fresh.keys);
    assert_eq!(e.pc, 0x200);
    assert_eq!(e.i_reg, 0);
    assert_eq!(e.dt, 0);
    assert_eq!(e.st, 0);
    assert!(e.stack.data.is_empty());
    assert!(!e.awaiting_key());
}

#[test]
fn end_to_end_add_program() {
    let mut e = boot(&[0x60, 0x05, 0x61, 0x03, 0x80, 0x14]);
    run(&mut e, 3);
    assert_eq!(e.v_reg[0], 8);
    assert_eq!(e.v_reg[15], 0);
    assert_eq!(e.pc, 0x206);
}

#[test]
fn unknown_opcode_is_reported() {
    let mut e = boot(&[0x50, 0x01]);
    assert_eq!(e.tick(), Err(InterpreterError::UnknownOpcode(0x5001, 0x200)));
    assert_eq!(e.pc, 0x202);
}

#[test]
fn fetch_past_memory_fails() {
    let mut e = boot(&[0x1F, 0xFF]);
    run(&mut e, 1);
    assert_eq!(e.pc, 0xFFF);
    assert_eq!(e.tick(), Err(InterpreterError::OutOfBounds));
    assert_eq!(e.pc, 0xFFF);
}

#[test]
fn call_and_ret() {
    let mut e = boot(&[0x22, 0x04, 0x00, 0x00, 0x00, 0xEE]);
    run(&mut e, 1);
    assert_eq!(e.pc, 0x204);
    assert_eq!(e.stack.data, vec![0x202]);
    run(&mut e, 1);
    assert_eq!(e.pc, 0x202);
    assert!(e.stack.data.is_empty());
}

#[test]
fn ret_on_empty_stack_fails() {
    let mut e = boot(&[0x00, 0xEE]);
    assert_eq!(e.tick(), Err(InterpreterError::StackUnderflow));
}

#[test]
fn seventeenth_call_overflows() {
    let mut prog: Vec<u8> = Vec::new();
    for k in 0..17u16 {
        let target = 0x202 + 2 * k;
        prog.push((target >> 8) as u8 | 0x20);
        prog.push((target & 0xFF) as u8);
    }
    let mut e = Emu::new();
    e.load(&prog).unwrap();
    for _ in 0..16 {
        assert_eq!(e.tick(), Ok(()));
    }
    assert_eq!(e.tick(), Err(InterpreterError::StackOverflow));
    assert_eq!(e.stack.data.len(), 16);
}

#[test]
fn skip_if_equal_immediate() {
    let mut e = boot(&[0x60, 0x07, 0x30, 0x07]);
    run(&mut e, 2);
    assert_eq!(e.pc, 0x206);
    let mut f = boot(&[0x60, 0x07, 0x30, 0x08]);
    run(&mut f, 2);
    assert_eq!(f.pc, 0x204);
}

#[test]
fn skip_if_not_equal_immediate() {
    let mut e = boot(&[0x60, 0x07, 0x40, 0x08]);
    run(&mut e, 2);
    assert_eq!(e.pc, 0x206);
}

#[test]
fn skip_on_register_compare() {
    let mut e = boot(&[0x60, 0x07, 0x61, 0x07, 0x50, 0x10]);
    run(&mut e, 3);
    assert_eq!(e.pc, 0x208);
    let mut f = boot(&[0x60, 0x07, 0x61, 0x08, 0x90, 0x10]);
    run(&mut f, 3);
    assert_eq!(f.pc, 0x208);
}

#[test]
fn key_skip_instructions() {
    let mut e = boot(&[0x60, 0x05, 0xE0, 0x9E]);
    e.set_key(5, true);
    run(&mut e, 2);
    assert_eq!(e.pc, 0x206);
    let mut f = boot(&[0x60, 0x05, 0xE0, 0xA1]);
    run(&mut f, 2);
    assert_eq!(f.pc, 0x206);
    let mut g = boot(&[0x60, 0x05, 0xE0, 0x9E]);
    run(&mut g, 2);
    assert_eq!(g.pc, 0x204);
}

#[test]
fn wait_key_suspends_until_press() {
    let mut e = boot(&[0xF0, 0x0A]);
    run(&mut e, 1);
    assert!(e.awaiting_key());
    assert_eq!(e.pc, 0x202);
    assert_eq!(e.tick(), Ok(()));
    assert!(e.awaiting_key());
    e.set_key(7, true);
    assert_eq!(e.tick(), Ok(()));
    assert!(!e.awaiting_key());
    assert_eq!(e.v_reg[0], 7);
    assert_eq!(e.pc, 0x202);
}

#[test]
fn wait_key_takes_lowest_pressed() {
    let mut e = boot(&[0xF0, 0x0A]);
    run(&mut e, 1);
    e.set_key(9, true);
    e.set_key(4, true);
    e.tick().unwrap();
    assert_eq!(e.v_reg[0], 4);
}

#[test]
fn random_masked_by_zero_is_zero() {
    let mut e = boot(&[0xC0, 0x00]);
    run(&mut e, 1);
    assert_eq!(e.v_reg[0], 0);
}

#[test]
fn random_is_reproducible() {
    let mut a = boot(&[0xC0, 0xFF, 0xC1, 0xFF]);
    let mut b = boot(&[0xC0, 0xFF, 0xC1, 0xFF]);
    run(&mut a, 2);
    run(&mut b, 2);
    assert_eq!(a.v_reg[0], b.v_reg[0]);
    assert_eq!(a.v_reg[1], b.v_reg[1]);
}

#[test]
fn bcd_stores_decimal_digits() {
    let mut e = boot(&[0x60, 0x7B, 0xA3, 0x00, 0xF0, 0x33]);
    run(&mut e, 3);
    assert_eq!(e.ram[0x300], 1);
    assert_eq!(e.ram[0x301], 2);
    assert_eq!(e.ram[0x302], 3);
}

#[test]
fn store_and_load_registers() {
    let mut e = boot(&[
        0x60, 0x11, 0x61, 0x22, 0xA3, 0x00, 0xF1, 0x55, 0x60, 0x00, 0x61, 0x00, 0xF1, 0x65,
    ]);
    run(&mut e, 4);
    assert_eq!(e.ram[0x300], 0x11);
    assert_eq!(e.ram[0x301], 0x22);
    run(&mut e, 3);
    assert_eq!(e.v_reg[0], 0x11);
    assert_eq!(e.v_reg[1], 0x22);
    assert_eq!(e.i_reg, 0x300);
}

#[test]
fn store_registers_out_of_bounds_fails() {
    let mut e = boot(&[0xAF, 0xFF, 0xF1, 0x55]);
    run(&mut e, 1);
    assert_eq!(e.tick(), Err(InterpreterError::OutOfBounds));
}

#[test]
fn font_char_addresses_glyph() {
    let mut e = boot(&[0x60, 0xAB, 0xF0, 0x29]);
    run(&mut e, 2);
    assert_eq!(e.i_reg, 55);
}

#[test]
fn shift_right_keeps_low_bit() {
    let mut e = boot(&[0x60, 0x05, 0x80, 0x06]);
    run(&mut e, 2);
    assert_eq!(e.v_reg[0], 0x02);
    assert_eq!(e.v_reg[15], 0x01);
}

#[test]
fn shift_left_keeps_high_bit() {
    let mut e = boot(&[0x60, 0x81, 0x80, 0x0E]);
    run(&mut e, 2);
    assert_eq!(e.v_reg[0], 0x02);
    assert_eq!(e.v_reg[15], 0x01);
}

#[test]
fn bitwise_and_move_family() {
    let mut e = boot(&[0x60, 0x0C, 0x61, 0x0A, 0x80, 0x11]);
    run(&mut e, 3);
    assert_eq!(e.v_reg[0], 0x0E);
    let mut f = boot(&[0x60, 0x0C, 0x61, 0x0A, 0x80, 0x12]);
    run(&mut f, 3);
    assert_eq!(f.v_reg[0], 0x08);
    let mut g = boot(&[0x60, 0x0C, 0x61, 0x0A, 0x80, 0x13]);
    run(&mut g, 3);
    assert_eq!(g.v_reg[0], 0x06);
    let mut h = boot(&[0x60, 0x0C, 0x61, 0x0A, 0x80, 0x10]);
    run(&mut h, 3);
    assert_eq!(h.v_reg[0], 0x0A);
}

#[test]
fn index_register_ops() {
    let mut e = boot(&[0xA1, 0x23, 0x60, 0x05, 0xF0, 0x1E]);
    run(&mut e, 3);
    assert_eq!(e.i_reg, 0x128);
}

#[test]
fn jump_with_offset() {
    let mut e = boot(&[0x60, 0x05, 0xB3, 0x00]);
    run(&mut e, 2);
    assert_eq!(e.pc, 0x305);
}

#[test]
fn read_delay_timer() {
    let mut e = boot(&[0x60, 0x09, 0xF0, 0x15, 0xF1, 0x07]);
    run(&mut e, 3);
    assert_eq!(e.v_reg[1], 9);
}

#[test]
fn clear_screen_instruction() {
    let mut e = boot(&[0xA0, 0x00, 0xD0, 0x15, 0x00, 0xE0]);
    run(&mut e, 3);
    let mut p = 0;
    while p < 2048 {
        assert!(!e.screen[p]);
        p += 1;
    }
}

#[test]
fn load_rejects_oversized_image() {
    let mut e = Emu::new();
    let too_big: Vec<u8> = vec![0; 3585];
    assert_eq!(e.load(&too_big), Err(InterpreterError::OutOfBounds));
    assert_eq!(e.ram[0x200], 0);
    let just_fits: Vec<u8> = vec![0xAB; 3584];
    assert_eq!(e.load(&just_fits), Ok(()));
    assert_eq!(e.ram[0x200], 0xAB);
    assert_eq!(e.ram[4095], 0xAB);
}

#[test]
fn new_machine_has_font_and_clean_state() {
    let e = Emu::new();
    assert_eq!(e.ram[0], 0xF0);
    assert_eq!(e.ram[79], 0x80);
    assert_eq!(e.ram[80], 0);
    assert_eq!(e.pc, 0x200);
    assert_eq!(e.display().len(), 2048);
    assert!(!e.sound_active());
}

#[test]
fn stack_limit_is_configurable() {
    let mut tight = Emu::with_stack_limit(Some(1));
    tight.load(&vec![0x22, 0x02, 0x22, 0x04]).unwrap();
    assert_eq!(tight.tick(), Ok(()));
    assert_eq!(tight.tick(), Err(InterpreterError::StackOverflow));
    let mut prog: Vec<u8> = Vec::new();
    for k in 0..20u16 {
        let target = 0x202 + 2 * k;
        prog.push((target >> 8) as u8 | 0x20);
        prog.push((target & 0xFF) as u8);
    }
    let mut unbounded = Emu::with_stack_limit(None);
    unbounded.load(&prog).unwrap();
    for _ in 0..20 {
        assert_eq!(unbounded.tick(), Ok(()));
    }
    assert_eq!(unbounded.stack.data.len(), 20);
}
