//! End-to-end tests of the interpreter through its public surface:
//! arithmetic flags, control flow, faults, timers, and the key wait.

use chip8::Chip8;
use chip8::Fault;

fn boot(program: &[u8]) -> Chip8 {
    let mut c = Chip8::new();
    c.load(program);
    c
}

fn run(c: &mut Chip8, steps: usize) {
    for _ in 0..steps {
        c.tick().expect("step faulted");
    }
}

#[test]
fn fresh_machine_layout() {
    let c = Chip8::new();
    assert_eq!(c.program_counter(), 0x200);
    assert_eq!(c.index_reg(), 0);
    // Font table in low memory: glyph 0 starts with 0xF0, glyph F ends 0x80.
    assert_eq!(c.mem_byte(0), 0xF0);
    assert_eq!(c.mem_byte(79), 0x80);
    assert_eq!(c.mem_byte(80), 0);
    for i in 0..16 {
        assert_eq!(c.reg(i), 0);
    }
    let (w, h) = c.dimensions();
    assert_eq!((w, h), (64, 32));
    assert!(c.screen.iter().all(|p| !p));
    assert!(!c.tone());
}

#[test]
fn load_writes_at_entry_address() {
    let c = boot(&[0xAB, 0xCD]);
    assert_eq!(c.mem_byte(0x200), 0xAB);
    assert_eq!(c.mem_byte(0x201), 0xCD);
    assert_eq!(c.mem_byte(0x1FF), 0);
    assert_eq!(c.mem_byte(0x202), 0);
}

#[test]
fn add_immediate_then_register() {
    // V0 <- 5, V1 <- 3, V0 <- V0 + V1: three steps end with V0 = 8, VF = 0.
    let mut c = boot(&[0x60, 0x05, 0x61, 0x03, 0x80, 0x14]);
    run(&mut c, 3);
    assert_eq!(c.reg(0), 8);
    assert_eq!(c.reg(0xF), 0);
}

#[test]
fn add_register_carry() {
    // 200 + 100 = 300: wraps to 44 with VF = 1.
    let mut c = boot(&[0x60, 0xC8, 0x61, 0x64, 0x80, 0x14]);
    run(&mut c, 3);
    assert_eq!(c.reg(0), 44);
    assert_eq!(c.reg(0xF), 1);
}

#[test]
fn add_register_boundary_no_carry() {
    // 200 + 55 = 255: no carry.
    let mut c = boot(&[0x60, 0xC8, 0x61, 0x37, 0x80, 0x14]);
    run(&mut c, 3);
    assert_eq!(c.reg(0), 255);
    assert_eq!(c.reg(0xF), 0);
}

#[test]
fn sub_no_borrow() {
    let mut c = boot(&[0x60, 0x05, 0x61, 0x03, 0x80, 0x15]);
    run(&mut c, 3);
    assert_eq!(c.reg(0), 2);
    assert_eq!(c.reg(0xF), 1);
}

#[test]
fn sub_with_borrow() {
    let mut c = boot(&[0x60, 0x03, 0x61, 0x05, 0x80, 0x15]);
    run(&mut c, 3);
    assert_eq!(c.reg(0), 254);
    assert_eq!(c.reg(0xF), 0);
}

#[test]
fn subn_reverse_operands() {
    // V0 <- V1 - V0 = 5 - 3 = 2, no borrow.
    let mut c = boot(&[0x60, 0x03, 0x61, 0x05, 0x80, 0x17]);
    run(&mut c, 3);
    assert_eq!(c.reg(0), 2);
    assert_eq!(c.reg(0xF), 1);
}

#[test]
fn shift_right_sources_from_vy() {
    // V0 starts at 0xFF; the shift must ignore it and use V1 = 5.
    let mut c = boot(&[0x60, 0xFF, 0x61, 0x05, 0x80, 0x16]);
    run(&mut c, 3);
    assert_eq!(c.reg(0), 2);
    assert_eq!(c.reg(0xF), 1);
}

#[test]
fn shift_left_sources_from_vy() {
    // V1 = 0x81: shifted left gives 2 with the old high bit in VF.
    let mut c = boot(&[0x60, 0xFF, 0x61, 0x81, 0x80, 0x1E]);
    run(&mut c, 3);
    assert_eq!(c.reg(0), 2);
    assert_eq!(c.reg(0xF), 1);
}

#[test]
fn bitwise_ops_reset_vf() {
    // VF <- 1, V0 <- 1, V1 <- 2, V0 <- V0 | V1: the OR resets VF to 0.
    let mut c = boot(&[0x6F, 0x01, 0x60, 0x01, 0x61, 0x02, 0x80, 0x11]);
    run(&mut c, 4);
    assert_eq!(c.reg(0), 3);
    assert_eq!(c.reg(0xF), 0);
}

#[test]
fn and_xor_results() {
    let mut c = boot(&[0x60, 0x0C, 0x61, 0x0A, 0x80, 0x12]);
    run(&mut c, 3);
    assert_eq!(c.reg(0), 0x08);
    let mut d = boot(&[0x60, 0x0C, 0x61, 0x0A, 0x80, 0x13]);
    run(&mut d, 3);
    assert_eq!(d.reg(0), 0x06);
}

#[test]
fn skip_if_equal_immediate() {
    let mut c = boot(&[0x60, 0x05, 0x30, 0x05]);
    run(&mut c, 2);
    // The skip jumps over the instruction after it.
    assert_eq!(c.program_counter(), 0x206);
    let mut d = boot(&[0x60, 0x05, 0x30, 0x06]);
    run(&mut d, 2);
    assert_eq!(d.program_counter(), 0x204);
}

#[test]
fn skip_register_compares() {
    let mut c = boot(&[0x60, 0x05, 0x61, 0x05, 0x50, 0x10]);
    run(&mut c, 3);
    assert_eq!(c.program_counter(), 0x208);
    let mut d = boot(&[0x60, 0x05, 0x61, 0x06, 0x90, 0x10]);
    run(&mut d, 3);
    assert_eq!(d.program_counter(), 0x208);
}

#[test]
fn jump_and_jump_with_offset() {
    let mut c = boot(&[0x13, 0x00]);
    run(&mut c, 1);
    assert_eq!(c.program_counter(), 0x300);
    let mut d = boot(&[0x60, 0x05, 0xB3, 0x00]);
    run(&mut d, 2);
    assert_eq!(d.program_counter(), 0x305);
}

#[test]
fn call_and_return() {
    // Call 0x206, which holds a return; control comes back to 0x202.
    let mut c = boot(&[0x22, 0x06, 0x00, 0x00, 0x00, 0x00, 0x00, 0xEE]);
    run(&mut c, 1);
    assert_eq!(c.program_counter(), 0x206);
    run(&mut c, 1);
    assert_eq!(c.program_counter(), 0x202);
}

#[test]
fn return_on_empty_stack_is_fatal() {
    let mut c = boot(&[0x00, 0xEE]);
    assert_eq!(c.tick(), Err(Fault::StackUnderflow));
    // The fault leaves the machine untouched.
    assert_eq!(c.program_counter(), 0x200);
}

#[test]
fn undefined_word_is_fatal_with_raw_word() {
    let mut c = boot(&[0x5F, 0xFF]);
    assert_eq!(c.tick(), Err(Fault::Unsupported(0x5FFF)));
    assert_eq!(c.program_counter(), 0x200);
}

#[test]
fn seventeenth_nested_call_overflows_stack() {
    // 0x2200 at 0x200 calls 0x200 forever: 16 pushes fit, the 17th faults.
    let mut c = boot(&[0x22, 0x00]);
    for _ in 0..16 {
        assert_eq!(c.tick(), Ok(105));
    }
    assert_eq!(c.tick(), Err(Fault::StackOverflow));
}

#[test]
fn bcd_past_end_of_memory_is_fatal() {
    let mut c = boot(&[0xAF, 0xFF, 0xF0, 0x33]);
    run(&mut c, 1);
    assert_eq!(c.tick(), Err(Fault::OutOfBounds));
}

#[test]
fn fetch_past_end_of_memory_is_fatal() {
    let mut c = boot(&[0x1F, 0xFF]);
    run(&mut c, 1);
    assert_eq!(c.tick(), Err(Fault::OutOfBounds));
}

#[test]
fn keypad_index_past_sixteen_is_fatal() {
    let mut c = boot(&[0x60, 0x10, 0xE0, 0x9E]);
    run(&mut c, 1);
    assert_eq!(c.tick(), Err(Fault::OutOfBounds));
}

#[test]
fn timers_hold_at_zero() {
    let mut c = Chip8::new();
    for _ in 0..5 {
        c.timers();
        assert_eq!(c.delay_timer(), 0);
        assert_eq!(c.sound_timer(), 0);
        assert!(!c.tone());
    }
}

#[test]
fn timers_count_down_to_zero() {
    // Delay <- 3, sound <- 2.
    let mut c = boot(&[0x60, 0x03, 0xF0, 0x15, 0x60, 0x02, 0xF0, 0x18]);
    run(&mut c, 4);
    assert_eq!(c.delay_timer(), 3);
    assert_eq!(c.sound_timer(), 2);
    assert!(c.tone());
    c.timers();
    assert_eq!(c.delay_timer(), 2);
    assert_eq!(c.sound_timer(), 1);
    assert!(c.tone());
    c.timers();
    assert!(!c.tone());
    c.timers();
    assert_eq!(c.delay_timer(), 0);
    assert_eq!(c.sound_timer(), 0);
}

#[test]
fn read_delay_timer_into_register() {
    let mut c = boot(&[0x60, 0x09, 0xF0, 0x15, 0xF1, 0x07]);
    run(&mut c, 3);
    assert_eq!(c.reg(1), 9);
}

#[test]
fn wait_key_rewinds_until_pressed() {
    let mut c = boot(&[0xF0, 0x0A]);
    // No key pressed: the instruction re-executes, at full cost each time.
    assert_eq!(c.tick(), Ok(100));
    assert_eq!(c.program_counter(), 0x200);
    assert_eq!(c.tick(), Ok(100));
    assert_eq!(c.program_counter(), 0x200);
    // Keys 7 and 9 pressed: the scan finds the lowest-numbered one.
    c.keypad[9] = true;
    c.keypad[7] = true;
    assert_eq!(c.tick(), Ok(100));
    assert_eq!(c.program_counter(), 0x202);
    assert_eq!(c.reg(0), 7);
}

#[test]
fn skip_on_key_state() {
    let mut c = boot(&[0x60, 0x04, 0xE0, 0x9E]);
    c.keypad[4] = true;
    run(&mut c, 2);
    assert_eq!(c.program_counter(), 0x206);
    let mut d = boot(&[0x60, 0x04, 0xE0, 0xA1]);
    run(&mut d, 2);
    assert_eq!(d.program_counter(), 0x206);
    let mut e = boot(&[0x60, 0x04, 0xE0, 0x9E]);
    run(&mut e, 2);
    assert_eq!(e.program_counter(), 0x204);
}

#[test]
fn costs_are_per_family() {
    let mut c = boot(&[0x60, 0x05, 0x80, 0x14, 0xD0, 0x01, 0x00, 0xE0]);
    assert_eq!(c.tick(), Ok(27));
    assert_eq!(c.tick(), Ok(200));
    assert_eq!(c.tick(), Ok(22734));
    assert_eq!(c.tick(), Ok(109));
}
