//! Memory transfers: BCD decomposition, bulk register dump and load with
//! the index-register quirk, index arithmetic, and the random mask.

use chip8::Chip8;

fn boot(program: &[u8]) -> Chip8 {
    let mut c = Chip8::new();
    c.load(program);
    c
}

fn run(c: &mut Chip8, steps: usize) {
    for _ in 0..steps {
        c.tick().expect("step faulted");
    }
}

#[test]
fn bcd_of_255() {
    let mut c = boot(&[0x60, 0xFF, 0xA3, 0x00, 0xF0, 0x33]);
    run(&mut c, 3);
    assert_eq!(c.mem_byte(0x300), 2);
    assert_eq!(c.mem_byte(0x301), 5);
    assert_eq!(c.mem_byte(0x302), 5);
}

#[test]
fn bcd_of_zero() {
    let mut c = boot(&[0x60, 0x00, 0xA3, 0x00, 0xF0, 0x33]);
    run(&mut c, 3);
    assert_eq!(c.mem_byte(0x300), 0);
    assert_eq!(c.mem_byte(0x301), 0);
    assert_eq!(c.mem_byte(0x302), 0);
}

#[test]
fn bcd_of_seven() {
    let mut c = boot(&[0x60, 0x07, 0xA3, 0x00, 0xF0, 0x33]);
    run(&mut c, 3);
    assert_eq!(c.mem_byte(0x300), 0);
    assert_eq!(c.mem_byte(0x301), 0);
    assert_eq!(c.mem_byte(0x302), 7);
}

#[test]
fn dump_and_load_round_trip() {
    // V0..V3 <- 1, 2, 3, 4; dump them at 0x400; zero the registers;
    // point I back at 0x400 and load them again.
    let mut c = boot(&[
        0x60, 0x01, 0x61, 0x02, 0x62, 0x03, 0x63, 0x04, // registers
        0xA4, 0x00, 0xF3, 0x55, // I <- 0x400, dump V0..V3
        0x60, 0x00, 0x61, 0x00, 0x62, 0x00, 0x63, 0x00, // zero them
        0xA4, 0x00, 0xF3, 0x65, // I <- 0x400, load V0..V3
    ]);
    run(&mut c, 6);
    // The dump wrote the registers and moved I one past its old value.
    assert_eq!(c.index_reg(), 0x401);
    assert_eq!(c.mem_byte(0x400), 1);
    assert_eq!(c.mem_byte(0x401), 2);
    assert_eq!(c.mem_byte(0x402), 3);
    assert_eq!(c.mem_byte(0x403), 4);
    run(&mut c, 4);
    assert_eq!(c.reg(0), 0);
    run(&mut c, 2);
    // The load restored the registers, with the same quirk on I.
    assert_eq!(c.index_reg(), 0x401);
    assert_eq!(c.reg(0), 1);
    assert_eq!(c.reg(1), 2);
    assert_eq!(c.reg(2), 3);
    assert_eq!(c.reg(3), 4);
    // V4 was never part of the transfer.
    assert_eq!(c.reg(4), 0);
}

#[test]
fn dump_leaves_memory_after_block_alone() {
    let mut c = boot(&[0x60, 0x09, 0xA4, 0x00, 0xF0, 0x55]);
    run(&mut c, 3);
    assert_eq!(c.mem_byte(0x400), 9);
    assert_eq!(c.mem_byte(0x401), 0);
}

#[test]
fn index_load_and_add() {
    let mut c = boot(&[0xA1, 0x23, 0x60, 0xFF, 0xF0, 0x1E]);
    run(&mut c, 1);
    assert_eq!(c.index_reg(), 0x123);
    run(&mut c, 2);
    assert_eq!(c.index_reg(), 0x123 + 0xFF);
}

#[test]
fn register_copy_and_immediate_wrap() {
    // V1 <- 250, V1 <- V1 + 10 wraps to 4 without touching VF; V0 <- V1.
    let mut c = boot(&[0x61, 0xFA, 0x71, 0x0A, 0x80, 0x10]);
    run(&mut c, 3);
    assert_eq!(c.reg(1), 4);
    assert_eq!(c.reg(0), 4);
    assert_eq!(c.reg(0xF), 0);
}

#[test]
fn random_is_masked() {
    // A zero mask forces V0 to 0 whatever byte the generator returns; a
    // low mask keeps the value under 16. V1 <- 7 guards against the
    // instruction writing a neighbouring register.
    let mut c = boot(&[0x61, 0x07, 0xC0, 0x00, 0xC2, 0x0F]);
    run(&mut c, 3);
    assert_eq!(c.reg(0), 0);
    assert!(c.reg(2) < 16);
    assert_eq!(c.reg(1), 7);
}
