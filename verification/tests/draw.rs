//! Sprite drawing: XOR semantics, the collision flag, screen wrap, and
//! the font pointer.

use chip8::Chip8;

fn boot(program: &[u8]) -> Chip8 {
    let mut c = Chip8::new();
    c.load(program);
    c
}

fn run(c: &mut Chip8, steps: usize) {
    for _ in 0..steps {
        c.tick().expect("step faulted");
    }
}

fn cell(c: &Chip8, x: usize, y: usize) -> bool {
    c.screen[y * 64 + x]
}

#[test]
fn draw_glyph_sets_pixels_without_collision() {
    // V0 <- 0, I <- font glyph 0, draw its 5 rows at (0, 0).
    let mut c = boot(&[0x60, 0x00, 0xF0, 0x29, 0xD0, 0x05]);
    run(&mut c, 3);
    // Glyph 0 row 0 is 0xF0: leftmost four columns set.
    assert!(cell(&c, 0, 0) && cell(&c, 1, 0) && cell(&c, 2, 0) && cell(&c, 3, 0));
    assert!(!cell(&c, 4, 0));
    // Glyph 0 row 1 is 0x90: columns 0 and 3 set.
    assert!(cell(&c, 0, 1) && !cell(&c, 1, 1) && !cell(&c, 2, 1) && cell(&c, 3, 1));
    assert_eq!(c.reg(0xF), 0);
}

#[test]
fn draw_twice_clears_and_collides() {
    let mut c = boot(&[0x60, 0x00, 0xF0, 0x29, 0xD0, 0x05, 0xD0, 0x05]);
    run(&mut c, 3);
    assert_eq!(c.reg(0xF), 0);
    assert!(cell(&c, 0, 0));
    run(&mut c, 1);
    // Second identical draw: every touched pixel cleared, collision set.
    assert_eq!(c.reg(0xF), 1);
    assert!(c.screen.iter().all(|p| !p));
}

#[test]
fn partial_overlap_collides_and_xors() {
    // Draw glyph 0 at (0,0), then again shifted one column right.
    let mut c = boot(&[0x60, 0x00, 0xF0, 0x29, 0xD0, 0x05, 0x61, 0x01, 0xD1, 0x05]);
    run(&mut c, 5);
    assert_eq!(c.reg(0xF), 1);
    // Row 0: 0xF0 at column 0 XOR 0xF0 at column 1 leaves columns 0 and 4.
    assert!(cell(&c, 0, 0));
    assert!(!cell(&c, 1, 0) && !cell(&c, 2, 0) && !cell(&c, 3, 0));
    assert!(cell(&c, 4, 0));
}

#[test]
fn draw_wraps_at_screen_edges() {
    // An 8x1 sprite (font glyph 0 row 0, 0xF0) drawn at (63, 31): its
    // columns continue at 0 and a second row would continue at the top.
    let mut c = boot(&[0x60, 0x3F, 0x61, 0x1F, 0xA0, 0x00, 0xD0, 0x12]);
    run(&mut c, 4);
    // Row 31 holds sprite row 0 (0xF0): columns 63, 0, 1, 2.
    assert!(cell(&c, 63, 31) && cell(&c, 0, 31) && cell(&c, 1, 31) && cell(&c, 2, 31));
    assert!(!cell(&c, 3, 31));
    // Row 0 holds sprite row 1 (0x90): columns 63 and 2.
    assert!(cell(&c, 63, 0) && cell(&c, 2, 0));
    assert!(!cell(&c, 0, 0) && !cell(&c, 1, 0));
    assert_eq!(c.reg(0xF), 0);
}

#[test]
fn base_coordinates_reduce_before_drawing() {
    // (64, 32) is the same base cell as (0, 0).
    let mut c = boot(&[0x60, 0x40, 0x61, 0x20, 0xA0, 0x00, 0xD0, 0x11]);
    run(&mut c, 4);
    assert!(cell(&c, 0, 0) && cell(&c, 1, 0) && cell(&c, 2, 0) && cell(&c, 3, 0));
}

#[test]
fn clear_screen_darkens_everything() {
    let mut c = boot(&[0x60, 0x00, 0xF0, 0x29, 0xD0, 0x05, 0x00, 0xE0]);
    run(&mut c, 3);
    assert!(c.screen.iter().any(|p| *p));
    run(&mut c, 1);
    assert!(c.screen.iter().all(|p| !p));
}

#[test]
fn font_pointer_uses_low_nibble() {
    // V0 = 0x2A: the glyph is for digit A, at offset 10 * 5 = 50.
    let mut c = boot(&[0x60, 0x2A, 0xF0, 0x29]);
    run(&mut c, 2);
    assert_eq!(c.index_reg(), 50);
}
