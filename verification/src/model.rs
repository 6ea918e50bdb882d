//! Mathematical model of the virtual machine's state.
//!
//! `Model` is the ghost view of the interpreter: every contract in this
//! crate speaks about values of this type. The machine has 4096 bytes of
//! memory (the low 0x200 reserved for the font sprites), sixteen 8-bit
//! registers, a 16-bit index register and program counter, two 8-bit
//! down-counting timers, a call stack of at most 16 return addresses, a
//! 64 x 32 monochrome screen, and 16 keypad flags.

use vstd::prelude::*;

verus! {

/// Total bytes of machine memory.
pub const MEMORY_SIZE: usize = 4096;

/// Number of general-purpose registers V0..VF.
pub const REGISTER_COUNT: usize = 16;

/// Maximum number of return addresses the call stack may hold.
pub const STACK_LIMIT: usize = 16;

/// Address at which a loaded program begins; everything below is reserved.
pub const START_ADDR: usize = 0x200;

/// Screen width in cells.
pub const SCREEN_WIDTH: usize = 64;

/// Screen height in cells.
pub const SCREEN_HEIGHT: usize = 32;

/// Number of cells on the screen.
pub const SCREEN_CELLS: usize = 2048;

/// Number of keys on the hexadecimal keypad.
pub const KEY_COUNT: usize = 16;

/// Ghost state of the whole machine.
#[verifier::ext_equal]
pub ghost struct Model {
    /// Machine memory, byte by byte; always `MEMORY_SIZE` long.
    pub mem: Seq<u8>,
    /// General-purpose registers V0..VF; always `REGISTER_COUNT` long.
    pub v: Seq<u8>,
    /// Index register.
    pub ir: u16,
    /// Program counter.
    pub pc: u16,
    /// Delay timer.
    pub dt: u8,
    /// Sound timer.
    pub st: u8,
    /// Call stack of return addresses, most recent last.
    pub stack: Seq<u16>,
    /// Screen cells, row-major: cell (x, y) is at index `y * 64 + x`.
    pub screen: Seq<bool>,
    /// Keypad flags, one per hex key.
    pub keypad: Seq<bool>,
}

impl Model {
    /// The structural invariant: every sequence has its architectural length
    /// and the call stack is within its bound.
    pub open spec fn wf(self) -> bool {
        &&& self.mem.len() == MEMORY_SIZE
        &&& self.v.len() == REGISTER_COUNT
        &&& self.stack.len() <= STACK_LIMIT
        &&& self.screen.len() == SCREEN_CELLS
        &&& self.keypad.len() == KEY_COUNT
    }
}

/// The five rows of the font glyph for hex digit `g`.
pub open spec fn glyph(g: int) -> Seq<u8> {
    if g == 0x0 {
        seq![0xF0u8, 0x90, 0x90, 0x90, 0xF0]
    } else if g == 0x1 {
        seq![0x20u8, 0x60, 0x20, 0x20, 0x70]
    } else if g == 0x2 {
        seq![0xF0u8, 0x10, 0xF0, 0x80, 0xF0]
    } else if g == 0x3 {
        seq![0xF0u8, 0x10, 0xF0, 0x10, 0xF0]
    } else if g == 0x4 {
        seq![0x90u8, 0x90, 0xF0, 0x10, 0x10]
    } else if g == 0x5 {
        seq![0xF0u8, 0x80, 0xF0, 0x10, 0xF0]
    } else if g == 0x6 {
        seq![0xF0u8, 0x80, 0xF0, 0x90, 0xF0]
    } else if g == 0x7 {
        seq![0xF0u8, 0x10, 0x20, 0x40, 0x40]
    } else if g == 0x8 {
        seq![0xF0u8, 0x90, 0xF0, 0x90, 0xF0]
    } else if g == 0x9 {
        seq![0xF0u8, 0x90, 0xF0, 0x10, 0xF0]
    } else if g == 0xA {
        seq![0xF0u8, 0x90, 0xF0, 0x90, 0x90]
    } else if g == 0xB {
        seq![0xE0u8, 0x90, 0xE0, 0x90, 0xE0]
    } else if g == 0xC {
        seq![0xF0u8, 0x80, 0x80, 0x80, 0xF0]
    } else if g == 0xD {
        seq![0xE0u8, 0x90, 0x90, 0x90, 0xE0]
    } else if g == 0xE {
        seq![0xF0u8, 0x80, 0xF0, 0x80, 0xF0]
    } else {
        seq![0xF0u8, 0x80, 0xF0, 0x80, 0x80]
    }
}

/// Number of bytes a font glyph occupies.
pub const GLYPH_BYTES: usize = 5;

/// Number of bytes the whole font table occupies (16 glyphs of 5 bytes).
pub const FONT_BYTES: usize = 80;

/// What memory holds at address `i` in a freshly created machine:
/// the font table in the low 80 bytes, zero everywhere else.
pub open spec fn init_mem_byte(i: int) -> u8 {
    if 0 <= i < FONT_BYTES {
        glyph(i / GLYPH_BYTES as int)[i % GLYPH_BYTES as int]
    } else {
        0u8
    }
}

/// The state of a freshly created machine: zeroed registers, timers,
/// screen and keypad, empty stack, program counter at the entry address,
/// and the font table in low memory.
pub open spec fn init_model() -> Model {
    Model {
        mem: Seq::new(MEMORY_SIZE as nat, |i: int| init_mem_byte(i)),
        v: Seq::new(REGISTER_COUNT as nat, |i: int| 0u8),
        ir: 0,
        pc: START_ADDR as u16,
        dt: 0,
        st: 0,
        stack: Seq::empty(),
        screen: Seq::new(SCREEN_CELLS as nat, |i: int| false),
        keypad: Seq::new(KEY_COUNT as nat, |i: int| false),
    }
}

/// The 16-bit big-endian instruction word held at address `at`.
pub open spec fn word_at(mem: Seq<u8>, at: int) -> u16 {
    (mem[at] * 256 + mem[at + 1]) as u16
}

} // verus!
