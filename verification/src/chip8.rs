//! The interpreter: the machine state and its fetch-decode-execute cycle.
//!
//! `Chip8` owns all machine state. A frame scheduler outside this crate
//! drives it: it calls [`Chip8::tick`] until the costs returned exhaust
//! the frame's time budget, then [`Chip8::timers`] exactly once, then
//! renders [`Chip8::screen`] and polls [`Chip8::tone`]. The keypad flags
//! are written by the scheduler and only read here.

use vstd::prelude::*;

use crate::model::GLYPH_BYTES;
use crate::model::FONT_BYTES;
use crate::model::KEY_COUNT;
use crate::model::MEMORY_SIZE;
use crate::model::Model;
use crate::model::REGISTER_COUNT;
use crate::model::SCREEN_CELLS;
use crate::model::SCREEN_HEIGHT;
use crate::model::SCREEN_WIDTH;
use crate::model::STACK_LIMIT;
use crate::model::START_ADDR;
use crate::model::glyph;
use crate::model::init_mem_byte;
use crate::model::init_model;
use crate::model::word_at;
use crate::opcode::Fault;
use crate::opcode::Opcode;
use crate::opcode::cost;
use crate::opcode::decode;
use crate::opcode::instruction_cost;
use crate::opcode::op_bounded;
use crate::step::advanced;
use crate::step::draw_collision;
use crate::step::draw_screen;
use crate::step::first_key_from;
use crate::step::hit_at;
use crate::step::hits_before;
use crate::step::lemma_hit_cell_injective;
use crate::step::lemma_mod_near;
use crate::step::loaded_regs;
use crate::step::op_fault;
use crate::step::op_valid;
use crate::step::partial_collision;
use crate::step::partial_screen;
use crate::step::spec_exec;
use crate::step::spec_step;
use crate::step::spec_tick_timers;
use crate::step::sprite_hits;
use crate::step::stored_mem;

verus! {

/// The virtual machine.
///
/// The screen and keypad are public: the rendering collaborator reads the
/// screen cells, and the input collaborator flips keypad flags. Both must
/// keep the vectors at their architectural lengths (64 * 32 cells and 16
/// keys); the interpreter itself never changes either length.
pub struct Chip8 {
    mem: Vec<u8>,
    v: Vec<u8>,
    ir: u16,
    pc: u16,
    dt: u8,
    st: u8,
    stack: Vec<u16>,
    /// Screen cells, row-major: cell (x, y) is at index `y * 64 + x`.
    pub screen: Vec<bool>,
    /// Keypad flags, one per hex key 0..F; read-only to the interpreter.
    pub keypad: Vec<bool>,
}

impl View for Chip8 {
    type V = Model;

    closed spec fn view(&self) -> Model {
        Model {
            mem: self.mem@,
            v: self.v@,
            ir: self.ir,
            pc: self.pc,
            dt: self.dt,
            st: self.st,
            stack: self.stack@,
            screen: self.screen@,
            keypad: self.keypad@,
        }
    }
}

/// Relies on rand::random: a byte drawn uniformly from the thread-local
/// generator. Nothing can be promised of the value, so the contract is
/// empty; the caller states what holds of every byte that can come back.
#[verifier::external_body]
fn random_byte() -> u8 {
    rand::random::<u8>()
}

/// Row `r` of the font glyph for hex digit `g`.
fn glyph_row(g: usize, r: usize) -> (b: u8)
    requires
        g < 16,
        r < GLYPH_BYTES,
    ensures
        b == glyph(g as int)[r as int],
{
    if g == 0x0 {
        if r == 0 { 0xF0 } else if r == 1 { 0x90 } else if r == 2 { 0x90 } else if r == 3 { 0x90 } else { 0xF0 }
    } else if g == 0x1 {
        if r == 0 { 0x20 } else if r == 1 { 0x60 } else if r == 2 { 0x20 } else if r == 3 { 0x20 } else { 0x70 }
    } else if g == 0x2 {
        if r == 0 { 0xF0 } else if r == 1 { 0x10 } else if r == 2 { 0xF0 } else if r == 3 { 0x80 } else { 0xF0 }
    } else if g == 0x3 {
        if r == 0 { 0xF0 } else if r == 1 { 0x10 } else if r == 2 { 0xF0 } else if r == 3 { 0x10 } else { 0xF0 }
    } else if g == 0x4 {
        if r == 0 { 0x90 } else if r == 1 { 0x90 } else if r == 2 { 0xF0 } else if r == 3 { 0x10 } else { 0x10 }
    } else if g == 0x5 {
        if r == 0 { 0xF0 } else if r == 1 { 0x80 } else if r == 2 { 0xF0 } else if r == 3 { 0x10 } else { 0xF0 }
    } else if g == 0x6 {
        if r == 0 { 0xF0 } else if r == 1 { 0x80 } else if r == 2 { 0xF0 } else if r == 3 { 0x90 } else { 0xF0 }
    } else if g == 0x7 {
        if r == 0 { 0xF0 } else if r == 1 { 0x10 } else if r == 2 { 0x20 } else if r == 3 { 0x40 } else { 0x40 }
    } else if g == 0x8 {
        if r == 0 { 0xF0 } else if r == 1 { 0x90 } else if r == 2 { 0xF0 } else if r == 3 { 0x90 } else { 0xF0 }
    } else if g == 0x9 {
        if r == 0 { 0xF0 } else if r == 1 { 0x90 } else if r == 2 { 0xF0 } else if r == 3 { 0x10 } else { 0xF0 }
    } else if g == 0xA {
        if r == 0 { 0xF0 } else if r == 1 { 0x90 } else if r == 2 { 0xF0 } else if r == 3 { 0x90 } else { 0x90 }
    } else if g == 0xB {
        if r == 0 { 0xE0 } else if r == 1 { 0x90 } else if r == 2 { 0xE0 } else if r == 3 { 0x90 } else { 0xE0 }
    } else if g == 0xC {
        if r == 0 { 0xF0 } else if r == 1 { 0x80 } else if r == 2 { 0x80 } else if r == 3 { 0x80 } else { 0xF0 }
    } else if g == 0xD {
        if r == 0 { 0xE0 } else if r == 1 { 0x90 } else if r == 2 { 0x90 } else if r == 3 { 0x90 } else { 0xE0 }
    } else if g == 0xE {
        if r == 0 { 0xF0 } else if r == 1 { 0x80 } else if r == 2 { 0xF0 } else if r == 3 { 0x80 } else { 0xF0 }
    } else {
        if r == 0 { 0xF0 } else if r == 1 { 0x80 } else if r == 2 { 0xF0 } else if r == 3 { 0x80 } else { 0x80 }
    }
}

impl Chip8 {
    /// A freshly created machine: zeroed memory except for the font table
    /// in the reserved low bytes, zeroed registers and timers, an empty
    /// call stack, a dark screen, no key pressed, and the program counter
    /// at the entry address.
    pub fn new() -> (r: Self)
        ensures
            r@ == init_model(),
            r@.wf(),
    {
        let mut mem: Vec<u8> = vec![0u8; MEMORY_SIZE];
        let mut i: usize = 0;
        while i < FONT_BYTES
            invariant
                i <= FONT_BYTES,
                mem@.len() == MEMORY_SIZE,
                forall|j: int| 0 <= j < i ==> mem@[j] == init_mem_byte(j),
                forall|j: int| i <= j < MEMORY_SIZE ==> mem@[j] == 0u8,
            decreases FONT_BYTES - i,
        {
            mem[i] = glyph_row(i / GLYPH_BYTES, i % GLYPH_BYTES);
            i = i + 1;
        }
        let r = Chip8 {
            mem,
            v: vec![0u8; REGISTER_COUNT],
            ir: 0,
            pc: START_ADDR as u16,
            dt: 0,
            st: 0,
            stack: Vec::new(),
            screen: vec![false; SCREEN_CELLS],
            keypad: vec![false; KEY_COUNT],
        };
        proof {
            assert(r@ =~= init_model());
        }
        r
    }

    /// Copy a program into memory at the entry address. The program must
    /// fit below the end of memory; nothing else is touched, so a machine
    /// that has already run keeps its registers, screen and timers.
    pub fn load(&mut self, game: &[u8])
        requires
            old(self)@.wf(),
            START_ADDR + game@.len() <= MEMORY_SIZE,
        ensures
            final(self)@.wf(),
            final(self)@ == (Model {
                mem: stored_at(old(self)@.mem, game@, START_ADDR as int),
                ..old(self)@
            }),
    {
        let mut i: usize = 0;
        while i < game.len()
            invariant
                old(self)@.wf(),
                i <= game@.len(),
                START_ADDR + game@.len() <= MEMORY_SIZE,
                self.mem@.len() == MEMORY_SIZE,
                forall|j: int|
                    0 <= j < MEMORY_SIZE && !(START_ADDR <= j < START_ADDR + i) ==> self.mem@[j]
                        == old(self)@.mem[j],
                forall|j: int| 0 <= j < i ==> self.mem@[START_ADDR + j] == game@[j],
                self.v@ == old(self)@.v,
                self.ir == old(self)@.ir,
                self.pc == old(self)@.pc,
                self.dt == old(self)@.dt,
                self.st == old(self)@.st,
                self.stack@ == old(self)@.stack,
                self.screen@ == old(self)@.screen,
                self.keypad@ == old(self)@.keypad,
            decreases game@.len() - i,
        {
            self.mem[START_ADDR + i] = game[i];
            i = i + 1;
        }
        proof {
            assert(self@ =~= (Model {
                mem: stored_at(old(self)@.mem, game@, START_ADDR as int),
                ..old(self)@
            }));
        }
    }

    /// One frame tick: each timer goes down by one, stopping at zero.
    /// The external scheduler calls this exactly once per display frame,
    /// never during instruction execution.
    pub fn timers(&mut self)
        requires
            old(self)@.wf(),
        ensures
            final(self)@.wf(),
            final(self)@ == spec_tick_timers(old(self)@),
    {
        self.dt = self.dt.saturating_sub(1);
        self.st = self.st.saturating_sub(1);
        proof {
            assert(self@ =~= spec_tick_timers(old(self)@));
        }
    }

    /// Whether the tone is active: exactly when the sound timer is
    /// above zero.
    pub fn tone(&self) -> (r: bool)
        ensures
            r == (self@.st > 0),
    {
        self.st > 0
    }

    /// Screen width and height, in cells.
    pub fn dimensions(&self) -> (r: (usize, usize))
        ensures
            r.0 == SCREEN_WIDTH,
            r.1 == SCREEN_HEIGHT,
    {
        (SCREEN_WIDTH, SCREEN_HEIGHT)
    }

    /// Register Vi.
    pub fn reg(&self, i: usize) -> (r: u8)
        requires
            i < REGISTER_COUNT,
            self@.wf(),
        ensures
            r == self@.v[i as int],
    {
        self.v[i]
    }

    /// The index register.
    pub fn index_reg(&self) -> (r: u16)
        ensures
            r == self@.ir,
    {
        self.ir
    }

    /// The program counter.
    pub fn program_counter(&self) -> (r: u16)
        ensures
            r == self@.pc,
    {
        self.pc
    }

    /// The delay timer.
    pub fn delay_timer(&self) -> (r: u8)
        ensures
            r == self@.dt,
    {
        self.dt
    }

    /// The sound timer.
    pub fn sound_timer(&self) -> (r: u8)
        ensures
            r == self@.st,
    {
        self.st
    }

    /// The memory byte at `addr`.
    pub fn mem_byte(&self, addr: usize) -> (r: u8)
        requires
            addr < MEMORY_SIZE,
            self@.wf(),
        ensures
            r == self@.mem[addr as int],
    {
        self.mem[addr]
    }

    /// The instruction word at the program counter, big-endian. Faults
    /// when the word would extend past the end of memory. Reads only.
    fn fetch(&self) -> (r: Result<u16, Fault>)
        requires
            self@.wf(),
        ensures
            self@.pc + 1 < MEMORY_SIZE ==> r == Ok::<u16, Fault>(
                word_at(self@.mem, self@.pc as int),
            ),
            self@.pc + 1 >= MEMORY_SIZE ==> r == Err::<u16, Fault>(Fault::OutOfBounds),
    {
        let pc = self.pc as usize;
        if pc + 1 >= MEMORY_SIZE {
            return Err(Fault::OutOfBounds);
        }
        let hi = self.mem[pc] as u16;
        let lo = self.mem[pc + 1] as u16;
        let w = (hi << 8) | lo;
        proof {
            let h = self@.mem[self@.pc as int];
            let l = self@.mem[self@.pc as int + 1];
            assert(((h as u16) << 8) | (l as u16) == (h * 256 + l) as u16) by (bit_vector);
        }
        Ok(w)
    }

    /// The fault the opcode would raise on the current state, if any.
    fn fault_of(&self, op: &Opcode) -> (r: Option<Fault>)
        requires
            self@.wf(),
            op_bounded(*op),
        ensures
            r == op_fault(self@, *op),
    {
        match op {
            Opcode::Ret => if self.stack.len() == 0 {
                Some(Fault::StackUnderflow)
            } else {
                None
            },
            Opcode::Call(_) => if self.stack.len() >= STACK_LIMIT {
                Some(Fault::StackOverflow)
            } else {
                None
            },
            Opcode::Drw(_, _, n) => if *n > 0 && self.ir as usize + *n as usize > MEMORY_SIZE {
                Some(Fault::OutOfBounds)
            } else {
                None
            },
            Opcode::Skp(x) => if self.v[*x as usize] as usize >= KEY_COUNT {
                Some(Fault::OutOfBounds)
            } else {
                None
            },
            Opcode::Sknp(x) => if self.v[*x as usize] as usize >= KEY_COUNT {
                Some(Fault::OutOfBounds)
            } else {
                None
            },
            Opcode::Bcd(_) => if self.ir as usize + 3 > MEMORY_SIZE {
                Some(Fault::OutOfBounds)
            } else {
                None
            },
            Opcode::StoreRegs(x) => if self.ir as usize + *x as usize + 1 > MEMORY_SIZE {
                Some(Fault::OutOfBounds)
            } else {
                None
            },
            Opcode::LoadRegs(x) => if self.ir as usize + *x as usize + 1 > MEMORY_SIZE {
                Some(Fault::OutOfBounds)
            } else {
                None
            },
            _ => None,
        }
    }

    /// Clear the display: every screen cell becomes dark.
    fn exec_cls(&mut self)
        requires
            old(self)@.wf(),
        ensures
            final(self)@ == spec_exec(old(self)@, Opcode::Cls, 0),
    {
        self.screen = vec![false; SCREEN_CELLS];
        proof {
            assert(self@ =~= spec_exec(old(self)@, Opcode::Cls, 0));
        }
    }

    /// Block on a key: scan the keypad in order 0 through F; store the
    /// first pressed key's index in Vx, or rewind the program counter so
    /// the instruction re-executes on the next cycle.
    fn exec_wait_key(&mut self, x: u8)
        requires
            old(self)@.wf(),
            x < 16,
            old(self)@.pc >= 2,
        ensures
            final(self)@ == spec_exec(old(self)@, Opcode::WaitKey(x), 0),
    {
        let mut i: usize = 0;
        while i < KEY_COUNT
            invariant
                old(self)@.wf(),
                x < 16,
                old(self)@.pc >= 2,
                i <= KEY_COUNT,
                self@ == old(self)@,
                first_key_from(self@.keypad, 0) == first_key_from(self@.keypad, i as int),
            decreases KEY_COUNT - i,
        {
            if self.keypad[i] {
                self.v[x as usize] = i as u8;
                proof {
                    assert(first_key_from(old(self)@.keypad, i as int) == Some(i as int));
                    assert(self@ =~= spec_exec(old(self)@, Opcode::WaitKey(x), 0));
                }
                return ;
            }
            i = i + 1;
        }
        self.pc = self.pc - 2;
        proof {
            assert(first_key_from(old(self)@.keypad, KEY_COUNT as int) == None::<int>);
            lemma_mod_near(old(self)@.pc - 2 + 0x10000, 0x10000);
            assert(self@ =~= spec_exec(old(self)@, Opcode::WaitKey(x), 0));
        }
    }

    /// Copy V0..Vx inclusive into memory at the index register, then
    /// move the index register up by one.
    fn exec_store_regs(&mut self, x: u8)
        requires
            old(self)@.wf(),
            x < 16,
            old(self)@.ir + x + 1 <= MEMORY_SIZE,
        ensures
            final(self)@ == spec_exec(old(self)@, Opcode::StoreRegs(x), 0),
    {
        let ir: usize = self.ir as usize;
        let count: usize = x as usize + 1;
        let mut off: usize = 0;
        while off < count
            invariant
                old(self)@.wf(),
                x < 16,
                count == x as usize + 1,
                ir == old(self)@.ir as usize,
                ir + count <= MEMORY_SIZE,
                off <= count,
                self.mem@.len() == MEMORY_SIZE,
                forall|j: int|
                    0 <= j < MEMORY_SIZE && !(ir <= j < ir + off) ==> self.mem@[j] == old(
                        self,
                    )@.mem[j],
                forall|j: int| 0 <= j < off ==> self.mem@[ir + j] == old(self)@.v[j],
                self.v@ == old(self)@.v,
                self.ir == old(self)@.ir,
                self.pc == old(self)@.pc,
                self.dt == old(self)@.dt,
                self.st == old(self)@.st,
                self.stack@ == old(self)@.stack,
                self.screen@ == old(self)@.screen,
                self.keypad@ == old(self)@.keypad,
            decreases count - off,
        {
            let byte = self.v[off];
            self.mem[ir + off] = byte;
            off = off + 1;
        }
        self.ir = self.ir + 1;
        proof {
            assert(self@.mem =~= stored_mem(
                old(self)@.mem,
                old(self)@.v,
                old(self)@.ir as int,
                x + 1,
            ));
            assert(self@ =~= spec_exec(old(self)@, Opcode::StoreRegs(x), 0));
        }
    }

    /// Load V0..Vx inclusive from memory at the index register, then
    /// move the index register up by one.
    fn exec_load_regs(&mut self, x: u8)
        requires
            old(self)@.wf(),
            x < 16,
            old(self)@.ir + x + 1 <= MEMORY_SIZE,
        ensures
            final(self)@ == spec_exec(old(self)@, Opcode::LoadRegs(x), 0),
    {
        let ir: usize = self.ir as usize;
        let count: usize = x as usize + 1;
        let mut off: usize = 0;
        while off < count
            invariant
                old(self)@.wf(),
                x < 16,
                count == x as usize + 1,
                ir == old(self)@.ir as usize,
                ir + count <= MEMORY_SIZE,
                off <= count,
                self.v@.len() == REGISTER_COUNT,
                forall|j: int| off <= j < REGISTER_COUNT ==> self.v@[j] == old(self)@.v[j],
                forall|j: int| 0 <= j < off ==> self.v@[j] == old(self)@.mem[ir + j],
                self.mem@ == old(self)@.mem,
                self.ir == old(self)@.ir,
                self.pc == old(self)@.pc,
                self.dt == old(self)@.dt,
                self.st == old(self)@.st,
                self.stack@ == old(self)@.stack,
                self.screen@ == old(self)@.screen,
                self.keypad@ == old(self)@.keypad,
            decreases count - off,
        {
            let byte = self.mem[ir + off];
            self.v[off] = byte;
            off = off + 1;
        }
        self.ir = self.ir + 1;
        proof {
            assert(self@.v =~= loaded_regs(
                old(self)@.v,
                old(self)@.mem,
                old(self)@.ir as int,
                x + 1,
            ));
            assert(self@ =~= spec_exec(old(self)@, Opcode::LoadRegs(x), 0));
        }
    }

    /// Draw the `n`-row sprite held at the index register, XOR-wise, at
    /// the base cell named by registers Vx and Vy. The base coordinates
    /// are reduced modulo the screen size once, and every sprite pixel
    /// wraps around the screen edges. VF reports whether a set cell was
    /// turned off.
    fn exec_draw(&mut self, x: u8, y: u8, n: u8)
        requires
            old(self)@.wf(),
            x < 16,
            y < 16,
            n < 16,
            n > 0 ==> old(self)@.ir + n <= MEMORY_SIZE,
        ensures
            final(self)@ == spec_exec(old(self)@, Opcode::Drw(x, y, n), 0),
    {
        let ghost pre = self@;
        let x0: usize = (self.v[x as usize] % 64) as usize;
        let y0: usize = (self.v[y as usize] % 32) as usize;
        let ghost gx = x0 as int;
        let ghost gy = y0 as int;
        let ir: usize = self.ir as usize;
        let rows: usize = n as usize;
        let mut collided = false;
        let mut r: usize = 0;
        proof {
            assert(self@.screen =~= partial_screen(pre, gx, gy, 0, 0));
        }
        while r < rows
            invariant
                pre.wf(),
                pre == old(self)@,
                x < 16,
                y < 16,
                n < 16,
                gx == pre.v[x as int] as int % 64,
                gy == pre.v[y as int] as int % 32,
                x0 == gx,
                y0 == gy,
                0 <= gx < 64,
                0 <= gy < 32,
                ir == pre.ir as usize,
                rows == n as usize,
                rows > 0 ==> ir + rows <= MEMORY_SIZE,
                r <= rows,
                self.mem@ == pre.mem,
                self.v@ == pre.v,
                self.ir == pre.ir,
                self.pc == pre.pc,
                self.dt == pre.dt,
                self.st == pre.st,
                self.stack@ == pre.stack,
                self.keypad@ == pre.keypad,
                self.screen@.len() == SCREEN_CELLS,
                self.screen@ == partial_screen(pre, gx, gy, r as int, 0),
                collided == partial_collision(pre, gx, gy, r as int, 0),
            decreases rows - r,
        {
            let row: u8 = self.mem[ir + r];
            let mut c: usize = 0;
            proof {
                assert(partial_screen(pre, gx, gy, r as int, 0) =~= partial_screen(
                    pre,
                    gx,
                    gy,
                    r as int,
                    0,
                ));
            }
            while c < 8
                invariant
                    pre.wf(),
                    pre == old(self)@,
                    x < 16,
                    y < 16,
                    n < 16,
                    gx == pre.v[x as int] as int % 64,
                    gy == pre.v[y as int] as int % 32,
                    x0 == gx,
                    y0 == gy,
                    0 <= gx < 64,
                    0 <= gy < 32,
                    ir == pre.ir as usize,
                    rows == n as usize,
                    rows > 0 ==> ir + rows <= MEMORY_SIZE,
                    r < rows,
                    c <= 8,
                    row == pre.mem[ir + r],
                    self.mem@ == pre.mem,
                    self.v@ == pre.v,
                    self.ir == pre.ir,
                    self.pc == pre.pc,
                    self.dt == pre.dt,
                    self.st == pre.st,
                    self.stack@ == pre.stack,
                    self.keypad@ == pre.keypad,
                    self.screen@.len() == SCREEN_CELLS,
                    self.screen@ == partial_screen(pre, gx, gy, r as int, c as int),
                    collided == partial_collision(pre, gx, gy, r as int, c as int),
                decreases 8 - c,
            {
                let ghost gr = r as int;
                let ghost gc = c as int;
                if row & (0x80u8 >> (c as u8)) != 0 {
                    let sx: usize = (x0 + c) % 64;
                    let sy: usize = (y0 + r) % 32;
                    let idx: usize = sy * 64 + sx;
                    proof {
                        lemma_mod_near(gx + gc, 64);
                        lemma_mod_near(gy + gr, 32);
                        assert(hit_at(pre, gx, gy, gr, gc, idx as int));
                        assert(!hits_before(pre, gx, gy, gr, gc, idx as int)) by {
                            if hits_before(pre, gx, gy, gr, gc, idx as int) {
                                let (rr, cc) = choose|rr: int, cc: int|
                                    0 <= rr && 0 <= cc < 8 && (rr < gr || (rr == gr && cc < gc))
                                        && #[trigger] hit_at(pre, gx, gy, rr, cc, idx as int);
                                lemma_hit_cell_injective(
                                    pre,
                                    gx,
                                    gy,
                                    rr,
                                    cc,
                                    gr,
                                    gc,
                                    idx as int,
                                );
                            }
                        }
                    }
                    let px = self.screen[idx];
                    if px {
                        collided = true;
                    }
                    self.screen[idx] = !px;
                    proof {
                        assert(px == pre.screen[idx as int]);
                        assert forall|j: int| 0 <= j < SCREEN_CELLS && j != idx as int implies
                            hits_before(pre, gx, gy, gr, gc + 1, j) == hits_before(
                            pre,
                            gx,
                            gy,
                            gr,
                            gc,
                            j,
                        ) by {
                            if hits_before(pre, gx, gy, gr, gc + 1, j) {
                                let (rr, cc) = choose|rr: int, cc: int|
                                    0 <= rr && 0 <= cc < 8 && (rr < gr || (rr == gr && cc < gc
                                        + 1)) && #[trigger] hit_at(pre, gx, gy, rr, cc, j);
                                if rr == gr && cc == gc {
                                    assert(j == idx as int);
                                } else {
                                    assert(hits_before(pre, gx, gy, gr, gc, j));
                                }
                            }
                            if hits_before(pre, gx, gy, gr, gc, j) {
                                let (rr, cc) = choose|rr: int, cc: int|
                                    0 <= rr && 0 <= cc < 8 && (rr < gr || (rr == gr && cc < gc))
                                        && #[trigger] hit_at(pre, gx, gy, rr, cc, j);
                                assert(hits_before(pre, gx, gy, gr, gc + 1, j));
                            }
                        }
                        assert(hits_before(pre, gx, gy, gr, gc + 1, idx as int));
                        assert(self@.screen =~= partial_screen(pre, gx, gy, gr, gc + 1));
                        assert(collided == partial_collision(pre, gx, gy, gr, gc + 1)) by {
                            if partial_collision(pre, gx, gy, gr, gc + 1) {
                                let j = choose|j: int|
                                    0 <= j < SCREEN_CELLS && #[trigger] hits_before(
                                        pre,
                                        gx,
                                        gy,
                                        gr,
                                        gc + 1,
                                        j,
                                    ) && pre.screen[j];
                                if j != idx as int {
                                    assert(hits_before(pre, gx, gy, gr, gc, j));
                                    assert(partial_collision(pre, gx, gy, gr, gc));
                                }
                            }
                            if partial_collision(pre, gx, gy, gr, gc) {
                                let j = choose|j: int|
                                    0 <= j < SCREEN_CELLS && #[trigger] hits_before(
                                        pre,
                                        gx,
                                        gy,
                                        gr,
                                        gc,
                                        j,
                                    ) && pre.screen[j];
                                assert(hits_before(pre, gx, gy, gr, gc + 1, j));
                            }
                        }
                    }
                } else {
                    proof {
                        assert forall|j: int| 0 <= j < SCREEN_CELLS implies hits_before(
                            pre,
                            gx,
                            gy,
                            gr,
                            gc + 1,
                            j,
                        ) == hits_before(pre, gx, gy, gr, gc, j) by {
                            if hits_before(pre, gx, gy, gr, gc + 1, j) {
                                let (rr, cc) = choose|rr: int, cc: int|
                                    0 <= rr && 0 <= cc < 8 && (rr < gr || (rr == gr && cc < gc
                                        + 1)) && #[trigger] hit_at(pre, gx, gy, rr, cc, j);
                                assert(!(rr == gr && cc == gc));
                                assert(hits_before(pre, gx, gy, gr, gc, j));
                            }
                            if hits_before(pre, gx, gy, gr, gc, j) {
                                let (rr, cc) = choose|rr: int, cc: int|
                                    0 <= rr && 0 <= cc < 8 && (rr < gr || (rr == gr && cc < gc))
                                        && #[trigger] hit_at(pre, gx, gy, rr, cc, j);
                                assert(hits_before(pre, gx, gy, gr, gc + 1, j));
                            }
                        }
                        assert(self@.screen =~= partial_screen(pre, gx, gy, gr, gc + 1));
                        assert(collided == partial_collision(pre, gx, gy, gr, gc + 1)) by {
                            if partial_collision(pre, gx, gy, gr, gc + 1) {
                                let j = choose|j: int|
                                    0 <= j < SCREEN_CELLS && #[trigger] hits_before(
                                        pre,
                                        gx,
                                        gy,
                                        gr,
                                        gc + 1,
                                        j,
                                    ) && pre.screen[j];
                                assert(hits_before(pre, gx, gy, gr, gc, j));
                            }
                            if partial_collision(pre, gx, gy, gr, gc) {
                                let j = choose|j: int|
                                    0 <= j < SCREEN_CELLS && #[trigger] hits_before(
                                        pre,
                                        gx,
                                        gy,
                                        gr,
                                        gc,
                                        j,
                                    ) && pre.screen[j];
                                assert(hits_before(pre, gx, gy, gr, gc + 1, j));
                            }
                        }
                    }
                }
                c = c + 1;
            }
            proof {
                let gr = r as int;
                assert forall|j: int| 0 <= j < SCREEN_CELLS implies hits_before(
                    pre,
                    gx,
                    gy,
                    gr + 1,
                    0,
                    j,
                ) == hits_before(pre, gx, gy, gr, 8, j) by {
                    if hits_before(pre, gx, gy, gr + 1, 0, j) {
                        let (rr, cc) = choose|rr: int, cc: int|
                            0 <= rr && 0 <= cc < 8 && (rr < gr + 1 || (rr == gr + 1 && cc < 0))
                                && #[trigger] hit_at(pre, gx, gy, rr, cc, j);
                        assert(rr < gr || (rr == gr && cc < 8));
                        assert(hits_before(pre, gx, gy, gr, 8, j));
                    }
                    if hits_before(pre, gx, gy, gr, 8, j) {
                        let (rr, cc) = choose|rr: int, cc: int|
                            0 <= rr && 0 <= cc < 8 && (rr < gr || (rr == gr && cc < 8))
                                && #[trigger] hit_at(pre, gx, gy, rr, cc, j);
                        assert(hits_before(pre, gx, gy, gr + 1, 0, j));
                    }
                }
                assert(self@.screen =~= partial_screen(pre, gx, gy, gr + 1, 0));
                assert(collided == partial_collision(pre, gx, gy, gr + 1, 0)) by {
                    if partial_collision(pre, gx, gy, gr + 1, 0) {
                        let j = choose|j: int|
                            0 <= j < SCREEN_CELLS && #[trigger] hits_before(
                                pre,
                                gx,
                                gy,
                                gr + 1,
                                0,
                                j,
                            ) && pre.screen[j];
                        assert(hits_before(pre, gx, gy, gr, 8, j));
                    }
                    if partial_collision(pre, gx, gy, gr, 8) {
                        let j = choose|j: int|
                            0 <= j < SCREEN_CELLS && #[trigger] hits_before(pre, gx, gy, gr, 8, j)
                                && pre.screen[j];
                        assert(hits_before(pre, gx, gy, gr + 1, 0, j));
                    }
                }
            }
            r = r + 1;
        }
        let flag: u8 = if collided {
            1
        } else {
            0
        };
        self.v[15] = flag;
        proof {
            let gn = rows as int;
            assert forall|j: int| 0 <= j < SCREEN_CELLS implies hits_before(pre, gx, gy, gn, 0, j)
                == sprite_hits(pre, gx, gy, gn, j) by {
                if hits_before(pre, gx, gy, gn, 0, j) {
                    let (rr, cc) = choose|rr: int, cc: int|
                        0 <= rr && 0 <= cc < 8 && (rr < gn || (rr == gn && cc < 0))
                            && #[trigger] hit_at(pre, gx, gy, rr, cc, j);
                    assert(sprite_hits(pre, gx, gy, gn, j));
                }
                if sprite_hits(pre, gx, gy, gn, j) {
                    let (rr, cc) = choose|rr: int, cc: int|
                        0 <= rr < gn && 0 <= cc < 8 && #[trigger] hit_at(pre, gx, gy, rr, cc, j);
                    assert(hits_before(pre, gx, gy, gn, 0, j));
                }
            }
            assert(self@.screen =~= draw_screen(pre, gx, gy, gn));
            assert(collided == draw_collision(pre, gx, gy, gn)) by {
                if draw_collision(pre, gx, gy, gn) {
                    let j = choose|j: int|
                        0 <= j < SCREEN_CELLS && #[trigger] sprite_hits(pre, gx, gy, gn, j)
                            && pre.screen[j];
                    assert(hits_before(pre, gx, gy, gn, 0, j));
                    assert(partial_collision(pre, gx, gy, gn, 0));
                }
                if partial_collision(pre, gx, gy, gn, 0) {
                    let j = choose|j: int|
                        0 <= j < SCREEN_CELLS && #[trigger] hits_before(pre, gx, gy, gn, 0, j)
                            && pre.screen[j];
                    assert(sprite_hits(pre, gx, gy, gn, j));
                }
            }
            assert(self@ =~= spec_exec(old(self)@, Opcode::Drw(x, y, n), 0));
        }
    }

    /// Apply one validated opcode. The program counter has already moved
    /// past the instruction, so jumps overwrite it and the blocking key
    /// wait rewinds it. Returns the opcode's fixed cost. The final state
    /// is `spec_exec` of the initial one, for the random byte actually
    /// drawn — which only the `Cxnn` opcode consumes.
    fn execute(&mut self, op: Opcode) -> (c: i64)
        requires
            old(self)@.wf(),
            op_bounded(op),
            op_valid(old(self)@, op),
            2 <= old(self)@.pc,
            old(self)@.pc + 2 < 0x10000,
        ensures
            final(self)@.wf(),
            exists|b: u8| final(self)@ == #[trigger] spec_exec(old(self)@, op, b),
            c == cost(op),
    {
        match op {
            Opcode::Cls => {
                self.exec_cls();
            },
            Opcode::Ret => {
                let a = self.stack.pop().unwrap();
                self.pc = a;
                proof {
                    assert(self@ =~= spec_exec(old(self)@, op, 0));
                }
            },
            Opcode::Jp(a) => {
                self.pc = a;
                proof {
                    assert(self@ =~= spec_exec(old(self)@, op, 0));
                }
            },
            Opcode::Call(a) => {
                let here = self.pc;
                self.stack.push(here);
                self.pc = a;
                proof {
                    assert(self@ =~= spec_exec(old(self)@, op, 0));
                }
            },
            Opcode::SeImm(x, k) => {
                if self.v[x as usize] == k {
                    self.pc = self.pc + 2;
                }
                proof {
                    assert(self@ =~= spec_exec(old(self)@, op, 0));
                }
            },
            Opcode::SneImm(x, k) => {
                if self.v[x as usize] != k {
                    self.pc = self.pc + 2;
                }
                proof {
                    assert(self@ =~= spec_exec(old(self)@, op, 0));
                }
            },
            Opcode::SeReg(x, y) => {
                if self.v[x as usize] == self.v[y as usize] {
                    self.pc = self.pc + 2;
                }
                proof {
                    assert(self@ =~= spec_exec(old(self)@, op, 0));
                }
            },
            Opcode::LdImm(x, k) => {
                self.v[x as usize] = k;
                proof {
                    assert(self@ =~= spec_exec(old(self)@, op, 0));
                }
            },
            Opcode::AddImm(x, k) => {
                let sum: u16 = self.v[x as usize] as u16 + k as u16;
                self.v[x as usize] = (sum % 256) as u8;
                proof {
                    assert(self@ =~= spec_exec(old(self)@, op, 0));
                }
            },
            Opcode::Mov(x, y) => {
                self.v[x as usize] = self.v[y as usize];
                proof {
                    assert(self@ =~= spec_exec(old(self)@, op, 0));
                }
            },
            Opcode::Or(x, y) => {
                let res = self.v[x as usize] | self.v[y as usize];
                self.v[x as usize] = res;
                self.v[15] = 0;
                proof {
                    assert(self@ =~= spec_exec(old(self)@, op, 0));
                }
            },
            Opcode::And(x, y) => {
                let res = self.v[x as usize] & self.v[y as usize];
                self.v[x as usize] = res;
                self.v[15] = 0;
                proof {
                    assert(self@ =~= spec_exec(old(self)@, op, 0));
                }
            },
            Opcode::Xor(x, y) => {
                let res = self.v[x as usize] ^ self.v[y as usize];
                self.v[x as usize] = res;
                self.v[15] = 0;
                proof {
                    assert(self@ =~= spec_exec(old(self)@, op, 0));
                }
            },
            Opcode::Add(x, y) => {
                let sum: u16 = self.v[x as usize] as u16 + self.v[y as usize] as u16;
                self.v[x as usize] = (sum % 256) as u8;
                self.v[15] = if sum >= 256 {
                    1
                } else {
                    0
                };
                proof {
                    assert(self@ =~= spec_exec(old(self)@, op, 0));
                }
            },
            Opcode::Sub(x, y) => {
                let vx = self.v[x as usize];
                let vy = self.v[y as usize];
                let diff: u16 = vx as u16 + 256 - vy as u16;
                self.v[x as usize] = (diff % 256) as u8;
                self.v[15] = if vx >= vy {
                    1
                } else {
                    0
                };
                proof {
                    assert(self@ =~= spec_exec(old(self)@, op, 0));
                }
            },
            Opcode::Shr(x, y) => {
                let vy = self.v[y as usize];
                self.v[x as usize] = vy >> 1;
                self.v[15] = vy & 1;
                proof {
                    assert(vy >> 1 == vy / 2) by (bit_vector);
                    assert(vy & 1 == vy % 2) by (bit_vector);
                    assert(self@ =~= spec_exec(old(self)@, op, 0));
                }
            },
            Opcode::Subn(x, y) => {
                let vx = self.v[x as usize];
                let vy = self.v[y as usize];
                let diff: u16 = vy as u16 + 256 - vx as u16;
                self.v[x as usize] = (diff % 256) as u8;
                self.v[15] = if vy >= vx {
                    1
                } else {
                    0
                };
                proof {
                    assert(self@ =~= spec_exec(old(self)@, op, 0));
                }
            },
            Opcode::Shl(x, y) => {
                let vy = self.v[y as usize];
                self.v[x as usize] = vy << 1;
                self.v[15] = (vy >> 7) & 1;
                proof {
                    assert(vy << 1 == ((vy * 2) % 256) as u8) by (bit_vector);
                    assert((vy >> 7) & 1 == vy / 128) by (bit_vector);
                    assert(self@ =~= spec_exec(old(self)@, op, 0));
                }
            },
            Opcode::SneReg(x, y) => {
                if self.v[x as usize] != self.v[y as usize] {
                    self.pc = self.pc + 2;
                }
                proof {
                    assert(self@ =~= spec_exec(old(self)@, op, 0));
                }
            },
            Opcode::LdI(a) => {
                self.ir = a;
                proof {
                    assert(self@ =~= spec_exec(old(self)@, op, 0));
                }
            },
            Opcode::JpV0(a) => {
                let target: u32 = (self.v[0] as u32 + a as u32) % 0x10000;
                self.pc = target as u16;
                proof {
                    assert(self@ =~= spec_exec(old(self)@, op, 0));
                }
            },
            Opcode::Rnd(x, k) => {
                let b = random_byte();
                self.v[x as usize] = b & k;
                proof {
                    assert(self@ =~= spec_exec(old(self)@, op, b));
                    assert(self@ == spec_exec(old(self)@, op, b));
                }
            },
            Opcode::Drw(x, y, n) => {
                self.exec_draw(x, y, n);
            },
            Opcode::Skp(x) => {
                let k = self.v[x as usize] as usize;
                if self.keypad[k] {
                    self.pc = self.pc + 2;
                }
                proof {
                    assert(self@ =~= spec_exec(old(self)@, op, 0));
                }
            },
            Opcode::Sknp(x) => {
                let k = self.v[x as usize] as usize;
                if !self.keypad[k] {
                    self.pc = self.pc + 2;
                }
                proof {
                    assert(self@ =~= spec_exec(old(self)@, op, 0));
                }
            },
            Opcode::LdFromDt(x) => {
                self.v[x as usize] = self.dt;
                proof {
                    assert(self@ =~= spec_exec(old(self)@, op, 0));
                }
            },
            Opcode::WaitKey(x) => {
                self.exec_wait_key(x);
            },
            Opcode::LdDt(x) => {
                self.dt = self.v[x as usize];
                proof {
                    assert(self@ =~= spec_exec(old(self)@, op, 0));
                }
            },
            Opcode::LdSt(x) => {
                self.st = self.v[x as usize];
                proof {
                    assert(self@ =~= spec_exec(old(self)@, op, 0));
                }
            },
            Opcode::AddI(x) => {
                let sum: u32 = (self.ir as u32 + self.v[x as usize] as u32) % 0x10000;
                self.ir = sum as u16;
                proof {
                    assert(self@ =~= spec_exec(old(self)@, op, 0));
                }
            },
            Opcode::LdFont(x) => {
                self.ir = (self.v[x as usize] % 16) as u16 * 5;
                proof {
                    assert(self@ =~= spec_exec(old(self)@, op, 0));
                }
            },
            Opcode::Bcd(x) => {
                let ir = self.ir as usize;
                let vx = self.v[x as usize];
                self.mem[ir] = vx / 100;
                self.mem[ir + 1] = (vx / 10) % 10;
                self.mem[ir + 2] = vx % 10;
                proof {
                    assert(self@ =~= spec_exec(old(self)@, op, 0));
                }
            },
            Opcode::StoreRegs(x) => {
                self.exec_store_regs(x);
            },
            Opcode::LoadRegs(x) => {
                self.exec_load_regs(x);
            },
        }
        instruction_cost(&op)
    }

    /// One fetch-decode-execute cycle: read the instruction word at the
    /// program counter, move the counter past it, and apply the opcode.
    ///
    /// On success the result is the opcode's fixed cost and the new state
    /// is `spec_step` of the old one, for some value of the random byte
    /// that the `Cxnn` opcode consumes. A fault — an instruction word
    /// past the end of memory, an undefined opcode (reported with the raw
    /// word), a return with an empty stack, a call with a full stack, or
    /// an access outside memory or the keypad — is returned as an error
    /// and leaves the machine state exactly as it was.
    pub fn tick(&mut self) -> (r: Result<i64, Fault>)
        requires
            old(self)@.wf(),
        ensures
            final(self)@.wf(),
            exists|b: u8|
                ({
                    let s = #[trigger] spec_step(old(self)@, b);
                    final(self)@ == s.0 && r == s.1
                }),
            r is Err ==> final(self)@ == old(self)@,
    {
        let ghost pre = old(self)@;
        let w = match self.fetch() {
            Ok(w) => w,
            Err(f) => {
                proof {
                    let s = spec_step(pre, 0);
                    assert(self@ == s.0 && Err::<i64, Fault>(f) == s.1);
                }
                return Err(f);
            },
        };
        let op = match decode(w) {
            Some(op) => op,
            None => {
                proof {
                    let s = spec_step(pre, 0);
                    assert(self@ == s.0 && Err::<i64, Fault>(Fault::Unsupported(w)) == s.1);
                }
                return Err(Fault::Unsupported(w));
            },
        };
        if let Some(f) = self.fault_of(&op) {
            proof {
                let s = spec_step(pre, 0);
                assert(self@ == s.0 && Err::<i64, Fault>(f) == s.1);
            }
            return Err(f);
        }
        self.pc = self.pc + 2;
        let ghost mid = self@;
        proof {
            assert(mid =~= advanced(pre));
            assert(op_fault(mid, op) == op_fault(pre, op));
        }
        let c = self.execute(op);
        proof {
            let b = choose|b: u8| self@ == #[trigger] spec_exec(mid, op, b);
            let s = spec_step(pre, b);
            assert(self@ == s.0 && Ok::<i64, Fault>(c) == s.1);
        }
        Ok(c)
    }
}

/// `base`'s contents with `data` written at offset `at`.
pub open spec fn stored_at(base: Seq<u8>, data: Seq<u8>, at: int) -> Seq<u8> {
    Seq::new(base.len(), |i: int| if at <= i < at + data.len() { data[i - at] } else { base[i] })
}

} // verus!
