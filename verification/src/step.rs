//! The transition relation of the machine, as spec functions.
//!
//! `spec_step` says exactly what one fetch-decode-execute cycle does to a
//! [`Model`]: which faults it can raise, and for every defined opcode the
//! state it leaves behind and the cost it reports. The `Cxnn` opcode is the
//! one source of nondeterminism; `spec_step` therefore takes the random
//! byte as an argument, and the interpreter's contract quantifies over it.
//! A step that faults leaves the machine state unchanged.

use vstd::prelude::*;

use crate::model::Model;
use crate::model::KEY_COUNT;
use crate::model::MEMORY_SIZE;
use crate::model::SCREEN_CELLS;
use crate::model::SCREEN_HEIGHT;
use crate::model::SCREEN_WIDTH;
use crate::model::STACK_LIMIT;
use crate::model::word_at;
use crate::opcode::Fault;
use crate::opcode::Opcode;
use crate::opcode::cost;
use crate::opcode::spec_decode;

verus! {

/// An integer reduced to 8 bits (wraparound arithmetic).
pub open spec fn wrap8(n: int) -> u8 {
    (n % 256) as u8
}

/// An integer reduced to 16 bits (wraparound arithmetic).
pub open spec fn wrap16(n: int) -> u16 {
    (n % 0x10000) as u16
}

/// The machine after a conditional skip: the program counter moves past
/// the next instruction when the condition holds.
pub open spec fn skip_if(m: Model, cond: bool) -> Model {
    if cond {
        Model { pc: (m.pc + 2) as u16, ..m }
    } else {
        m
    }
}

/// Whether bit `c` of a sprite row is set, counting bit 7 (the leftmost
/// drawn column) as `c == 0`.
pub open spec fn sprite_on(row: u8, c: int) -> bool {
    row & (0x80u8 >> (c as u8)) != 0
}

/// The row-major index of screen cell `(sx, sy)`.
pub open spec fn cell_index(sx: int, sy: int) -> int {
    sy * SCREEN_WIDTH + sx
}

/// Whether sprite pixel `(r, c)` of the sprite rooted at base cell
/// `(x0, y0)` is set and lands on screen cell `idx`. Target coordinates
/// wrap around the screen edges.
pub open spec fn hit_at(m: Model, x0: int, y0: int, r: int, c: int, idx: int) -> bool {
    &&& sprite_on(m.mem[m.ir + r], c)
    &&& idx == cell_index((x0 + c) % (SCREEN_WIDTH as int), (y0 + r) % (SCREEN_HEIGHT as int))
}

/// Whether any set pixel of the first `n` sprite rows lands on cell `idx`.
pub open spec fn sprite_hits(m: Model, x0: int, y0: int, n: int, idx: int) -> bool {
    exists|r: int, c: int| 0 <= r < n && 0 <= c < 8 && #[trigger] hit_at(m, x0, y0, r, c, idx)
}

/// The screen after drawing the `n`-row sprite at the index register to
/// base cell `(x0, y0)`: every cell a set sprite pixel lands on is
/// toggled, every other cell keeps its value.
pub open spec fn draw_screen(m: Model, x0: int, y0: int, n: int) -> Seq<bool> {
    Seq::new(SCREEN_CELLS as nat, |idx: int| m.screen[idx] != sprite_hits(m, x0, y0, n, idx))
}

/// Whether the draw turns at least one previously-set cell off, which is
/// exactly when a set sprite pixel lands on a set cell.
pub open spec fn draw_collision(m: Model, x0: int, y0: int, n: int) -> bool {
    exists|idx: int|
        0 <= idx < SCREEN_CELLS && #[trigger] sprite_hits(m, x0, y0, n, idx) && m.screen[idx]
}

/// Whether a set sprite pixel among those processed before pixel
/// `(r0, c0)` — in row-major sprite order — lands on cell `idx`.
pub open spec fn hits_before(m: Model, x0: int, y0: int, r0: int, c0: int, idx: int) -> bool {
    exists|r: int, c: int|
        0 <= r && 0 <= c < 8 && (r < r0 || (r == r0 && c < c0)) && #[trigger] hit_at(
            m,
            x0,
            y0,
            r,
            c,
            idx,
        )
}

/// The screen part-way through a draw: only the sprite pixels before
/// `(r0, c0)` have been applied.
pub open spec fn partial_screen(m: Model, x0: int, y0: int, r0: int, c0: int) -> Seq<bool> {
    Seq::new(
        SCREEN_CELLS as nat,
        |idx: int| m.screen[idx] != hits_before(m, x0, y0, r0, c0, idx),
    )
}

/// Whether a collision has happened part-way through a draw.
pub open spec fn partial_collision(m: Model, x0: int, y0: int, r0: int, c0: int) -> bool {
    exists|idx: int|
        0 <= idx < SCREEN_CELLS && #[trigger] hits_before(m, x0, y0, r0, c0, idx) && m.screen[idx]
}

/// The index of the lowest-numbered pressed key at or above `i`, if any.
pub open spec fn first_key_from(kp: Seq<bool>, i: int) -> Option<int>
    decreases KEY_COUNT - i,
{
    if i < 0 || i >= KEY_COUNT {
        None
    } else if kp[i] {
        Some(i)
    } else {
        first_key_from(kp, i + 1)
    }
}

/// Memory after the first `count` registers are copied to addresses
/// `ir`, `ir + 1`, ...
pub open spec fn stored_mem(mem: Seq<u8>, v: Seq<u8>, ir: int, count: int) -> Seq<u8> {
    Seq::new(mem.len(), |i: int| if ir <= i < ir + count { v[i - ir] } else { mem[i] })
}

/// Registers after the first `count` of them are loaded from addresses
/// `ir`, `ir + 1`, ...
pub open spec fn loaded_regs(v: Seq<u8>, mem: Seq<u8>, ir: int, count: int) -> Seq<u8> {
    Seq::new(v.len(), |i: int| if 0 <= i < count { mem[ir + i] } else { v[i] })
}

/// The fault a validated opcode would raise, if any: a return with an
/// empty stack, a call with a full stack, a keypad test with a register
/// value of 16 or more, or a memory access past the end of memory.
pub open spec fn op_fault(m: Model, op: Opcode) -> Option<Fault> {
    match op {
        Opcode::Ret => if m.stack.len() == 0 {
            Some(Fault::StackUnderflow)
        } else {
            None
        },
        Opcode::Call(_) => if m.stack.len() >= STACK_LIMIT {
            Some(Fault::StackOverflow)
        } else {
            None
        },
        Opcode::Drw(_, _, n) => if n > 0 && m.ir + n > MEMORY_SIZE {
            Some(Fault::OutOfBounds)
        } else {
            None
        },
        Opcode::Skp(x) => if m.v[x as int] >= KEY_COUNT {
            Some(Fault::OutOfBounds)
        } else {
            None
        },
        Opcode::Sknp(x) => if m.v[x as int] >= KEY_COUNT {
            Some(Fault::OutOfBounds)
        } else {
            None
        },
        Opcode::Bcd(_) => if m.ir + 3 > MEMORY_SIZE {
            Some(Fault::OutOfBounds)
        } else {
            None
        },
        Opcode::StoreRegs(x) => if m.ir + x + 1 > MEMORY_SIZE {
            Some(Fault::OutOfBounds)
        } else {
            None
        },
        Opcode::LoadRegs(x) => if m.ir + x + 1 > MEMORY_SIZE {
            Some(Fault::OutOfBounds)
        } else {
            None
        },
        _ => None,
    }
}

/// Whether the opcode executes without a fault on this machine state.
pub open spec fn op_valid(m: Model, op: Opcode) -> bool {
    op_fault(m, op) is None
}

/// What executing one validated opcode does to the machine. `m` is the
/// state with the program counter already moved past the instruction, so
/// jumps overwrite it and the blocking key wait rewinds it. `rnd` is the
/// random byte consumed by `Cxnn` and ignored by every other opcode.
pub open spec fn spec_exec(m: Model, op: Opcode, rnd: u8) -> Model {
    match op {
        Opcode::Cls => Model {
            screen: Seq::new(SCREEN_CELLS as nat, |i: int| false),
            ..m
        },
        Opcode::Ret => Model { pc: m.stack.last(), stack: m.stack.drop_last(), ..m },
        Opcode::Jp(a) => Model { pc: a, ..m },
        Opcode::Call(a) => Model { stack: m.stack.push(m.pc), pc: a, ..m },
        Opcode::SeImm(x, k) => skip_if(m, m.v[x as int] == k),
        Opcode::SneImm(x, k) => skip_if(m, m.v[x as int] != k),
        Opcode::SeReg(x, y) => skip_if(m, m.v[x as int] == m.v[y as int]),
        Opcode::LdImm(x, k) => Model { v: m.v.update(x as int, k), ..m },
        Opcode::AddImm(x, k) => Model {
            v: m.v.update(x as int, wrap8(m.v[x as int] + k)),
            ..m
        },
        Opcode::Mov(x, y) => Model { v: m.v.update(x as int, m.v[y as int]), ..m },
        Opcode::Or(x, y) => Model {
            v: m.v.update(x as int, m.v[x as int] | m.v[y as int]).update(15, 0u8),
            ..m
        },
        Opcode::And(x, y) => Model {
            v: m.v.update(x as int, m.v[x as int] & m.v[y as int]).update(15, 0u8),
            ..m
        },
        Opcode::Xor(x, y) => Model {
            v: m.v.update(x as int, m.v[x as int] ^ m.v[y as int]).update(15, 0u8),
            ..m
        },
        Opcode::Add(x, y) => Model {
            v: m.v.update(x as int, wrap8(m.v[x as int] + m.v[y as int])).update(
                15,
                if m.v[x as int] + m.v[y as int] >= 256 {
                    1u8
                } else {
                    0u8
                },
            ),
            ..m
        },
        Opcode::Sub(x, y) => Model {
            v: m.v.update(x as int, wrap8(m.v[x as int] - m.v[y as int] + 256)).update(
                15,
                if m.v[x as int] >= m.v[y as int] {
                    1u8
                } else {
                    0u8
                },
            ),
            ..m
        },
        Opcode::Shr(x, y) => Model {
            v: m.v.update(x as int, m.v[y as int] / 2).update(15, m.v[y as int] % 2),
            ..m
        },
        Opcode::Subn(x, y) => Model {
            v: m.v.update(x as int, wrap8(m.v[y as int] - m.v[x as int] + 256)).update(
                15,
                if m.v[y as int] >= m.v[x as int] {
                    1u8
                } else {
                    0u8
                },
            ),
            ..m
        },
        Opcode::Shl(x, y) => Model {
            v: m.v.update(x as int, wrap8(m.v[y as int] * 2)).update(15, m.v[y as int] / 128),
            ..m
        },
        Opcode::SneReg(x, y) => skip_if(m, m.v[x as int] != m.v[y as int]),
        Opcode::LdI(a) => Model { ir: a, ..m },
        Opcode::JpV0(a) => Model { pc: wrap16(m.v[0] + a), ..m },
        Opcode::Rnd(x, k) => Model { v: m.v.update(x as int, rnd & k), ..m },
        Opcode::Drw(x, y, n) => {
            let x0 = m.v[x as int] as int % (SCREEN_WIDTH as int);
            let y0 = m.v[y as int] as int % (SCREEN_HEIGHT as int);
            Model {
                screen: draw_screen(m, x0, y0, n as int),
                v: m.v.update(
                    15,
                    if draw_collision(m, x0, y0, n as int) {
                        1u8
                    } else {
                        0u8
                    },
                ),
                ..m
            }
        },
        Opcode::Skp(x) => skip_if(m, m.keypad[m.v[x as int] as int]),
        Opcode::Sknp(x) => skip_if(m, !m.keypad[m.v[x as int] as int]),
        Opcode::LdFromDt(x) => Model { v: m.v.update(x as int, m.dt), ..m },
        Opcode::WaitKey(x) => match first_key_from(m.keypad, 0) {
            Some(k) => Model { v: m.v.update(x as int, k as u8), ..m },
            None => Model { pc: wrap16(m.pc - 2 + 0x10000), ..m },
        },
        Opcode::LdDt(x) => Model { dt: m.v[x as int], ..m },
        Opcode::LdSt(x) => Model { st: m.v[x as int], ..m },
        Opcode::AddI(x) => Model { ir: wrap16(m.ir + m.v[x as int]), ..m },
        Opcode::LdFont(x) => Model { ir: ((m.v[x as int] % 16) * 5) as u16, ..m },
        Opcode::Bcd(x) => Model {
            mem: m.mem.update(m.ir as int, m.v[x as int] / 100).update(
                m.ir + 1,
                (m.v[x as int] / 10) % 10,
            ).update(m.ir + 2, m.v[x as int] % 10),
            ..m
        },
        Opcode::StoreRegs(x) => Model {
            mem: stored_mem(m.mem, m.v, m.ir as int, x + 1),
            ir: (m.ir + 1) as u16,
            ..m
        },
        Opcode::LoadRegs(x) => Model {
            v: loaded_regs(m.v, m.mem, m.ir as int, x + 1),
            ir: (m.ir + 1) as u16,
            ..m
        },
    }
}

/// The machine with the program counter moved past the fetched word.
pub open spec fn advanced(m: Model) -> Model {
    Model { pc: (m.pc + 2) as u16, ..m }
}

/// One whole fetch-decode-execute cycle. The result pairs the state after
/// the step with what the step reports: the opcode's cost on success, or
/// the fault. A faulting step leaves the state unchanged.
pub open spec fn spec_step(pre: Model, rnd: u8) -> (Model, Result<i64, Fault>) {
    if pre.pc + 1 >= MEMORY_SIZE {
        (pre, Err(Fault::OutOfBounds))
    } else {
        let w = word_at(pre.mem, pre.pc as int);
        match spec_decode(w) {
            None => (pre, Err(Fault::Unsupported(w))),
            Some(op) => match op_fault(pre, op) {
                Some(f) => (pre, Err(f)),
                None => (spec_exec(advanced(pre), op, rnd), Ok(cost(op))),
            },
        }
    }
}

/// A value below twice the modulus reduces to itself or to itself less
/// the modulus.
pub proof fn lemma_mod_near(a: int, m: int)
    requires
        0 < m,
        0 <= a < 2 * m,
    ensures
        a % m == if a < m {
            a
        } else {
            a - m
        },
{
    if a < m {
        vstd::arithmetic::div_mod::lemma_small_mod(a as nat, m as nat);
    } else {
        vstd::arithmetic::div_mod::lemma_mod_sub_multiples_vanish(a, m);
        vstd::arithmetic::div_mod::lemma_small_mod((a - m) as nat, m as nat);
    }
}

/// Two sprite pixels of one draw never land on the same screen cell:
/// the eight columns are distinct modulo the screen width and the at
/// most sixteen rows are distinct modulo the screen height.
pub proof fn lemma_hit_cell_injective(
    m: Model,
    x0: int,
    y0: int,
    r1: int,
    c1: int,
    r2: int,
    c2: int,
    idx: int,
)
    requires
        0 <= x0 < SCREEN_WIDTH,
        0 <= y0 < SCREEN_HEIGHT,
        0 <= r1 < SCREEN_HEIGHT,
        0 <= c1 < 8,
        0 <= r2 < SCREEN_HEIGHT,
        0 <= c2 < 8,
        hit_at(m, x0, y0, r1, c1, idx),
        hit_at(m, x0, y0, r2, c2, idx),
    ensures
        r1 == r2,
        c1 == c2,
{
    lemma_mod_near(x0 + c1, SCREEN_WIDTH as int);
    lemma_mod_near(x0 + c2, SCREEN_WIDTH as int);
    lemma_mod_near(y0 + r1, SCREEN_HEIGHT as int);
    lemma_mod_near(y0 + r2, SCREEN_HEIGHT as int);
}

/// One frame tick of the two timers: each goes down by one, stopping
/// at zero.
pub open spec fn spec_tick_timers(m: Model) -> Model {
    Model {
        dt: if m.dt > 0 {
            (m.dt - 1) as u8
        } else {
            0
        },
        st: if m.st > 0 {
            (m.st - 1) as u8
        } else {
            0
        },
        ..m
    }
}

} // verus!
