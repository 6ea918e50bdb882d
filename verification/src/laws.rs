//! The general laws of the instruction set, stated and proved against the
//! transition relation of [`crate::step`].

use vstd::prelude::*;

use crate::model::MEMORY_SIZE;
use crate::model::Model;
use crate::model::REGISTER_COUNT;
use crate::model::SCREEN_CELLS;
use crate::opcode::Opcode;
use crate::step::draw_collision;
use crate::step::hit_at;
use crate::step::spec_exec;
use crate::step::spec_tick_timers;
use crate::step::sprite_hits;

verus! {

/// Add-with-carry law: for all registers and all register values, `8xy4`
/// leaves VF = 1 exactly when Vx + Vy reaches 256, and Vx holds the
/// mod-256 (wrapping) sum.
pub proof fn lemma_add_carry(m: Model, x: u8, y: u8, b: u8)
    requires
        m.wf(),
        x < 16,
        y < 16,
    ensures
        ({
            let post = spec_exec(m, Opcode::Add(x, y), b);
            &&& post.v[15] == if m.v[x as int] + m.v[y as int] >= 256 {
                1u8
            } else {
                0u8
            }
            &&& x != 15 ==> post.v[x as int] == (m.v[x as int] + m.v[y as int]) % 256
        }),
{
}

/// Subtract-with-borrow law: for all registers and all register values,
/// `8xy5` leaves VF = 1 exactly when no borrow occurs, that is when
/// Vx >= Vy, and Vx holds the wrapping difference.
pub proof fn lemma_sub_borrow(m: Model, x: u8, y: u8, b: u8)
    requires
        m.wf(),
        x < 16,
        y < 16,
    ensures
        ({
            let post = spec_exec(m, Opcode::Sub(x, y), b);
            &&& post.v[15] == if m.v[x as int] >= m.v[y as int] {
                1u8
            } else {
                0u8
            }
            &&& x != 15 ==> post.v[x as int] == (m.v[x as int] - m.v[y as int] + 256) % 256
        }),
{
}

/// Shift-source law: `8xy6` and `8xyE` read Vy alone — the clauses below
/// mention no register but Vy — and report in VF the bit shifted out:
/// the old least significant bit for the right shift, the old most
/// significant bit for the left shift.
pub proof fn lemma_shift_sources(m: Model, x: u8, y: u8, b: u8)
    requires
        m.wf(),
        x < 16,
        y < 16,
    ensures
        ({
            let right = spec_exec(m, Opcode::Shr(x, y), b);
            let left = spec_exec(m, Opcode::Shl(x, y), b);
            &&& right.v[15] == m.v[y as int] % 2
            &&& x != 15 ==> right.v[x as int] == m.v[y as int] / 2
            &&& left.v[15] == m.v[y as int] / 128
            &&& x != 15 ==> left.v[x as int] == (m.v[y as int] * 2) % 256
        }),
{
}

/// Collision law: after `Dxyn`, VF is 1 exactly when at least one cell
/// that was set before the draw is unset after it.
pub proof fn lemma_draw_collision(m: Model, x: u8, y: u8, n: u8, b: u8)
    requires
        m.wf(),
        x < 16,
        y < 16,
        n < 16,
    ensures
        ({
            let post = spec_exec(m, Opcode::Drw(x, y, n), b);
            (post.v[15] == 1) <==> exists|i: int|
                0 <= i < SCREEN_CELLS && #[trigger] m.screen[i] && !post.screen[i]
        }),
{
    let gx = m.v[x as int] as int % 64;
    let gy = m.v[y as int] as int % 32;
    let gn = n as int;
    let post = spec_exec(m, Opcode::Drw(x, y, n), b);
    if draw_collision(m, gx, gy, gn) {
        let i = choose|i: int|
            0 <= i < SCREEN_CELLS && #[trigger] sprite_hits(m, gx, gy, gn, i) && m.screen[i];
        assert(m.screen[i] && !post.screen[i]);
    }
    if exists|i: int| 0 <= i < SCREEN_CELLS && #[trigger] m.screen[i] && !post.screen[i] {
        let i = choose|i: int| 0 <= i < SCREEN_CELLS && #[trigger] m.screen[i] && !post.screen[i];
        assert(sprite_hits(m, gx, gy, gn, i));
        assert(draw_collision(m, gx, gy, gn));
    }
}

/// Self-XOR law, first half: drawing the same sprite twice at the same
/// base cell leaves every screen cell as it was. VF is excluded from the
/// coordinate registers so that the first draw's flag does not move the
/// second draw.
pub proof fn lemma_draw_twice_restores(m: Model, x: u8, y: u8, n: u8, b: u8)
    requires
        m.wf(),
        x < 15,
        y < 15,
        n < 16,
    ensures
        ({
            let mid = spec_exec(m, Opcode::Drw(x, y, n), b);
            let post = spec_exec(mid, Opcode::Drw(x, y, n), b);
            post.screen == m.screen
        }),
{
    let gx = m.v[x as int] as int % 64;
    let gy = m.v[y as int] as int % 32;
    let gn = n as int;
    let mid = spec_exec(m, Opcode::Drw(x, y, n), b);
    let post = spec_exec(mid, Opcode::Drw(x, y, n), b);
    assert forall|i: int| sprite_hits(mid, gx, gy, gn, i) == sprite_hits(m, gx, gy, gn, i) by {
        if sprite_hits(mid, gx, gy, gn, i) {
            let (r, c) = choose|r: int, c: int|
                0 <= r < gn && 0 <= c < 8 && #[trigger] hit_at(mid, gx, gy, r, c, i);
            assert(hit_at(m, gx, gy, r, c, i));
        }
        if sprite_hits(m, gx, gy, gn, i) {
            let (r, c) = choose|r: int, c: int|
                0 <= r < gn && 0 <= c < 8 && #[trigger] hit_at(m, gx, gy, r, c, i);
            assert(hit_at(mid, gx, gy, r, c, i));
        }
    }
    assert(post.screen =~= m.screen);
}

/// Self-XOR law, second half: when the sprite has a set pixel among its
/// first `n` rows and every cell it touches starts dark, drawing it twice
/// leaves every touched cell dark and the second draw reports a collision
/// in VF.
pub proof fn lemma_draw_twice_collides(m: Model, x: u8, y: u8, n: u8, b: u8)
    requires
        m.wf(),
        x < 15,
        y < 15,
        n < 16,
        forall|i: int|
            0 <= i < SCREEN_CELLS && #[trigger] sprite_hits(
                m,
                m.v[x as int] as int % 64,
                m.v[y as int] as int % 32,
                n as int,
                i,
            ) ==> !m.screen[i],
        exists|i: int|
            0 <= i < SCREEN_CELLS && #[trigger] sprite_hits(
                m,
                m.v[x as int] as int % 64,
                m.v[y as int] as int % 32,
                n as int,
                i,
            ),
    ensures
        ({
            let mid = spec_exec(m, Opcode::Drw(x, y, n), b);
            let post = spec_exec(mid, Opcode::Drw(x, y, n), b);
            &&& post.screen == m.screen
            &&& forall|i: int|
                0 <= i < SCREEN_CELLS && #[trigger] sprite_hits(
                    m,
                    m.v[x as int] as int % 64,
                    m.v[y as int] as int % 32,
                    n as int,
                    i,
                ) ==> !post.screen[i]
            &&& post.v[15] == 1
        }),
{
    let gx = m.v[x as int] as int % 64;
    let gy = m.v[y as int] as int % 32;
    let gn = n as int;
    lemma_draw_twice_restores(m, x, y, n, b);
    let mid = spec_exec(m, Opcode::Drw(x, y, n), b);
    assert forall|i: int| sprite_hits(mid, gx, gy, gn, i) == sprite_hits(m, gx, gy, gn, i) by {
        if sprite_hits(mid, gx, gy, gn, i) {
            let (r, c) = choose|r: int, c: int|
                0 <= r < gn && 0 <= c < 8 && #[trigger] hit_at(mid, gx, gy, r, c, i);
            assert(hit_at(m, gx, gy, r, c, i));
        }
        if sprite_hits(m, gx, gy, gn, i) {
            let (r, c) = choose|r: int, c: int|
                0 <= r < gn && 0 <= c < 8 && #[trigger] hit_at(m, gx, gy, r, c, i);
            assert(hit_at(mid, gx, gy, r, c, i));
        }
    }
    let w = choose|i: int| 0 <= i < SCREEN_CELLS && #[trigger] sprite_hits(m, gx, gy, gn, i);
    assert(mid.screen[w]);
    assert(draw_collision(mid, gx, gy, gn));
}

/// Bulk-transfer round trip: dumping V0..Vx with `Fx55`, then loading
/// `Fx65` from the same base address into a machine whose registers were
/// zeroed, restores V0..Vx; and each transfer leaves the index register
/// one greater than it was before that transfer.
pub proof fn lemma_store_load_roundtrip(m: Model, x: u8, b: u8)
    requires
        m.wf(),
        x < 16,
        m.ir + x + 1 <= MEMORY_SIZE,
    ensures
        ({
            let dumped = spec_exec(m, Opcode::StoreRegs(x), b);
            let cleared = Model {
                v: Seq::new(REGISTER_COUNT as nat, |i: int| 0u8),
                ir: m.ir,
                ..dumped
            };
            let loaded = spec_exec(cleared, Opcode::LoadRegs(x), b);
            &&& dumped.ir == m.ir + 1
            &&& loaded.ir == m.ir + 1
            &&& forall|i: int| 0 <= i <= x ==> loaded.v[i] == m.v[i]
        }),
{
}

/// Timer floor law: a timer that is already zero is left at zero by a
/// frame tick, so repeated ticks never wrap it around.
pub proof fn lemma_timer_floor(m: Model)
    ensures
        m.dt == 0 ==> spec_tick_timers(m).dt == 0,
        m.st == 0 ==> spec_tick_timers(m).st == 0,
        spec_tick_timers(m).dt <= m.dt,
        spec_tick_timers(m).st <= m.st,
{
}

} // verus!
