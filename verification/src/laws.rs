//! General laws of the interpreter, stated over the step specification and
//! proved once for every state.

use vstd::prelude::*;

use crate::state::EmuError;
use crate::state::EmuView;
use crate::state::NUM_KEYS;
use crate::state::RAM_SIZE;
use crate::state::SCREEN_HEIGHT;
use crate::state::SCREEN_WIDTH;
use crate::step::d1;
use crate::step::d2;
use crate::step::d3;
use crate::step::d4;
use crate::step::draw_row;
use crate::step::draw_sprite;
use crate::step::first_key_from;
use crate::step::lemma_first_key;
use crate::step::pix;
use crate::step::sprite_bit;
use crate::step::step_spec;

verus! {

/// Opcodes that set the program counter absolutely: return, the two
/// jumps, and call.
pub open spec fn sets_pc_absolutely(op: u16) -> bool {
    ||| (d1(op) == 0x0 && d2(op) == 0x0 && d3(op) == 0xE && d4(op) == 0xE)
    ||| d1(op) == 0x1
    ||| d1(op) == 0x2
    ||| d1(op) == 0xB
}

/// Opcodes that skip the next instruction when their condition holds.
pub open spec fn is_skip(op: u16) -> bool {
    ||| d1(op) == 0x3
    ||| d1(op) == 0x4
    ||| (d1(op) == 0x5 && d4(op) == 0x0)
    ||| (d1(op) == 0x9 && d4(op) == 0x0)
    ||| (d1(op) == 0xE && d3(op) == 0x9 && d4(op) == 0xE)
    ||| (d1(op) == 0xE && d3(op) == 0xA && d4(op) == 0x1)
}

/// The blocking key wait.
pub open spec fn is_key_wait(op: u16) -> bool {
    d1(op) == 0xF && d3(op) == 0x0 && d4(op) == 0xA
}

/// Every instruction that is neither a jump, call, return, conditional
/// skip, nor the blocking key wait leaves the program counter advanced by
/// exactly one instruction word.
pub proof fn lemma_step_advances_pc(pre: EmuView, op: u16, rnd: u8)
    requires
        pre.pc + 1 < RAM_SIZE,
        !sets_pc_absolutely(op),
        !is_skip(op),
        !is_key_wait(op),
    ensures
        step_spec(pre, op, rnd) matches Ok(v) ==> v.pc == pre.pc + 2,
{
}

/// A conditional skip leaves the program counter advanced by one
/// instruction word, or by two when its condition held.
pub proof fn lemma_skip_advances_pc(pre: EmuView, op: u16, rnd: u8)
    requires
        pre.pc + 1 < RAM_SIZE,
        is_skip(op),
    ensures
        step_spec(pre, op, rnd) matches Ok(v) ==> v.pc == pre.pc + 2 || v.pc == pre.pc + 4,
{
}

/// The blocking key wait with no key pressed makes no progress at all:
/// the machine state is returned unchanged, so the same instruction is
/// fetched again on the next cycle.
pub proof fn lemma_key_wait_blocks(pre: EmuView, op: u16, rnd: u8)
    requires
        pre.wf(),
        is_key_wait(op),
        forall|k: int| 0 <= k < pre.keys.len() ==> !pre.keys[k],
    ensures
        step_spec(pre, op, rnd) == Ok::<EmuView, EmuError>(pre),
{
    lemma_first_key(pre.keys, 0, pre.keys.len() as int);
    assert(first_key_from(pre.keys, 0) == NUM_KEYS);
    assert((EmuView { pc: pre.pc, ..pre }) == pre);
}

/// Clear-screen turns every framebuffer cell off, whatever was drawn.
pub proof fn lemma_clear_screen(pre: EmuView, rnd: u8)
    requires
        pre.wf(),
    ensures
        step_spec(pre, 0x00E0, rnd) matches Ok(v) ==> {
            &&& v.screen.len() == pre.screen.len()
            &&& forall|k: int| 0 <= k < v.screen.len() ==> !v.screen[k]
        },
{
}

/// Whether some sprite bit below `jmax` of row byte `b`, drawn at
/// `(x0, y)`, lands on cell `idx`.
pub open spec fn row_targets(b: u8, x0: int, y: int, jmax: int, idx: int) -> bool {
    exists|j: int| 0 <= j < jmax && sprite_bit(b, j) && idx == pix(x0, j, y)
}

/// Two cells a row draws onto agree only when they come from the same
/// sprite bit: the eight columns of one row are distinct.
proof fn lemma_pix_injective(x0: int, y: int, j1: int, j2: int)
    requires
        0 <= x0,
        0 <= j1 < 64,
        0 <= j2 < 64,
        pix(x0, j1, y) == pix(x0, j2, y),
    ensures
        j1 == j2,
{
    let a = x0 + j1;
    let b = x0 + j2;
    vstd::arithmetic::div_mod::lemma_fundamental_div_mod(a, 64);
    vstd::arithmetic::div_mod::lemma_fundamental_div_mod(b, 64);
    assert(a - b == 64 * (a / 64 - b / 64));
}

/// Pointwise effect of drawing one sprite row: every targeted cell is
/// toggled, every other cell is kept, and the collision flag absorbs
/// exactly the targeted cells that were lit.
pub proof fn lemma_draw_row_cells(
    screen: Seq<bool>,
    flipped: bool,
    b: u8,
    x0: int,
    y: int,
    jmax: int,
)
    requires
        0 <= jmax <= 8,
        0 <= y < SCREEN_HEIGHT,
        0 <= x0,
        screen.len() == SCREEN_WIDTH * SCREEN_HEIGHT,
    ensures
        ({
            let p = draw_row(screen, flipped, b, x0, y, jmax);
            &&& p.0.len() == screen.len()
            &&& forall|idx: int|
                0 <= idx < screen.len() ==> p.0[idx] == if row_targets(b, x0, y, jmax, idx) {
                    !screen[idx]
                } else {
                    screen[idx]
                }
            &&& p.1 == (flipped || exists|j: int|
                0 <= j < jmax && sprite_bit(b, j) && screen[pix(x0, j, y)])
        }),
    decreases jmax,
{
    if jmax > 0 {
        lemma_draw_row_cells(screen, flipped, b, x0, y, jmax - 1);
        let p = draw_row(screen, flipped, b, x0, y, jmax - 1);
        let q = draw_row(screen, flipped, b, x0, y, jmax);
        let j = jmax - 1;
        if sprite_bit(b, j) {
            let idx = pix(x0, j, y);
            assert(!row_targets(b, x0, y, jmax - 1, idx)) by {
                if row_targets(b, x0, y, jmax - 1, idx) {
                    let jj = choose|jj: int|
                        0 <= jj < jmax - 1 && sprite_bit(b, jj) && idx == pix(x0, jj, y);
                    lemma_pix_injective(x0, y, jj, j);
                }
            }
            assert(forall|t: int|
                0 <= t < screen.len() && t != idx && row_targets(b, x0, y, jmax, t)
                    ==> row_targets(b, x0, y, jmax - 1, t)) by {
                assert forall|t: int|
                    0 <= t < screen.len() && t != idx && row_targets(b, x0, y, jmax, t)
                        implies row_targets(b, x0, y, jmax - 1, t) by {
                    let jj = choose|jj: int|
                        0 <= jj < jmax && sprite_bit(b, jj) && t == pix(x0, jj, y);
                    assert(jj != j);
                    assert(0 <= jj < jmax - 1 && sprite_bit(b, jj) && t == pix(x0, jj, y));
                }
            }
            assert(row_targets(b, x0, y, jmax, idx));
            assert(q.0 =~= p.0.update(idx, !p.0[idx]));
        } else {
            assert(forall|t: int|
                row_targets(b, x0, y, jmax, t) == row_targets(b, x0, y, jmax - 1, t)) by {
                assert forall|t: int|
                    row_targets(b, x0, y, jmax, t) implies row_targets(b, x0, y, jmax - 1, t) by {
                    let jj = choose|jj: int|
                        0 <= jj < jmax && sprite_bit(b, jj) && t == pix(x0, jj, y);
                    assert(jj != j);
                }
            }
        }
    }
}

/// Drawing a solid 8x1 sprite twice at one spot, over cells that started
/// clear, leaves every targeted cell clear again and reports a
/// full-overlap collision.
pub proof fn lemma_solid_row_draw_twice(screen: Seq<bool>, x0: int, y: int)
    requires
        0 <= x0,
        0 <= y < SCREEN_HEIGHT,
        screen.len() == SCREEN_WIDTH * SCREEN_HEIGHT,
        forall|j: int| 0 <= j < 8 ==> !screen[pix(x0, j, y)],
    ensures
        ({
            let p1 = draw_row(screen, false, 0xFF, x0, y, 8);
            let p2 = draw_row(p1.0, false, 0xFF, x0, y, 8);
            &&& p2.0 == screen
            &&& p2.1 == true
        }),
{
    assert(forall|j: u8| j < 8 ==> 0xFFu8 & (0x80u8 >> j) != 0) by (bit_vector);
    assert(forall|j: int| 0 <= j < 8 ==> sprite_bit(0xFF, j));
    let p1 = draw_row(screen, false, 0xFF, x0, y, 8);
    let p2 = draw_row(p1.0, false, 0xFF, x0, y, 8);
    lemma_draw_row_cells(screen, false, 0xFF, x0, y, 8);
    lemma_draw_row_cells(p1.0, false, 0xFF, x0, y, 8);
    let idx0 = pix(x0, 0, y);
    assert(row_targets(0xFF, x0, y, 8, idx0)) by {
        assert(sprite_bit(0xFF, 0) && idx0 == pix(x0, 0, y));
    }
    assert(p1.0[idx0] == !screen[idx0]);
    assert(p2.1) by {
        assert(sprite_bit(0xFF, 0) && p1.0[pix(x0, 0, y)]);
    }
    assert(p2.0 =~= screen);
}

/// Executing the same one-row draw of a solid sprite twice in a row, over
/// cells that began clear, leaves the framebuffer exactly as it started
/// and reports the full-overlap collision in VF.
#[verifier::rlimit(100)]
pub proof fn lemma_draw_twice_collides(pre: EmuView, op: u16, rnd: u8)
    requires
        pre.wf(),
        pre.pc + 3 < RAM_SIZE,
        d1(op) == 0xD,
        d4(op) == 0x1,
        d2(op) != 0xF,
        d3(op) != 0xF,
        pre.i + 1 <= RAM_SIZE,
        pre.ram[pre.i as int] == 0xFF,
        forall|j: int|
            0 <= j < 8 ==> !pre.screen[
                #[trigger] pix(
                    pre.v[d2(op)] as int,
                    j,
                    pre.v[d3(op)] as int % (SCREEN_HEIGHT as int),
                )
            ],
    ensures
        step_spec(pre, op, rnd) matches Ok(mid) && match step_spec(mid, op, rnd) {
            Ok(v2) => {
                &&& v2.screen == pre.screen
                &&& v2.v[0xF] == 1
            },
            Err(e) => false,
        },
{
    let x0 = pre.v[d2(op)] as int;
    let y0r = pre.v[d3(op)] as int;
    let y = y0r % (SCREEN_HEIGHT as int);
    let p1 = draw_row(pre.screen, false, 0xFF, x0, y, 8);
    let p2 = draw_row(p1.0, false, 0xFF, x0, y, 8);
    lemma_solid_row_draw_twice(pre.screen, x0, y);
    let i = pre.i as int;
    assert(draw_sprite(pre.screen, false, pre.ram, i, x0, y0r, 0) == (pre.screen, false));
    assert(draw_sprite(pre.screen, false, pre.ram, i, x0, y0r, 1) == p1);
    let mid_exp = EmuView {
        pc: (pre.pc + 2) as u16,
        screen: p1.0,
        v: pre.v.update(0xF, if p1.1 { 1u8 } else { 0u8 }),
        ..pre
    };
    assert(step_spec(pre, op, rnd) == Ok::<EmuView, EmuError>(mid_exp));
    assert(mid_exp.v[d2(op)] == pre.v[d2(op)] && mid_exp.v[d3(op)] == pre.v[d3(op)]);
    assert(draw_sprite(p1.0, false, pre.ram, i, x0, y0r, 0) == (p1.0, false));
    assert(draw_sprite(p1.0, false, pre.ram, i, x0, y0r, 1) == p2);
    let v2_exp = EmuView {
        pc: (mid_exp.pc + 2) as u16,
        screen: p2.0,
        v: mid_exp.v.update(0xF, 1u8),
        ..mid_exp
    };
    assert(p2.1);
    assert(step_spec(mid_exp, op, rnd) == Ok::<EmuView, EmuError>(v2_exp));
    assert(v2_exp.screen == pre.screen);
    assert(v2_exp.v[0xF] == 1);
}

} // verus!
