//! The opcode-step specification: what one fetched instruction does to the
//! machine state, stated over the mathematical view.

use vstd::prelude::*;

use crate::state::EmuError;
use crate::state::EmuView;
use crate::state::NUM_KEYS;
use crate::state::RAM_SIZE;
use crate::state::SCREEN_HEIGHT;
use crate::state::SCREEN_WIDTH;
use crate::state::STACK_SIZE;

verus! {

/// The high nibble of an instruction word.
pub open spec fn d1(op: u16) -> int {
    op as int / 0x1000
}

/// The second nibble (the register index X).
pub open spec fn d2(op: u16) -> int {
    (op as int / 0x100) % 16
}

/// The third nibble (the register index Y).
pub open spec fn d3(op: u16) -> int {
    (op as int / 0x10) % 16
}

/// The low nibble.
pub open spec fn d4(op: u16) -> int {
    op as int % 16
}

/// The low 12 bits (an address).
pub open spec fn nnn(op: u16) -> u16 {
    (op % 0x1000) as u16
}

/// The low byte (an immediate).
pub open spec fn nn(op: u16) -> u8 {
    (op % 0x100) as u8
}

/// An integer reduced into an 8-bit register, wrapping.
pub open spec fn wrap8(x: int) -> u8 {
    (x % 256) as u8
}

/// An integer reduced into a 16-bit register, wrapping.
pub open spec fn wrap16(x: int) -> u16 {
    (x % 0x10000) as u16
}

/// Whether sprite bit `j` of a sprite byte is set; bit 0 is the leftmost
/// (most significant) bit.
pub open spec fn sprite_bit(b: u8, j: int) -> bool {
    b & (0x80u8 >> (j as u8)) != 0
}

/// The framebuffer cell targeted by sprite bit `j` of a row drawn at raw
/// coordinates `(x0, y)`, with `y` already reduced; the column wraps.
pub open spec fn pix(x0: int, j: int, y: int) -> int {
    (x0 + j) % (SCREEN_WIDTH as int) + (SCREEN_WIDTH as int) * y
}

/// The framebuffer and collision flag after drawing the first `jmax` bits
/// of one sprite row `b` at raw column `x0` and reduced row `y`: each set
/// bit toggles its cell, and the flag absorbs every cell turned off.
pub open spec fn draw_row(screen: Seq<bool>, flipped: bool, b: u8, x0: int, y: int, jmax: int) -> (
    Seq<bool>,
    bool,
)
    decreases jmax,
{
    if jmax <= 0 {
        (screen, flipped)
    } else {
        let p = draw_row(screen, flipped, b, x0, y, jmax - 1);
        let j = jmax - 1;
        if sprite_bit(b, j) {
            let idx = pix(x0, j, y);
            (p.0.update(idx, !p.0[idx]), p.1 || p.0[idx])
        } else {
            p
        }
    }
}

/// The framebuffer and collision flag after drawing the first `rows` rows
/// of the sprite at memory address `i` at raw coordinates `(x0, y0)`; the
/// row wraps over the screen height.
pub open spec fn draw_sprite(
    screen: Seq<bool>,
    flipped: bool,
    ram: Seq<u8>,
    i: int,
    x0: int,
    y0: int,
    rows: int,
) -> (Seq<bool>, bool)
    decreases rows,
{
    if rows <= 0 {
        (screen, flipped)
    } else {
        let p = draw_sprite(screen, flipped, ram, i, x0, y0, rows - 1);
        let r = rows - 1;
        draw_row(p.0, p.1, ram[i + r], x0, (y0 + r) % (SCREEN_HEIGHT as int), 8)
    }
}

/// Memory after copying registers `V0..=VX` to addresses `i..`.
pub open spec fn store_regs(ram: Seq<u8>, v: Seq<u8>, i: int, x: int) -> Seq<u8> {
    Seq::new(ram.len(), |k: int| if i <= k <= i + x { v[k - i] } else { ram[k] })
}

/// Registers after copying addresses `i..` into `V0..=VX`.
pub open spec fn load_regs(v: Seq<u8>, ram: Seq<u8>, i: int, x: int) -> Seq<u8> {
    Seq::new(v.len(), |k: int| if k <= x { ram[i + k] } else { v[k] })
}

/// The smallest pressed key index at or after `k`, or the keypad size when
/// none is pressed there.
pub open spec fn first_key_from(keys: Seq<bool>, k: int) -> int
    decreases keys.len() - k,
{
    if k < 0 || k >= keys.len() {
        keys.len() as int
    } else if keys[k] {
        k
    } else {
        first_key_from(keys, k + 1)
    }
}

/// A scan that found no pressed key below `f`, and one at `f` if `f` is a
/// key, names exactly the first pressed index.
pub proof fn lemma_first_key(keys: Seq<bool>, k: int, f: int)
    requires
        0 <= k <= f <= keys.len(),
        forall|j: int| k <= j < f ==> !keys[j],
        f < keys.len() ==> keys[f],
    ensures
        first_key_from(keys, k) == if f < keys.len() {
            f
        } else {
            keys.len() as int
        },
    decreases f - k,
{
    if k < f {
        lemma_first_key(keys, k + 1, f);
    }
}

/// A timer decremented by one, floored at zero.
pub open spec fn timer_dec(t: u8) -> u8 {
    if t > 0 {
        (t - 1) as u8
    } else {
        0
    }
}

/// What one decoded instruction does: the state after executing `op` from
/// state `pre`, or the error that refuses it.  `rnd` is the byte the random
/// source supplied, read only by the `CXNN` family.  The program counter in
/// `pre` is the address the instruction was fetched from; a normal
/// instruction leaves it advanced by 2, a skip by 4, a jump/call/return
/// sets it absolutely, and a key wait with no key pressed restores it.
pub open spec fn step_spec(pre: EmuView, op: u16, rnd: u8) -> Result<EmuView, EmuError> {
    let pc2 = (pre.pc + 2) as u16;
    let pc4 = (pre.pc + 4) as u16;
    let x = d2(op);
    let y = d3(op);
    let base = EmuView { pc: pc2, ..pre };
    if d1(op) == 0x0 && x == 0x0 && y == 0x0 && d4(op) == 0x0 {
        // NOP
        Ok(base)
    } else if d1(op) == 0x0 && x == 0x0 && y == 0xE && d4(op) == 0x0 {
        // clear screen
        Ok(EmuView { screen: Seq::new(pre.screen.len(), |k: int| false), ..base })
    } else if d1(op) == 0x0 && x == 0x0 && y == 0xE && d4(op) == 0xE {
        // return
        if pre.sp == 0 {
            Err(EmuError::StackUnderflow)
        } else {
            Ok(EmuView { pc: pre.stack[pre.sp - 1], sp: (pre.sp - 1) as u16, ..pre })
        }
    } else if d1(op) == 0x1 {
        // jump NNN
        Ok(EmuView { pc: nnn(op), ..pre })
    } else if d1(op) == 0x2 {
        // call NNN
        if pre.sp >= STACK_SIZE {
            Err(EmuError::StackOverflow)
        } else {
            Ok(
                EmuView {
                    pc: nnn(op),
                    sp: (pre.sp + 1) as u16,
                    stack: pre.stack.update(pre.sp as int, pc2),
                    ..pre
                },
            )
        }
    } else if d1(op) == 0x3 {
        // skip if VX == NN
        Ok(EmuView { pc: if pre.v[x] == nn(op) { pc4 } else { pc2 }, ..pre })
    } else if d1(op) == 0x4 {
        // skip if VX != NN
        Ok(EmuView { pc: if pre.v[x] != nn(op) { pc4 } else { pc2 }, ..pre })
    } else if d1(op) == 0x5 && d4(op) == 0x0 {
        // skip if VX == VY
        Ok(EmuView { pc: if pre.v[x] == pre.v[y] { pc4 } else { pc2 }, ..pre })
    } else if d1(op) == 0x6 {
        // VX = NN
        Ok(EmuView { v: pre.v.update(x, nn(op)), ..base })
    } else if d1(op) == 0x7 {
        // VX += NN, wrapping, flag untouched
        Ok(EmuView { v: pre.v.update(x, wrap8(pre.v[x] + nn(op))), ..base })
    } else if d1(op) == 0x8 && d4(op) == 0x0 {
        // VX = VY
        Ok(EmuView { v: pre.v.update(x, pre.v[y]), ..base })
    } else if d1(op) == 0x8 && d4(op) == 0x1 {
        // VX |= VY
        Ok(EmuView { v: pre.v.update(x, pre.v[x] | pre.v[y]), ..base })
    } else if d1(op) == 0x8 && d4(op) == 0x2 {
        // VX &= VY
        Ok(EmuView { v: pre.v.update(x, pre.v[x] & pre.v[y]), ..base })
    } else if d1(op) == 0x8 && d4(op) == 0x3 {
        // VX ^= VY
        Ok(EmuView { v: pre.v.update(x, pre.v[x] ^ pre.v[y]), ..base })
    } else if d1(op) == 0x8 && d4(op) == 0x4 {
        // VX += VY; VF = carry
        let sum = pre.v[x] + pre.v[y];
        Ok(
            EmuView {
                v: pre.v.update(x, wrap8(sum)).update(0xF, if sum > 255 { 1u8 } else { 0u8 }),
                ..base
            },
        )
    } else if d1(op) == 0x8 && d4(op) == 0x5 {
        // VX -= VY; VF = no-borrow
        let vf: u8 = if pre.v[x] >= pre.v[y] { 1 } else { 0 };
        Ok(EmuView { v: pre.v.update(x, wrap8(pre.v[x] - pre.v[y])).update(0xF, vf), ..base })
    } else if d1(op) == 0x8 && d4(op) == 0x6 {
        // VX >>= 1; VF = shifted-out low bit
        let vf: u8 = (pre.v[x] % 2) as u8;
        Ok(EmuView { v: pre.v.update(x, (pre.v[x] / 2) as u8).update(0xF, vf), ..base })
    } else if d1(op) == 0x8 && d4(op) == 0x7 {
        // VX = VY - VX; VF = no-borrow
        let vf: u8 = if pre.v[y] >= pre.v[x] { 1 } else { 0 };
        Ok(EmuView { v: pre.v.update(x, wrap8(pre.v[y] - pre.v[x])).update(0xF, vf), ..base })
    } else if d1(op) == 0x8 && d4(op) == 0xE {
        // VX <<= 1; VF = shifted-out high bit
        let vf: u8 = (pre.v[x] / 128) as u8;
        Ok(EmuView { v: pre.v.update(x, wrap8(pre.v[x] * 2)).update(0xF, vf), ..base })
    } else if d1(op) == 0x9 && d4(op) == 0x0 {
        // skip if VX != VY
        Ok(EmuView { pc: if pre.v[x] != pre.v[y] { pc4 } else { pc2 }, ..pre })
    } else if d1(op) == 0xA {
        // I = NNN
        Ok(EmuView { i: nnn(op), ..base })
    } else if d1(op) == 0xB {
        // jump to V0 + NNN
        Ok(EmuView { pc: (pre.v[0] + nnn(op)) as u16, ..pre })
    } else if d1(op) == 0xC {
        // VX = random byte AND NN
        Ok(EmuView { v: pre.v.update(x, rnd & nn(op)), ..base })
    } else if d1(op) == 0xD {
        // draw a d4-row sprite from memory[I..] at (VX, VY); VF = collision
        let rows = d4(op);
        if rows > 0 && pre.i + rows > RAM_SIZE {
            Err(EmuError::MemoryOutOfBounds)
        } else {
            let p = draw_sprite(
                pre.screen,
                false,
                pre.ram,
                pre.i as int,
                pre.v[x] as int,
                pre.v[y] as int,
                rows,
            );
            Ok(
                EmuView {
                    screen: p.0,
                    v: pre.v.update(0xF, if p.1 { 1u8 } else { 0u8 }),
                    ..base
                },
            )
        }
    } else if d1(op) == 0xE && y == 0x9 && d4(op) == 0xE {
        // skip if key VX pressed
        if pre.v[x] >= NUM_KEYS {
            Err(EmuError::InvalidKeyIndex)
        } else {
            Ok(EmuView { pc: if pre.keys[pre.v[x] as int] { pc4 } else { pc2 }, ..pre })
        }
    } else if d1(op) == 0xE && y == 0xA && d4(op) == 0x1 {
        // skip if key VX not pressed
        if pre.v[x] >= NUM_KEYS {
            Err(EmuError::InvalidKeyIndex)
        } else {
            Ok(EmuView { pc: if !pre.keys[pre.v[x] as int] { pc4 } else { pc2 }, ..pre })
        }
    } else if d1(op) == 0xF && y == 0x0 && d4(op) == 0x7 {
        // VX = delay timer
        Ok(EmuView { v: pre.v.update(x, pre.delay), ..base })
    } else if d1(op) == 0xF && y == 0x0 && d4(op) == 0xA {
        // wait for a key: take the smallest pressed index, or rewind
        let k = first_key_from(pre.keys, 0);
        if k < NUM_KEYS {
            Ok(EmuView { v: pre.v.update(x, k as u8), ..base })
        } else {
            Ok(EmuView { pc: pre.pc, ..pre })
        }
    } else if d1(op) == 0xF && y == 0x1 && d4(op) == 0x5 {
        // delay timer = VX
        Ok(EmuView { delay: pre.v[x], ..base })
    } else if d1(op) == 0xF && y == 0x1 && d4(op) == 0x8 {
        // sound timer = VX
        Ok(EmuView { sound: pre.v[x], ..base })
    } else if d1(op) == 0xF && y == 0x1 && d4(op) == 0xE {
        // I += VX, wrapping
        Ok(EmuView { i: wrap16(pre.i + pre.v[x]), ..base })
    } else if d1(op) == 0xF && y == 0x2 && d4(op) == 0x9 {
        // I = font glyph address of digit VX
        Ok(EmuView { i: (pre.v[x] * 5) as u16, ..base })
    } else if d1(op) == 0xF && y == 0x3 && d4(op) == 0x3 {
        // write the decimal digits of VX at memory[I..I+2]
        if pre.i + 2 >= RAM_SIZE {
            Err(EmuError::MemoryOutOfBounds)
        } else {
            Ok(
                EmuView {
                    ram: pre.ram.update(pre.i as int, (pre.v[x] / 100) as u8).update(
                        pre.i + 1,
                        ((pre.v[x] / 10) % 10) as u8,
                    ).update(pre.i + 2, (pre.v[x] % 10) as u8),
                    ..base
                },
            )
        }
    } else if d1(op) == 0xF && y == 0x5 && d4(op) == 0x5 {
        // copy V0..=VX to memory[I..]
        if pre.i + x >= RAM_SIZE {
            Err(EmuError::MemoryOutOfBounds)
        } else {
            Ok(EmuView { ram: store_regs(pre.ram, pre.v, pre.i as int, x), ..base })
        }
    } else if d1(op) == 0xF && y == 0x6 && d4(op) == 0x5 {
        // copy memory[I..] to V0..=VX
        if pre.i + x >= RAM_SIZE {
            Err(EmuError::MemoryOutOfBounds)
        } else {
            Ok(EmuView { v: load_regs(pre.v, pre.ram, pre.i as int, x), ..base })
        }
    } else {
        Err(EmuError::UnimplementedOpcode(op))
    }
}

/// The instruction word at the program counter: two consecutive bytes,
/// high byte first.
pub open spec fn fetched(v: EmuView) -> u16 {
    (v.ram[v.pc as int] * 256 + v.ram[v.pc as int + 1]) as u16
}

} // verus!
