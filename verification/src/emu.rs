//! The interpreter engine: the machine state and its lifecycle.

use vstd::prelude::*;

use crate::state::EmuError;
use crate::state::EmuView;
use crate::state::font;
use crate::state::initial_emu;
use crate::state::loaded_ram;
use crate::state::FONTSET_SIZE;
use crate::state::NUM_KEYS;
use crate::state::NUM_REGS;
use crate::state::RAM_SIZE;
use crate::state::SCREEN_HEIGHT;
use crate::state::SCREEN_WIDTH;
use crate::state::STACK_SIZE;
use crate::state::START_ADDRESS;
use crate::rng::random_byte;
use crate::step::d1;
use crate::step::draw_row;
use crate::step::draw_sprite;
use crate::step::fetched;
use crate::step::lemma_first_key;
use crate::step::load_regs;
use crate::step::step_spec;
use crate::step::store_regs;
use crate::step::timer_dec;

verus! {

/// The interpreter engine.  All machine state lives here; it is mutated
/// only by `tick`, `tick_timers`, `keypress`, `load`, and `reset`.
pub struct Emu {
    program_counter: u16,
    ram: Vec<u8>,
    screen: Vec<bool>,
    v_reg: Vec<u8>,
    i_reg: u16,
    stack_pointer: u16,
    stack: Vec<u16>,
    delay_timer: u8,
    sound_timer: u8,
    keys: Vec<bool>,
}

impl View for Emu {
    type V = EmuView;

    closed spec fn view(&self) -> EmuView {
        EmuView {
            pc: self.program_counter,
            ram: self.ram@,
            screen: self.screen@,
            v: self.v_reg@,
            i: self.i_reg,
            sp: self.stack_pointer,
            stack: self.stack@,
            delay: self.delay_timer,
            sound: self.sound_timer,
            keys: self.keys@,
        }
    }
}

/// A vector of `n` copies of `val`.
fn filled<T: Copy>(n: usize, val: T) -> (r: Vec<T>)
    ensures
        r@ == Seq::new(n as nat, |k: int| val),
{
    let mut v: Vec<T> = Vec::new();
    while v.len() < n
        invariant
            v@.len() <= n,
            v@ == Seq::new(v@.len(), |k: int| val),
        decreases n - v@.len(),
    {
        v.push(val);
        proof {
            assert(v@ =~= Seq::new(v@.len(), |k: int| val));
        }
    }
    proof {
        assert(v@ =~= Seq::new(n as nat, |k: int| val));
    }
    v
}

/// The font table as bytes, matching the `font` specification.
fn font_bytes() -> (r: Vec<u8>)
    ensures
        r@ == font(),
{
    let v: Vec<u8> = vec![
        0xF0, 0x90, 0x90, 0x90, 0xF0, // 0
        0x20, 0x60, 0x20, 0x20, 0x70, // 1
        0xF0, 0x10, 0xF0, 0x80, 0xF0, // 2
        0xF0, 0x10, 0xF0, 0x10, 0xF0, // 3
        0x90, 0x90, 0xF0, 0x10, 0x10, // 4
        0xF0, 0x80, 0xF0, 0x10, 0xF0, // 5
        0xF0, 0x80, 0xF0, 0x90, 0xF0, // 6
        0xF0, 0x10, 0x20, 0x40, 0x40, // 7
        0xF0, 0x90, 0xF0, 0x90, 0xF0, // 8
        0xF0, 0x90, 0xF0, 0x10, 0xF0, // 9
        0xF0, 0x90, 0xF0, 0x90, 0x90, // A
        0xE0, 0x90, 0xE0, 0x90, 0xE0, // B
        0xF0, 0x80, 0x80, 0x80, 0xF0, // C
        0xE0, 0x90, 0x90, 0x90, 0xE0, // D
        0xF0, 0x80, 0xF0, 0x80, 0xF0, // E
        0xF0, 0x80, 0xF0, 0x80, 0x80, // F
    ];
    proof {
        assert(v@ =~= font());
    }
    v
}

impl Emu {
    /// Structural well-formedness of the engine state.
    pub open spec fn wf(&self) -> bool {
        self@.wf()
    }

    /// A freshly constructed engine: memory zeroed but for the font table,
    /// program counter at `START_ADDRESS`, everything else zero or released.
    pub fn new() -> (r: Self)
        ensures
            r.wf(),
            r@ == initial_emu(),
    {
        let mut ram = filled::<u8>(RAM_SIZE, 0);
        let fontset = font_bytes();
        let mut k: usize = 0;
        while k < FONTSET_SIZE
            invariant
                k <= FONTSET_SIZE,
                fontset@ == font(),
                ram@.len() == RAM_SIZE,
                forall|j: int| 0 <= j < k ==> ram@[j] == font()[j],
                forall|j: int| k <= j < RAM_SIZE ==> ram@[j] == 0u8,
            decreases FONTSET_SIZE - k,
    {
            ram[k] = fontset[k];
            k = k + 1;
        }
        let r = Emu {
            program_counter: START_ADDRESS,
            ram,
            screen: filled::<bool>(SCREEN_WIDTH * SCREEN_HEIGHT, false),
            v_reg: filled::<u8>(NUM_REGS, 0),
            i_reg: 0,
            stack_pointer: 0,
            stack: filled::<u16>(STACK_SIZE, 0),
            delay_timer: 0,
            sound_timer: 0,
            keys: filled::<bool>(NUM_KEYS, false),
        };
        proof {
            assert(r@.ram =~= initial_emu().ram);
            assert(r@ == initial_emu());
        }
        r
    }

    /// Reinitializes every field to the construction defaults, discarding
    /// all history; semantically equivalent to reconstruction.
    pub fn reset(&mut self)
        ensures
            final(self).wf(),
            final(self)@ == initial_emu(),
    {
        let fresh = Self::new();
        *self = fresh;
    }

    /// The framebuffer, row-major; reads only.
    pub fn get_display(&self) -> (r: &[bool])
        ensures
            r@ == self@.screen,
    {
        self.screen.as_slice()
    }

    /// The program counter; reads only.  The state a failed instruction
    /// left behind stays inspectable, so every component has an accessor.
    pub fn get_pc(&self) -> (r: u16)
        ensures
            r == self@.pc,
    {
        self.program_counter
    }

    /// The index register; reads only.
    pub fn get_index(&self) -> (r: u16)
        ensures
            r == self@.i,
    {
        self.i_reg
    }

    /// The delay timer; reads only.
    pub fn get_delay(&self) -> (r: u8)
        ensures
            r == self@.delay,
    {
        self.delay_timer
    }

    /// The sound timer; reads only.
    pub fn get_sound(&self) -> (r: u8)
        ensures
            r == self@.sound,
    {
        self.sound_timer
    }

    /// The stack pointer; reads only.
    pub fn get_sp(&self) -> (r: u16)
        ensures
            r == self@.sp,
    {
        self.stack_pointer
    }

    /// The general-purpose registers V0..VF; reads only.
    pub fn get_registers(&self) -> (r: &[u8])
        ensures
            r@ == self@.v,
    {
        self.v_reg.as_slice()
    }

    /// The bytes of memory; reads only.
    pub fn get_memory(&self) -> (r: &[u8])
        ensures
            r@ == self@.ram,
    {
        self.ram.as_slice()
    }

    /// The call-stack slots; reads only.
    pub fn get_stack(&self) -> (r: &[u16])
        ensures
            r@ == self@.stack,
    {
        self.stack.as_slice()
    }

    /// The keypad states; reads only.
    pub fn get_keys(&self) -> (r: &[bool])
        ensures
            r@ == self@.keys,
    {
        self.keys.as_slice()
    }

    /// Sets the keypad state at `indx`; an index outside the 16-key layout
    /// is refused and changes nothing.
    pub fn keypress(&mut self, indx: usize, pressed: bool) -> (r: Result<(), EmuError>)
        requires
            old(self).wf(),
        ensures
            final(self).wf(),
            match r {
                Ok(u) => indx < NUM_KEYS && final(self)@ == (EmuView {
                    keys: old(self)@.keys.update(indx as int, pressed),
                    ..old(self)@
                }),
                Err(e) => e == EmuError::InvalidKeyIndex && indx >= NUM_KEYS && final(self)@
                    == old(self)@,
            },
    {
        if indx < NUM_KEYS {
            self.keys[indx] = pressed;
            proof {
                assert(self@ == (EmuView {
                    keys: old(self)@.keys.update(indx as int, pressed),
                    ..old(self)@
                }));
            }
            Ok(())
        } else {
            Err(EmuError::InvalidKeyIndex)
        }
    }

    /// Copies a program image verbatim into memory at `START_ADDRESS`.  An
    /// image too long to fit before the end of memory is refused with
    /// `RomTooLarge` and copies nothing.
    pub fn load(&mut self, data: &[u8]) -> (r: Result<(), EmuError>)
        requires
            old(self).wf(),
        ensures
            final(self).wf(),
            match r {
                Ok(u) => data@.len() <= RAM_SIZE - START_ADDRESS && final(self)@ == (EmuView {
                    ram: loaded_ram(old(self)@.ram, data@),
                    ..old(self)@
                }),
                Err(e) => e == EmuError::RomTooLarge && data@.len() > RAM_SIZE - START_ADDRESS
                    && final(self)@ == old(self)@,
            },
    {
        let start: usize = START_ADDRESS as usize;
        if data.len() > RAM_SIZE - start {
            return Err(EmuError::RomTooLarge);
        }
        let ghost ram0 = self.ram@;
        let mut j: usize = 0;
        while j < data.len()
            invariant
                j <= data@.len(),
                data@.len() <= RAM_SIZE - start,
                start == START_ADDRESS,
                ram0.len() == RAM_SIZE,
                self.ram@.len() == RAM_SIZE,
                self@ == (EmuView { ram: self@.ram, ..old(self)@ }),
                forall|k: int|
                    0 <= k < RAM_SIZE ==> self.ram@[k] == if start <= k < start + j {
                        data@[k - start]
                    } else {
                        ram0[k]
                    },
            decreases data@.len() - j,
        {
            self.ram[start + j] = data[j];
            j = j + 1;
        }
        proof {
            assert(self.ram@ =~= loaded_ram(ram0, data@));
            assert(self@ == (EmuView { ram: loaded_ram(old(self)@.ram, data@), ..old(self)@ }));
        }
        Ok(())
    }

    /// Decrements each timer if it is nonzero, flooring at zero; reports
    /// whether the sound timer just ran out, the moment for the host to
    /// emit its audible alert.
    pub fn tick_timers(&mut self) -> (beep: bool)
        requires
            old(self).wf(),
        ensures
            final(self).wf(),
            final(self)@ == (EmuView {
                delay: timer_dec(old(self)@.delay),
                sound: timer_dec(old(self)@.sound),
                ..old(self)@
            }),
            beep == (old(self)@.sound == 1),
    {
        if self.delay_timer > 0 {
            self.delay_timer = self.delay_timer - 1;
        }
        let mut beep = false;
        if self.sound_timer > 0 {
            if self.sound_timer == 1 {
                beep = true;
            }
            self.sound_timer = self.sound_timer - 1;
        }
        beep
    }

    /// Pushes a return address; a full stack refuses with `StackOverflow`.
    fn push(&mut self, val: u16) -> (r: Result<(), EmuError>)
        requires
            old(self).wf(),
        ensures
            final(self).wf(),
            match r {
                Ok(u) => old(self)@.sp < STACK_SIZE && final(self)@ == (EmuView {
                    sp: (old(self)@.sp + 1) as u16,
                    stack: old(self)@.stack.update(old(self)@.sp as int, val),
                    ..old(self)@
                }),
                Err(e) => e == EmuError::StackOverflow && old(self)@.sp == STACK_SIZE
                    && final(self)@ == old(self)@,
            },
    {
        if self.stack_pointer < STACK_SIZE as u16 {
            let sp: usize = self.stack_pointer as usize;
            self.stack[sp] = val;
            self.stack_pointer = self.stack_pointer + 1;
            Ok(())
        } else {
            Err(EmuError::StackOverflow)
        }
    }

    /// Pops a return address; an empty stack refuses with `StackUnderflow`.
    fn pop(&mut self) -> (r: Result<u16, EmuError>)
        requires
            old(self).wf(),
        ensures
            final(self).wf(),
            match r {
                Ok(val) => old(self)@.sp > 0 && val == old(self)@.stack[old(self)@.sp - 1]
                    && final(self)@ == (EmuView { sp: (old(self)@.sp - 1) as u16, ..old(self)@ }),
                Err(e) => e == EmuError::StackUnderflow && old(self)@.sp == 0 && final(self)@
                    == old(self)@,
            },
    {
        if self.stack_pointer > 0 {
            self.stack_pointer = self.stack_pointer - 1;
            let sp: usize = self.stack_pointer as usize;
            Ok(self.stack[sp])
        } else {
            Err(EmuError::StackUnderflow)
        }
    }

    /// Reads the instruction word at the program counter: two consecutive
    /// bytes, high byte first.  A program counter too near the end of
    /// memory is refused with `MemoryOutOfBounds`.
    fn fetch(&self) -> (r: Result<u16, EmuError>)
        requires
            self.wf(),
        ensures
            match r {
                Ok(op) => self@.pc + 1 < RAM_SIZE && op == fetched(self@),
                Err(e) => e == EmuError::MemoryOutOfBounds && self@.pc + 1 >= RAM_SIZE,
            },
    {
        let pc: usize = self.program_counter as usize;
        if pc + 1 >= RAM_SIZE {
            return Err(EmuError::MemoryOutOfBounds);
        }
        let higher_byte: u16 = self.ram[pc] as u16;
        let lower_byte: u16 = self.ram[pc + 1] as u16;
        Ok(higher_byte * 256 + lower_byte)
    }

    /// Draws a `rows`-row sprite from `memory[I..]` at `(VX, VY)`; each set
    /// sprite bit toggles its cell, coordinates wrap, and VF records
    /// whether any lit cell was turned off.  A sprite reaching past the end
    /// of memory is refused whole.
    fn op_draw(&mut self, x: usize, y: usize, rows: usize) -> (r: Result<(), EmuError>)
        requires
            old(self).wf(),
            old(self)@.pc + 1 < RAM_SIZE,
            x < NUM_REGS,
            y < NUM_REGS,
            rows < 16,
        ensures
            final(self).wf(),
            match r {
                Ok(u) => !(rows > 0 && old(self)@.i + rows > RAM_SIZE) && ({
                    let p = draw_sprite(
                        old(self)@.screen,
                        false,
                        old(self)@.ram,
                        old(self)@.i as int,
                        old(self)@.v[x as int] as int,
                        old(self)@.v[y as int] as int,
                        rows as int,
                    );
                    final(self)@ == (EmuView {
                        pc: (old(self)@.pc + 2) as u16,
                        screen: p.0,
                        v: old(self)@.v.update(0xF, if p.1 { 1u8 } else { 0u8 }),
                        ..old(self)@
                    })
                }),
                Err(e) => e == EmuError::MemoryOutOfBounds && rows > 0 && old(self)@.i + rows
                    > RAM_SIZE && final(self)@ == old(self)@,
            },
    {
        let i0: usize = self.i_reg as usize;
        if rows > 0 && i0 + rows > RAM_SIZE {
            return Err(EmuError::MemoryOutOfBounds);
        }
        let x_coord: usize = self.v_reg[x] as usize;
        let y_coord: usize = self.v_reg[y] as usize;
        let ghost screen0 = self.screen@;
        let mut flipped = false;
        let mut y_line: usize = 0;
        while y_line < rows
            invariant
                y_line <= rows,
                rows < 16,
                rows > 0 ==> i0 + rows <= RAM_SIZE,
                x_coord < 256,
                y_coord < 256,
                old(self).wf(),
                self.wf(),
                i0 == old(self)@.i,
                x_coord == old(self)@.v[x as int],
                y_coord == old(self)@.v[y as int],
                screen0 == old(self)@.screen,
                self@ == (EmuView { screen: self@.screen, ..old(self)@ }),
                (self.screen@, flipped) == draw_sprite(
                    screen0,
                    false,
                    old(self)@.ram,
                    i0 as int,
                    x_coord as int,
                    y_coord as int,
                    y_line as int,
                ),
            decreases rows - y_line,
        {
            let pixels: u8 = self.ram[i0 + y_line];
            let yy: usize = (y_coord + y_line) % SCREEN_HEIGHT;
            let ghost row_start = (self.screen@, flipped);
            let mut x_line: u8 = 0;
            while x_line < 8
                invariant
                    x_line <= 8,
                    yy < SCREEN_HEIGHT,
                    yy as int == (y_coord + y_line) % (SCREEN_HEIGHT as int),
                    x_coord < 256,
                    old(self).wf(),
                    self.wf(),
                    self@ == (EmuView { screen: self@.screen, ..old(self)@ }),
                    (self.screen@, flipped) == draw_row(
                        row_start.0,
                        row_start.1,
                        pixels,
                        x_coord as int,
                        yy as int,
                        x_line as int,
                    ),
                decreases 8 - x_line,
            {
                let mask: u8 = 0x80u8 >> x_line;
                if pixels & mask != 0 {
                    let xx: usize = (x_coord + x_line as usize) % SCREEN_WIDTH;
                    let idx: usize = xx + SCREEN_WIDTH * yy;
                    let cell: bool = self.screen[idx];
                    if cell {
                        flipped = true;
                    }
                    self.screen[idx] = !cell;
                }
                x_line = x_line + 1;
            }
            proof {
                assert((self.screen@, flipped) == draw_sprite(
                    screen0,
                    false,
                    old(self)@.ram,
                    i0 as int,
                    x_coord as int,
                    y_coord as int,
                    y_line as int + 1,
                ));
            }
            y_line = y_line + 1;
        }
        if flipped {
            self.v_reg[0xF] = 1;
        } else {
            self.v_reg[0xF] = 0;
        }
        self.program_counter = self.program_counter + 2;
        Ok(())
    }

    /// Copies registers `V0..=VX` into memory at `I..`; a block reaching
    /// past the end of memory is refused whole.
    fn op_store(&mut self, x: usize) -> (r: Result<(), EmuError>)
        requires
            old(self).wf(),
            old(self)@.pc + 1 < RAM_SIZE,
            x < NUM_REGS,
        ensures
            final(self).wf(),
            match r {
                Ok(u) => old(self)@.i + x < RAM_SIZE && final(self)@ == (EmuView {
                    pc: (old(self)@.pc + 2) as u16,
                    ram: store_regs(old(self)@.ram, old(self)@.v, old(self)@.i as int, x as int),
                    ..old(self)@
                }),
                Err(e) => e == EmuError::MemoryOutOfBounds && old(self)@.i + x >= RAM_SIZE && final(self)@ == old(self)@,
            },
    {
        let i0: usize = self.i_reg as usize;
        if i0 + x >= RAM_SIZE {
            return Err(EmuError::MemoryOutOfBounds);
        }
        let ghost ram0 = self.ram@;
        let mut k: usize = 0;
        while k <= x
            invariant
                k <= x + 1,
                x < NUM_REGS,
                i0 + x < RAM_SIZE,
                ram0.len() == RAM_SIZE,
                i0 == old(self)@.i,
                ram0 == old(self)@.ram,
                old(self).wf(),
                self.wf(),
                self@ == (EmuView { ram: self@.ram, ..old(self)@ }),
                forall|t: int|
                    0 <= t < RAM_SIZE ==> self.ram@[t] == if i0 <= t < i0 + k {
                        old(self)@.v[t - i0]
                    } else {
                        ram0[t]
                    },
            decreases x + 1 - k,
        {
            self.ram[i0 + k] = self.v_reg[k];
            k = k + 1;
        }
        proof {
            assert(self.ram@ =~= store_regs(old(self)@.ram, old(self)@.v, i0 as int, x as int));
        }
        self.program_counter = self.program_counter + 2;
        Ok(())
    }

    /// Copies memory at `I..` into registers `V0..=VX`; a block reaching
    /// past the end of memory is refused whole.
    fn op_load(&mut self, x: usize) -> (r: Result<(), EmuError>)
        requires
            old(self).wf(),
            old(self)@.pc + 1 < RAM_SIZE,
            x < NUM_REGS,
        ensures
            final(self).wf(),
            match r {
                Ok(u) => old(self)@.i + x < RAM_SIZE && final(self)@ == (EmuView {
                    pc: (old(self)@.pc + 2) as u16,
                    v: load_regs(old(self)@.v, old(self)@.ram, old(self)@.i as int, x as int),
                    ..old(self)@
                }),
                Err(e) => e == EmuError::MemoryOutOfBounds && old(self)@.i + x >= RAM_SIZE && final(self)@ == old(self)@,
            },
    {
        let i0: usize = self.i_reg as usize;
        if i0 + x >= RAM_SIZE {
            return Err(EmuError::MemoryOutOfBounds);
        }
        let ghost v0 = self.v_reg@;
        let mut k: usize = 0;
        while k <= x
            invariant
                k <= x + 1,
                x < NUM_REGS,
                i0 + x < RAM_SIZE,
                v0.len() == NUM_REGS,
                i0 == old(self)@.i,
                v0 == old(self)@.v,
                old(self).wf(),
                self.wf(),
                self@ == (EmuView { v: self@.v, ..old(self)@ }),
                forall|t: int|
                    0 <= t < NUM_REGS ==> self.v_reg@[t] == if 0 <= t < k {
                        old(self)@.ram[i0 + t]
                    } else {
                        v0[t]
                    },
            decreases x + 1 - k,
        {
            self.v_reg[k] = self.ram[i0 + k];
            k = k + 1;
        }
        proof {
            assert(self.v_reg@ =~= load_regs(old(self)@.v, old(self)@.ram, i0 as int, x as int));
        }
        self.program_counter = self.program_counter + 2;
        Ok(())
    }

    /// Decodes and executes one instruction word, with `rnd` the byte the
    /// random source supplied.  The effect, or the refusal, is exactly what
    /// `step_spec` states; a refused instruction changes nothing.
    #[verifier::rlimit(100)]
    fn execute(&mut self, opcode: u16, rnd: u8) -> (r: Result<(), EmuError>)
        requires
            old(self).wf(),
            old(self)@.pc + 1 < RAM_SIZE,
        ensures
            final(self).wf(),
            match step_spec(old(self)@, opcode, rnd) {
                Ok(v) => r is Ok && final(self)@ == v,
                Err(e) => r == Err::<(), EmuError>(e) && final(self)@ == old(self)@,
            },
    {
        let digit1: u16 = opcode / 0x1000;
        let digit2: u16 = (opcode / 0x100) % 16;
        let digit3: u16 = (opcode / 0x10) % 16;
        let digit4: u16 = opcode % 16;
        let indx: usize = digit2 as usize;
        let indy: usize = digit3 as usize;
        let nnn_val: u16 = opcode % 0x1000;
        let nn_val: u8 = (opcode % 0x100) as u8;
        let pc2: u16 = self.program_counter + 2;
        match digit1 {
            0 => self.exec_fam_0(opcode, rnd),
            // jump NNN
            1 => {
                self.program_counter = nnn_val;
                Ok(())
            },
            // call NNN
            2 => {
                match self.push(pc2) {
                    Ok(u) => {
                        self.program_counter = nnn_val;
                        Ok(())
                    },
                    Err(e) => Err(e),
                }
            },
            // skip if VX == NN
            3 => {
                self.program_counter = if self.v_reg[indx] == nn_val {
                    pc2 + 2
                } else {
                    pc2
                };
                Ok(())
            },
            // skip if VX != NN
            4 => {
                self.program_counter = if self.v_reg[indx] != nn_val {
                    pc2 + 2
                } else {
                    pc2
                };
                Ok(())
            },
            // skip if VX == VY
            5 => {
                if digit4 != 0 {
                    return Err(EmuError::UnimplementedOpcode(opcode));
                }
                self.program_counter = if self.v_reg[indx] == self.v_reg[indy] {
                    pc2 + 2
                } else {
                    pc2
                };
                Ok(())
            },
            // VX = NN
            6 => {
                self.program_counter = pc2;
                self.v_reg[indx] = nn_val;
                Ok(())
            },
            // VX += NN, wrapping, flag untouched
            7 => {
                self.program_counter = pc2;
                let sum: u16 = self.v_reg[indx] as u16 + nn_val as u16;
                self.v_reg[indx] = (sum % 256) as u8;
                Ok(())
            },
            8 => self.exec_fam_8(opcode, rnd),
            // skip if VX != VY
            9 => {
                if digit4 != 0 {
                    return Err(EmuError::UnimplementedOpcode(opcode));
                }
                self.program_counter = if self.v_reg[indx] != self.v_reg[indy] {
                    pc2 + 2
                } else {
                    pc2
                };
                Ok(())
            },
            // I = NNN
            0xA => {
                self.program_counter = pc2;
                self.i_reg = nnn_val;
                Ok(())
            },
            // jump to V0 + NNN
            0xB => {
                self.program_counter = self.v_reg[0] as u16 + nnn_val;
                Ok(())
            },
            // VX = random byte AND NN
            0xC => {
                self.program_counter = pc2;
                self.v_reg[indx] = rnd & nn_val;
                Ok(())
            },
            // draw sprite
            0xD => self.op_draw(indx, indy, digit4 as usize),
            0xE => self.exec_fam_e(opcode, rnd),
            0xF => self.exec_fam_f(opcode, rnd),
            _ => {
                proof {
                    assert(false);
                }
                Err(EmuError::UnimplementedOpcode(opcode))
            },
        }
    }

    /// The `0x0...` instruction family: no-op, clear screen, and return.
    #[verifier::rlimit(100)]
    fn exec_fam_0(&mut self, opcode: u16, rnd: u8) -> (r: Result<(), EmuError>)
        requires
            old(self).wf(),
            old(self)@.pc + 1 < RAM_SIZE,
            crate::step::d1(opcode) == 0,
        ensures
            final(self).wf(),
            match step_spec(old(self)@, opcode, rnd) {
                Ok(v) => r is Ok && final(self)@ == v,
                Err(e) => r == Err::<(), EmuError>(e) && final(self)@ == old(self)@,
            },
    {
        let digit2: u16 = (opcode / 0x100) % 16;
        let digit3: u16 = (opcode / 0x10) % 16;
        let digit4: u16 = opcode % 16;
        let pc2: u16 = self.program_counter + 2;
        match (digit2, digit3, digit4) {
            // NOP
            (0, 0, 0) => {
                self.program_counter = pc2;
                Ok(())
            },
            // clear screen
            (0, 0xE, 0) => {
                self.program_counter = pc2;
                self.screen = filled::<bool>(SCREEN_WIDTH * SCREEN_HEIGHT, false);
                proof {
                    assert(self@.screen =~= Seq::new(old(self)@.screen.len(), |k: int| false));
                }
                Ok(())
            },
            // return from call
            (0, 0xE, 0xE) => {
                match self.pop() {
                    Ok(ret_addr) => {
                        self.program_counter = ret_addr;
                        Ok(())
                    },
                    Err(e) => Err(e),
                }
            },
            (_, _, _) => Err(EmuError::UnimplementedOpcode(opcode)),
        }
    }

    /// The `0x8...` instruction family: register-to-register moves,
    /// bitwise operations, additions and subtractions with their flag
    /// side effects, and the two shifts.
    #[verifier::rlimit(100)]
    fn exec_fam_8(&mut self, opcode: u16, rnd: u8) -> (r: Result<(), EmuError>)
        requires
            old(self).wf(),
            old(self)@.pc + 1 < RAM_SIZE,
            crate::step::d1(opcode) == 8,
        ensures
            final(self).wf(),
            match step_spec(old(self)@, opcode, rnd) {
                Ok(v) => r is Ok && final(self)@ == v,
                Err(e) => r == Err::<(), EmuError>(e) && final(self)@ == old(self)@,
            },
    {
        let digit2: u16 = (opcode / 0x100) % 16;
        let digit3: u16 = (opcode / 0x10) % 16;
        let digit4: u16 = opcode % 16;
        let indx: usize = digit2 as usize;
        let indy: usize = digit3 as usize;
        let pc2: u16 = self.program_counter + 2;
        match digit4 {
            // VX = VY
            0 => {
                self.program_counter = pc2;
                self.v_reg[indx] = self.v_reg[indy];
                Ok(())
            },
            // VX |= VY
            1 => {
                self.program_counter = pc2;
                self.v_reg[indx] = self.v_reg[indx] | self.v_reg[indy];
                Ok(())
            },
            // VX &= VY
            2 => {
                self.program_counter = pc2;
                self.v_reg[indx] = self.v_reg[indx] & self.v_reg[indy];
                Ok(())
            },
            // VX ^= VY
            3 => {
                self.program_counter = pc2;
                self.v_reg[indx] = self.v_reg[indx] ^ self.v_reg[indy];
                Ok(())
            },
            // VX += VY; VF = carry
            4 => {
                self.program_counter = pc2;
                let sum: u16 = self.v_reg[indx] as u16 + self.v_reg[indy] as u16;
                self.v_reg[indx] = (sum % 256) as u8;
                self.v_reg[0xF] = if sum > 255 {
                    1
                } else {
                    0
                };
                Ok(())
            },
            // VX -= VY; VF = no-borrow
            5 => {
                self.program_counter = pc2;
                let vx: u8 = self.v_reg[indx];
                let vy: u8 = self.v_reg[indy];
                let new_vf: u8 = if vx >= vy {
                    1
                } else {
                    0
                };
                self.v_reg[indx] = if vx >= vy {
                    vx - vy
                } else {
                    (256 + vx as u16 - vy as u16) as u8
                };
                self.v_reg[0xF] = new_vf;
                Ok(())
            },
            // VX >>= 1; VF = shifted-out low bit
            6 => {
                self.program_counter = pc2;
                let vx: u8 = self.v_reg[indx];
                self.v_reg[indx] = vx / 2;
                self.v_reg[0xF] = vx % 2;
                Ok(())
            },
            // VX = VY - VX; VF = no-borrow
            7 => {
                self.program_counter = pc2;
                let vx: u8 = self.v_reg[indx];
                let vy: u8 = self.v_reg[indy];
                let new_vf: u8 = if vy >= vx {
                    1
                } else {
                    0
                };
                self.v_reg[indx] = if vy >= vx {
                    vy - vx
                } else {
                    (256 + vy as u16 - vx as u16) as u8
                };
                self.v_reg[0xF] = new_vf;
                Ok(())
            },
            // VX <<= 1; VF = shifted-out high bit
            0xE => {
                self.program_counter = pc2;
                let vx: u8 = self.v_reg[indx];
                self.v_reg[indx] = ((vx as u16 * 2) % 256) as u8;
                self.v_reg[0xF] = vx / 128;
                Ok(())
            },
            _ => Err(EmuError::UnimplementedOpcode(opcode)),
        }
    }

    /// The `0xE...` instruction family: the two key-state skips.
    #[verifier::rlimit(100)]
    fn exec_fam_e(&mut self, opcode: u16, rnd: u8) -> (r: Result<(), EmuError>)
        requires
            old(self).wf(),
            old(self)@.pc + 1 < RAM_SIZE,
            crate::step::d1(opcode) == 0xE,
        ensures
            final(self).wf(),
            match step_spec(old(self)@, opcode, rnd) {
                Ok(v) => r is Ok && final(self)@ == v,
                Err(e) => r == Err::<(), EmuError>(e) && final(self)@ == old(self)@,
            },
    {
        let digit2: u16 = (opcode / 0x100) % 16;
        let digit3: u16 = (opcode / 0x10) % 16;
        let digit4: u16 = opcode % 16;
        let indx: usize = digit2 as usize;
        let pc2: u16 = self.program_counter + 2;
        match (digit3, digit4) {
            // skip if key VX pressed
            (9, 0xE) => {
                let vx: u8 = self.v_reg[indx];
                if vx as usize >= NUM_KEYS {
                    return Err(EmuError::InvalidKeyIndex);
                }
                self.program_counter = if self.keys[vx as usize] {
                    pc2 + 2
                } else {
                    pc2
                };
                Ok(())
            },
            // skip if key VX not pressed
            (0xA, 1) => {
                let vx: u8 = self.v_reg[indx];
                if vx as usize >= NUM_KEYS {
                    return Err(EmuError::InvalidKeyIndex);
                }
                self.program_counter = if !self.keys[vx as usize] {
                    pc2 + 2
                } else {
                    pc2
                };
                Ok(())
            },
            (_, _) => Err(EmuError::UnimplementedOpcode(opcode)),
        }
    }

    /// The `0xF...` instruction family: timer transfers, the blocking key
    /// wait, index-register arithmetic, font lookup, decimal-digit store,
    /// and the register block transfers.
    #[verifier::rlimit(100)]
    fn exec_fam_f(&mut self, opcode: u16, rnd: u8) -> (r: Result<(), EmuError>)
        requires
            old(self).wf(),
            old(self)@.pc + 1 < RAM_SIZE,
            crate::step::d1(opcode) == 0xF,
        ensures
            final(self).wf(),
            match step_spec(old(self)@, opcode, rnd) {
                Ok(v) => r is Ok && final(self)@ == v,
                Err(e) => r == Err::<(), EmuError>(e) && final(self)@ == old(self)@,
            },
    {
        let digit2: u16 = (opcode / 0x100) % 16;
        let digit3: u16 = (opcode / 0x10) % 16;
        let digit4: u16 = opcode % 16;
        let indx: usize = digit2 as usize;
        let pc2: u16 = self.program_counter + 2;
        match (digit3, digit4) {
            // VX = delay timer
            (0, 7) => {
                self.program_counter = pc2;
                self.v_reg[indx] = self.delay_timer;
                Ok(())
            },
            // wait for a key: take the smallest pressed index, or rewind
            (0, 0xA) => {
                let mut first: usize = NUM_KEYS;
                let mut k: usize = 0;
                while k < NUM_KEYS
                    invariant
                        k <= NUM_KEYS,
                        self.wf(),
                        first <= NUM_KEYS,
                        first == NUM_KEYS ==> forall|j: int| 0 <= j < k ==> !self@.keys[j],
                        first < NUM_KEYS ==> first < k && self@.keys[first as int] && forall|
                            j: int,
                        | 0 <= j < first ==> !self@.keys[j],
                    decreases NUM_KEYS - k,
                {
                    if first == NUM_KEYS && self.keys[k] {
                        first = k;
                    }
                    k = k + 1;
                }
                proof {
                    lemma_first_key(self@.keys, 0, first as int);
                }
                if first < NUM_KEYS {
                    self.program_counter = pc2;
                    self.v_reg[indx] = first as u8;
                }
                Ok(())
            },
            // delay timer = VX
            (1, 5) => {
                self.program_counter = pc2;
                self.delay_timer = self.v_reg[indx];
                Ok(())
            },
            // sound timer = VX
            (1, 8) => {
                self.program_counter = pc2;
                self.sound_timer = self.v_reg[indx];
                Ok(())
            },
            // I += VX, wrapping
            (1, 0xE) => {
                self.program_counter = pc2;
                let widened: u32 = self.i_reg as u32 + self.v_reg[indx] as u32;
                self.i_reg = (widened % 0x10000) as u16;
                Ok(())
            },
            // I = font glyph address of digit VX
            (2, 9) => {
                self.program_counter = pc2;
                self.i_reg = self.v_reg[indx] as u16 * 5;
                Ok(())
            },
            // write the decimal digits of VX at memory[I..I+2]
            (3, 3) => {
                let i0: usize = self.i_reg as usize;
                if i0 + 2 >= RAM_SIZE {
                    return Err(EmuError::MemoryOutOfBounds);
                }
                let vx: u8 = self.v_reg[indx];
                self.program_counter = pc2;
                self.ram[i0] = vx / 100;
                self.ram[i0 + 1] = (vx / 10) % 10;
                self.ram[i0 + 2] = vx % 10;
                Ok(())
            },
            // copy V0..=VX to memory[I..]
            (5, 5) => self.op_store(indx),
            // copy memory[I..] to V0..=VX
            (6, 5) => self.op_load(indx),
            (_, _) => Err(EmuError::UnimplementedOpcode(opcode)),
        }
    }

    /// One fetch-decode-execute cycle.  On success the new state is one
    /// `step_spec` step of the fetched instruction — exactly determined
    /// for every instruction but the random family, and for that one a
    /// step under some byte the random source supplied.  On failure
    /// nothing has changed and the error is the one `step_spec` assigns
    /// (or `MemoryOutOfBounds` when the program counter itself ran off
    /// the end of memory).
    pub fn tick(&mut self) -> (r: Result<(), EmuError>)
        requires
            old(self).wf(),
        ensures
            final(self).wf(),
            match r {
                Ok(u) => old(self)@.pc + 1 < RAM_SIZE && (exists|rnd: u8|
                    step_spec(old(self)@, fetched(old(self)@), rnd) == Ok::<EmuView, EmuError>(
                        final(self)@,
                    )) && (d1(fetched(old(self)@)) != 0xC ==> step_spec(
                    old(self)@,
                    fetched(old(self)@),
                    0,
                ) == Ok::<EmuView, EmuError>(final(self)@)),
                Err(e) => final(self)@ == old(self)@ && (if old(self)@.pc + 1 < RAM_SIZE {
                    step_spec(old(self)@, fetched(old(self)@), 0) == Err::<EmuView, EmuError>(e)
                } else {
                    e == EmuError::MemoryOutOfBounds
                }),
            },
    {
        let opcode = match self.fetch() {
            Ok(op) => op,
            Err(e) => {
                return Err(e);
            },
        };
        let rnd: u8 = if opcode / 0x1000 == 0xC {
            random_byte()
        } else {
            0
        };
        let r = self.execute(opcode, rnd);
        proof {
            match r {
                Ok(u) => {
                    assert(step_spec(old(self)@, fetched(old(self)@), rnd) == Ok::<
                        EmuView,
                        EmuError,
                    >(self@));
                },
                Err(e) => {
                    assert(rnd == 0);
                },
            }
        }
        r
    }
}

impl Default for Emu {
    /// A freshly constructed engine, as `new` builds it.
    fn default() -> (r: Self)
        ensures
            r.wf(),
            r@ == initial_emu(),
    {
        Self::new()
    }
}

} // verus!
