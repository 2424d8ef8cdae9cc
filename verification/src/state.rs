//! The machine-state model: constants, the error taxonomy, and the
//! mathematical view of the interpreter state.

use vstd::prelude::*;

verus! {

/// Width of the monochrome display, in cells.
pub const SCREEN_WIDTH: usize = 64;

/// Height of the monochrome display, in cells.
pub const SCREEN_HEIGHT: usize = 32;

/// Number of addressable bytes of memory.
pub const RAM_SIZE: usize = 4096;

/// Number of general-purpose 8-bit registers.
pub const NUM_REGS: usize = 16;

/// Capacity of the call stack, in return addresses.
pub const STACK_SIZE: usize = 16;

/// Number of keys on the keypad.
pub const NUM_KEYS: usize = 16;

/// Number of bytes of the built-in font table: 16 glyphs of 5 bytes each.
pub const FONTSET_SIZE: usize = 80;

/// Address at which a loaded program begins.
pub const START_ADDRESS: u16 = 0x200;

/// Every way an engine operation can fail.  The engine never panics: each
/// failing operation reports one of these and leaves the state as it was.
#[derive(Clone, Copy, Debug, PartialEq, Eq, Structural)]
pub enum EmuError {
    /// A program image too long to fit between `START_ADDRESS` and the end
    /// of memory.
    RomTooLarge,
    /// An instruction word matching no recognized opcode pattern.
    UnimplementedOpcode(u16),
    /// A computed address (fetch, draw, indexed store/load, digit store)
    /// falling outside memory.
    MemoryOutOfBounds,
    /// A call with the call stack already full.
    StackOverflow,
    /// A return with the call stack empty.
    StackUnderflow,
    /// A keypad index outside the 16-key layout.
    InvalidKeyIndex,
}

/// The mathematical view of the whole machine state.
pub ghost struct EmuView {
    /// Program counter: address of the next instruction.
    pub pc: u16,
    /// The 4096 bytes of memory.
    pub ram: Seq<u8>,
    /// The 64x32 framebuffer, row-major; `true` is a lit cell.
    pub screen: Seq<bool>,
    /// The 16 general-purpose registers V0..VF.
    pub v: Seq<u8>,
    /// The 16-bit index register.
    pub i: u16,
    /// The stack pointer: number of occupied call-stack slots.
    pub sp: u16,
    /// The 16 call-stack slots.
    pub stack: Seq<u16>,
    /// The delay timer.
    pub delay: u8,
    /// The sound timer.
    pub sound: u8,
    /// The 16 keypad states; `true` is a pressed key.
    pub keys: Seq<bool>,
}

impl EmuView {
    /// Structural well-formedness: every component has its fixed size and
    /// the stack pointer stays within the stack.
    pub open spec fn wf(self) -> bool {
        &&& self.ram.len() == RAM_SIZE
        &&& self.screen.len() == SCREEN_WIDTH * SCREEN_HEIGHT
        &&& self.v.len() == NUM_REGS
        &&& self.stack.len() == STACK_SIZE
        &&& self.keys.len() == NUM_KEYS
        &&& self.sp <= STACK_SIZE
    }
}

/// The built-in font table: 16 hex-digit glyphs of 5 bytes each.
pub open spec fn font() -> Seq<u8> {
    seq![
        0xF0u8, 0x90, 0x90, 0x90, 0xF0, // 0
        0x20, 0x60, 0x20, 0x20, 0x70, // 1
        0xF0, 0x10, 0xF0, 0x80, 0xF0, // 2
        0xF0, 0x10, 0xF0, 0x10, 0xF0, // 3
        0x90, 0x90, 0xF0, 0x10, 0x10, // 4
        0xF0, 0x80, 0xF0, 0x10, 0xF0, // 5
        0xF0, 0x80, 0xF0, 0x90, 0xF0, // 6
        0xF0, 0x10, 0x20, 0x40, 0x40, // 7
        0xF0, 0x90, 0xF0, 0x90, 0xF0, // 8
        0xF0, 0x90, 0xF0, 0x10, 0xF0, // 9
        0xF0, 0x90, 0xF0, 0x90, 0x90, // A
        0xE0, 0x90, 0xE0, 0x90, 0xE0, // B
        0xF0, 0x80, 0x80, 0x80, 0xF0, // C
        0xE0, 0x90, 0x90, 0x90, 0xE0, // D
        0xF0, 0x80, 0xF0, 0x80, 0xF0, // E
        0xF0, 0x80, 0xF0, 0x80, 0x80, // F
    ]
}

/// Memory after copying a program image over the bytes at
/// `START_ADDRESS..`; everything else keeps its value.
pub open spec fn loaded_ram(ram: Seq<u8>, data: Seq<u8>) -> Seq<u8> {
    Seq::new(
        ram.len(),
        |k: int|
            if START_ADDRESS <= k < START_ADDRESS + data.len() {
                data[k - START_ADDRESS]
            } else {
                ram[k]
            },
    )
}

/// The state of a freshly constructed engine: everything zero or released,
/// except the font table in the first bytes of memory and the program
/// counter at `START_ADDRESS`.
pub open spec fn initial_emu() -> EmuView {
    EmuView {
        pc: START_ADDRESS,
        ram: Seq::new(RAM_SIZE as nat, |k: int| if k < FONTSET_SIZE { font()[k] } else { 0u8 }),
        screen: Seq::new((SCREEN_WIDTH * SCREEN_HEIGHT) as nat, |k: int| false),
        v: Seq::new(NUM_REGS as nat, |k: int| 0u8),
        i: 0,
        sp: 0,
        stack: Seq::new(STACK_SIZE as nat, |k: int| 0u16),
        delay: 0,
        sound: 0,
        keys: Seq::new(NUM_KEYS as nat, |k: int| false),
    }
}

} // verus!
