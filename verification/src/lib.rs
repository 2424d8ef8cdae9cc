//! A verified CHIP-8 interpreter core.
//!
//! The engine holds the whole machine state (memory, registers, call stack,
//! timers, keypad, framebuffer) and executes one instruction per `tick`.
//! Every state change is specified against a mathematical view of the
//! machine, and every operation that can fail returns a typed error instead
//! of panicking.

pub mod emu;
pub mod laws;
mod rng;
pub mod state;
pub mod step;

pub use emu::Emu;
pub use state::EmuError;
pub use state::SCREEN_HEIGHT;
pub use state::SCREEN_WIDTH;
