//! Tests of loading, resetting, and the error taxonomy.

use chip8_core::Emu;
use chip8_core::EmuError;

/// Every observable component of two engines compared piece by piece.
fn assert_same_state(a: &Emu, b: &Emu) {
    assert_eq!(a.get_pc(), b.get_pc());
    assert_eq!(a.get_index(), b.get_index());
    assert_eq!(a.get_sp(), b.get_sp());
    assert_eq!(a.get_delay(), b.get_delay());
    assert_eq!(a.get_sound(), b.get_sound());
    assert_eq!(a.get_memory(), b.get_memory());
    assert_eq!(a.get_display(), b.get_display());
    assert_eq!(a.get_registers(), b.get_registers());
    assert_eq!(a.get_stack(), b.get_stack());
    assert_eq!(a.get_keys(), b.get_keys());
}

#[test]
fn new_engine_has_font_and_start_address() {
    let emu = Emu::new();
    assert_eq!(emu.get_pc(), 0x200);
    let memory = emu.get_memory();
    assert_eq!(memory.len(), 4096);
    assert_eq!(&memory[0..5], &[0xF0, 0x90, 0x90, 0x90, 0xF0]);
    assert_eq!(&memory[75..80], &[0xF0, 0x80, 0xF0, 0x80, 0x80]);
    assert!(memory[80..].iter().all(|&b| b == 0));
    assert!(emu.get_display().iter().all(|&c| !c));
}

#[test]
fn default_matches_new() {
    assert_same_state(&Emu::default(), &Emu::new());
}

#[test]
fn empty_rom_loads_and_changes_nothing() {
    let mut emu = Emu::new();
    emu.load(&[]).unwrap();
    assert_same_state(&emu, &Emu::new());
}

#[test]
fn load_copies_rom_at_start_address() {
    let mut emu = Emu::new();
    emu.load(&[0xDE, 0xAD, 0xBE, 0xEF]).unwrap();
    let memory = emu.get_memory();
    assert_eq!(&memory[0x200..0x204], &[0xDE, 0xAD, 0xBE, 0xEF]);
    assert!(memory[0x204..].iter().all(|&b| b == 0));
}

#[test]
fn load_accepts_a_rom_that_exactly_fits() {
    let mut emu = Emu::new();
    let rom = vec![0x77u8; 4096 - 0x200];
    emu.load(&rom).unwrap();
    assert!(emu.get_memory()[0x200..].iter().all(|&b| b == 0x77));
}

#[test]
fn oversized_rom_is_refused_and_memory_untouched() {
    let mut emu = Emu::new();
    let rom = vec![0x77u8; 4096 - 0x200 + 1];
    assert_eq!(emu.load(&rom), Err(EmuError::RomTooLarge));
    assert_same_state(&emu, &Emu::new());
}

#[test]
fn reset_restores_the_freshly_constructed_state() {
    let mut emu = Emu::new();
    emu.load(&[0xA2, 0x08, 0x22, 0x06, 0xD0, 0x01, 0x00, 0x00, 0xFF]).unwrap();
    emu.tick().unwrap();
    emu.tick().unwrap();
    emu.tick().unwrap();
    emu.keypress(7, true).unwrap();
    emu.tick_timers();
    emu.reset();
    assert_same_state(&emu, &Emu::new());
}

#[test]
fn unknown_opcode_is_reported_and_changes_nothing() {
    let mut emu = boot_with(&[0x50, 0x01]);
    assert_eq!(emu.tick(), Err(EmuError::UnimplementedOpcode(0x5001)));
    assert_eq!(emu.get_pc(), 0x200);
}

#[test]
fn return_with_empty_stack_underflows() {
    let mut emu = boot_with(&[0x00, 0xEE]);
    assert_eq!(emu.tick(), Err(EmuError::StackUnderflow));
    assert_eq!(emu.get_pc(), 0x200);
    assert_eq!(emu.get_sp(), 0);
}

#[test]
fn seventeenth_nested_call_overflows() {
    let mut emu = boot_with(&[0x22, 0x00]);
    for _ in 0..16 {
        emu.tick().unwrap();
    }
    assert_eq!(emu.get_sp(), 16);
    assert_eq!(emu.tick(), Err(EmuError::StackOverflow));
    assert_eq!(emu.get_sp(), 16);
    assert_eq!(emu.get_pc(), 0x200);
}

#[test]
fn bcd_past_end_of_memory_is_refused() {
    let mut emu = boot_with(&[0xAF, 0xFF, 0xF0, 0x33]);
    emu.tick().unwrap();
    assert_eq!(emu.tick(), Err(EmuError::MemoryOutOfBounds));
    assert_eq!(emu.get_pc(), 0x202);
}

#[test]
fn sprite_past_end_of_memory_is_refused() {
    let mut emu = boot_with(&[0xAF, 0xFF, 0xD0, 0x02]);
    emu.tick().unwrap();
    assert_eq!(emu.tick(), Err(EmuError::MemoryOutOfBounds));
}

#[test]
fn register_store_past_end_of_memory_is_refused() {
    let mut emu = boot_with(&[0xAF, 0xFE, 0xF2, 0x55]);
    emu.tick().unwrap();
    assert_eq!(emu.tick(), Err(EmuError::MemoryOutOfBounds));
}

#[test]
fn fetch_past_end_of_memory_is_refused() {
    let mut emu = boot_with(&[0x1F, 0xFF]);
    emu.tick().unwrap();
    assert_eq!(emu.get_pc(), 0xFFF);
    assert_eq!(emu.tick(), Err(EmuError::MemoryOutOfBounds));
    assert_eq!(emu.get_pc(), 0xFFF);
}

#[test]
fn key_index_out_of_range_is_refused() {
    let mut emu = Emu::new();
    assert_eq!(emu.keypress(16, true), Err(EmuError::InvalidKeyIndex));
    assert!(emu.get_keys().iter().all(|&k| !k));

    let mut emu = boot_with(&[0x60, 0x10, 0xE0, 0x9E]);
    emu.tick().unwrap();
    assert_eq!(emu.tick(), Err(EmuError::InvalidKeyIndex));
}

/// A fresh engine with `rom` loaded.
fn boot_with(rom: &[u8]) -> Emu {
    let mut emu = Emu::new();
    emu.load(rom).unwrap();
    emu
}
