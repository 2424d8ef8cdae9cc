//! Scenario tests for the interpreter: each drives the engine through its
//! public interface only.

use chip8_core::Emu;

/// A fresh engine with `rom` loaded.
fn boot(rom: &[u8]) -> Emu {
    let mut emu = Emu::new();
    emu.load(rom).unwrap();
    emu
}

#[test]
fn plain_instruction_advances_pc_by_two() {
    let mut emu = boot(&[0x60, 0x05]);
    assert_eq!(emu.get_pc(), 0x200);
    emu.tick().unwrap();
    assert_eq!(emu.get_pc(), 0x202);
    assert_eq!(emu.get_registers()[0], 0x05);
}

#[test]
fn jump_sets_pc_absolutely() {
    let mut emu = boot(&[0x12, 0x34]);
    emu.tick().unwrap();
    assert_eq!(emu.get_pc(), 0x234);
}

#[test]
fn jump_v0_adds_offset() {
    let mut emu = boot(&[0x60, 0x10, 0xB3, 0x00]);
    emu.tick().unwrap();
    emu.tick().unwrap();
    assert_eq!(emu.get_pc(), 0x310);
}

#[test]
fn taken_skip_advances_pc_by_four() {
    let mut emu = boot(&[0x30, 0x00]);
    emu.tick().unwrap();
    assert_eq!(emu.get_pc(), 0x204);
}

#[test]
fn untaken_skip_advances_pc_by_two() {
    let mut emu = boot(&[0x30, 0x01]);
    emu.tick().unwrap();
    assert_eq!(emu.get_pc(), 0x202);
}

#[test]
fn call_pushes_return_address_and_ret_pops_it() {
    let mut emu = boot(&[0x22, 0x04, 0x00, 0x00, 0x00, 0xEE]);
    emu.tick().unwrap();
    assert_eq!(emu.get_pc(), 0x204);
    assert_eq!(emu.get_sp(), 1);
    assert_eq!(emu.get_stack()[0], 0x202);
    emu.tick().unwrap();
    assert_eq!(emu.get_pc(), 0x202);
    assert_eq!(emu.get_sp(), 0);
    // The word at 0x202 is 0x0000: a no-op that only advances the counter.
    emu.tick().unwrap();
    assert_eq!(emu.get_pc(), 0x204);
}

#[test]
fn clear_screen_blanks_all_cells() {
    // Set I to the sprite byte, draw one row, then clear.
    let mut emu = boot(&[0xA2, 0x06, 0xD0, 0x01, 0x00, 0xE0, 0xFF]);
    emu.tick().unwrap();
    emu.tick().unwrap();
    assert_eq!(emu.get_display().iter().filter(|&&c| c).count(), 8);
    emu.tick().unwrap();
    let display = emu.get_display();
    assert_eq!(display.len(), 2048);
    assert!(display.iter().all(|&c| !c));
}

#[test]
fn drawing_solid_row_twice_clears_it_and_flags_collision() {
    let mut emu = boot(&[0xA2, 0x06, 0xD0, 0x01, 0xD0, 0x01, 0xFF]);
    emu.tick().unwrap();
    emu.tick().unwrap();
    assert_eq!(emu.get_display().iter().filter(|&&c| c).count(), 8);
    assert_eq!(emu.get_registers()[0xF], 0);
    emu.tick().unwrap();
    assert!(emu.get_display().iter().all(|&c| !c));
    assert_eq!(emu.get_registers()[0xF], 1);
}

#[test]
fn draw_wraps_coordinates() {
    // V0 = 62: the row starts two cells from the right edge and wraps.
    let mut emu = boot(&[0x60, 0x3E, 0x61, 0x00, 0xA2, 0x0A, 0xD0, 0x11, 0x00, 0x00, 0xFF]);
    emu.tick().unwrap();
    emu.tick().unwrap();
    emu.tick().unwrap();
    emu.tick().unwrap();
    let display = emu.get_display();
    assert!(display[62] && display[63]);
    assert!(display[0] && display[1] && display[2] && display[3] && display[4] && display[5]);
    assert!(!display[6]);
    assert_eq!(emu.get_registers()[0xF], 0);
}

#[test]
fn add_with_carry_wraps_and_sets_vf() {
    let mut emu = boot(&[0x60, 0xFF, 0x61, 0x01, 0x80, 0x14]);
    emu.tick().unwrap();
    emu.tick().unwrap();
    emu.tick().unwrap();
    assert_eq!(emu.get_registers()[0], 0x00);
    assert_eq!(emu.get_registers()[0xF], 1);
}

#[test]
fn add_without_carry_clears_vf() {
    let mut emu = boot(&[0x60, 0x02, 0x61, 0x03, 0x80, 0x14]);
    emu.tick().unwrap();
    emu.tick().unwrap();
    emu.tick().unwrap();
    assert_eq!(emu.get_registers()[0], 0x05);
    assert_eq!(emu.get_registers()[0xF], 0);
}

#[test]
fn sub_with_borrow_wraps_and_clears_vf() {
    let mut emu = boot(&[0x60, 0x01, 0x61, 0x02, 0x80, 0x15]);
    emu.tick().unwrap();
    emu.tick().unwrap();
    emu.tick().unwrap();
    assert_eq!(emu.get_registers()[0], 0xFF);
    assert_eq!(emu.get_registers()[0xF], 0);
}

#[test]
fn reverse_sub_without_borrow_sets_vf() {
    let mut emu = boot(&[0x60, 0x05, 0x61, 0x07, 0x80, 0x17]);
    emu.tick().unwrap();
    emu.tick().unwrap();
    emu.tick().unwrap();
    assert_eq!(emu.get_registers()[0], 0x02);
    assert_eq!(emu.get_registers()[0xF], 1);
}

#[test]
fn bitwise_ops_combine_registers() {
    let mut emu = boot(&[0x60, 0x0C, 0x61, 0x0A, 0x80, 0x11]);
    emu.tick().unwrap();
    emu.tick().unwrap();
    emu.tick().unwrap();
    assert_eq!(emu.get_registers()[0], 0x0E);

    let mut emu = boot(&[0x60, 0x0C, 0x61, 0x0A, 0x80, 0x12]);
    emu.tick().unwrap();
    emu.tick().unwrap();
    emu.tick().unwrap();
    assert_eq!(emu.get_registers()[0], 0x08);

    let mut emu = boot(&[0x60, 0x0C, 0x61, 0x0A, 0x80, 0x13]);
    emu.tick().unwrap();
    emu.tick().unwrap();
    emu.tick().unwrap();
    assert_eq!(emu.get_registers()[0], 0x06);
}

#[test]
fn shift_right_keeps_low_bit_in_vf() {
    let mut emu = boot(&[0x60, 0x05, 0x80, 0x06]);
    emu.tick().unwrap();
    emu.tick().unwrap();
    assert_eq!(emu.get_registers()[0], 0x02);
    assert_eq!(emu.get_registers()[0xF], 1);
}

#[test]
fn shift_left_keeps_high_bit_in_vf() {
    let mut emu = boot(&[0x60, 0x81, 0x80, 0x0E]);
    emu.tick().unwrap();
    emu.tick().unwrap();
    assert_eq!(emu.get_registers()[0], 0x02);
    assert_eq!(emu.get_registers()[0xF], 1);
}

#[test]
fn add_immediate_wraps_without_touching_vf() {
    let mut emu = boot(&[0x60, 0xFF, 0x70, 0x02]);
    emu.tick().unwrap();
    emu.tick().unwrap();
    assert_eq!(emu.get_registers()[0], 0x01);
    assert_eq!(emu.get_registers()[0xF], 0);
}

#[test]
fn random_masked_with_zero_is_zero() {
    let mut emu = boot(&[0x60, 0x55, 0xC0, 0x00]);
    emu.tick().unwrap();
    emu.tick().unwrap();
    assert_eq!(emu.get_registers()[0], 0x00);
}

#[test]
fn bcd_writes_decimal_digits() {
    let mut emu = boot(&[0x60, 0xEA, 0xA3, 0x00, 0xF0, 0x33]);
    emu.tick().unwrap();
    emu.tick().unwrap();
    emu.tick().unwrap();
    assert_eq!(emu.get_index(), 0x300);
    let memory = emu.get_memory();
    assert_eq!(memory[0x300], 2);
    assert_eq!(memory[0x301], 3);
    assert_eq!(memory[0x302], 4);
}

#[test]
fn store_and_load_register_blocks() {
    let mut emu = boot(&[0x60, 0x11, 0x61, 0x22, 0xA3, 0x00, 0xF1, 0x55]);
    emu.tick().unwrap();
    emu.tick().unwrap();
    emu.tick().unwrap();
    emu.tick().unwrap();
    assert_eq!(emu.get_memory()[0x300], 0x11);
    assert_eq!(emu.get_memory()[0x301], 0x22);

    let mut emu = boot(&[0xA2, 0x06, 0xF1, 0x65, 0x00, 0x00, 0xAA, 0xBB]);
    emu.tick().unwrap();
    emu.tick().unwrap();
    assert_eq!(emu.get_registers()[0], 0xAA);
    assert_eq!(emu.get_registers()[1], 0xBB);
}

#[test]
fn font_lookup_points_at_glyph() {
    let mut emu = boot(&[0x60, 0x0A, 0xF0, 0x29]);
    emu.tick().unwrap();
    emu.tick().unwrap();
    assert_eq!(emu.get_index(), 50);
    let memory = emu.get_memory();
    assert_eq!(&memory[50..55], &[0xF0, 0x90, 0xF0, 0x90, 0x90]);
}

#[test]
fn index_add_accumulates() {
    let mut emu = boot(&[0x60, 0xFF, 0xA3, 0x00, 0xF0, 0x1E]);
    emu.tick().unwrap();
    emu.tick().unwrap();
    emu.tick().unwrap();
    assert_eq!(emu.get_index(), 0x3FF);
}

#[test]
fn timers_transfer_and_floor_at_zero() {
    let mut emu = boot(&[0x60, 0x03, 0xF0, 0x15]);
    emu.tick().unwrap();
    emu.tick().unwrap();
    assert_eq!(emu.get_delay(), 3);
    for _ in 0..5 {
        emu.tick_timers();
    }
    assert_eq!(emu.get_delay(), 0);
}

#[test]
fn sound_timer_beeps_when_it_runs_out() {
    let mut emu = boot(&[0x60, 0x02, 0xF0, 0x18]);
    emu.tick().unwrap();
    emu.tick().unwrap();
    assert_eq!(emu.get_sound(), 2);
    assert!(!emu.tick_timers());
    assert!(emu.tick_timers());
    assert!(!emu.tick_timers());
    assert_eq!(emu.get_sound(), 0);
}

#[test]
fn delay_timer_reads_back() {
    let mut emu = boot(&[0x60, 0x07, 0xF0, 0x15, 0x61, 0x00, 0xF1, 0x07]);
    for _ in 0..4 {
        emu.tick().unwrap();
    }
    assert_eq!(emu.get_registers()[1], 7);
}

#[test]
fn key_skip_taken_when_pressed() {
    let mut emu = boot(&[0x60, 0x04, 0xE0, 0x9E]);
    emu.keypress(4, true).unwrap();
    emu.tick().unwrap();
    emu.tick().unwrap();
    assert_eq!(emu.get_pc(), 0x206);
}

#[test]
fn key_skip_not_taken_when_released() {
    let mut emu = boot(&[0x60, 0x04, 0xE0, 0xA1]);
    emu.tick().unwrap();
    emu.tick().unwrap();
    assert_eq!(emu.get_pc(), 0x206);
    let mut emu = boot(&[0x60, 0x04, 0xE0, 0x9E]);
    emu.tick().unwrap();
    emu.tick().unwrap();
    assert_eq!(emu.get_pc(), 0x204);
}

#[test]
fn key_wait_holds_pc_until_a_key_arrives() {
    let mut emu = boot(&[0xF0, 0x0A]);
    let before = emu.get_pc();
    emu.tick().unwrap();
    assert_eq!(emu.get_pc(), before);
    emu.tick().unwrap();
    assert_eq!(emu.get_pc(), before);
    emu.keypress(5, true).unwrap();
    emu.tick().unwrap();
    assert_eq!(emu.get_pc(), before + 2);
    assert_eq!(emu.get_registers()[0], 5);
}

#[test]
fn key_wait_takes_smallest_pressed_index() {
    let mut emu = boot(&[0xF0, 0x0A]);
    emu.keypress(9, true).unwrap();
    emu.keypress(3, true).unwrap();
    emu.tick().unwrap();
    assert_eq!(emu.get_registers()[0], 3);
}

#[test]
fn keypress_toggles_and_reads_back() {
    let mut emu = Emu::new();
    emu.keypress(0, true).unwrap();
    assert!(emu.get_keys()[0]);
    emu.keypress(0, false).unwrap();
    assert!(!emu.get_keys()[0]);
}
