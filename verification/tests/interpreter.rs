use chip8::chip8::Chip8;
use chip8::Chip8Error;

/// A machine with the font loaded and the given ROM at 0x200.
fn boot(rom: &[u8]) -> Chip8 {
    let mut c = Chip8::new();
    c.load_font();
    c.load_rom(rom.to_vec()).expect("ROM fits");
    c
}

/// Run `n` steps, requiring each to succeed.
fn run(c: &mut Chip8, n: usize) {
    let mut i: usize = 0;
    while i < n {
        c.call_operation(0).expect("step succeeds");
        i += 1;
    }
}

#[test]
fn new_machine_starts_at_program_base() {
    let c = Chip8::new();
    assert_eq!(c.get_program_counter(), 0x200);
    assert_eq!(c.get_stack_pointer(), 0);
    assert_eq!(c.get_index_register(), 0);
    assert_eq!(c.get_delay_timer(), 0);
    assert_eq!(c.get_sound_timer(), 0);
    assert!(!c.is_waiting_for_key());
    assert_eq!(c.ram.len(), 4096);
    for x in 0..16 {
        assert_eq!(c.get_register(x), 0);
    }
}

#[test]
fn font_is_loaded_at_0x50() {
    let mut c = Chip8::new();
    c.load_font();
    assert_eq!(c.ram[0x50], 0xF0); // first byte of glyph 0
    assert_eq!(c.ram[0x55], 0x20); // first byte of glyph 1
    assert_eq!(c.ram[0x9F], 0x80); // last byte of glyph F
    assert_eq!(c.ram[0x4F], 0); // untouched below
    assert_eq!(c.ram[0xA0], 0); // untouched above
}

#[test]
fn rom_bytes_land_at_0x200() {
    let c = boot(&[0xAB, 0xCD, 0xEF]);
    assert_eq!(c.ram[0x200], 0xAB);
    assert_eq!(c.ram[0x201], 0xCD);
    assert_eq!(c.ram[0x202], 0xEF);
    assert_eq!(c.ram[0x203], 0);
}

#[test]
fn oversized_rom_is_rejected() {
    let mut c = Chip8::new();
    let big = vec![0u8; 3585];
    assert_eq!(c.load_rom(big), Err(Chip8Error::MemoryOutOfRange));
    assert_eq!(c.ram[0x200], 0); // nothing written
    let exact = vec![0x77u8; 3584];
    assert_eq!(c.load_rom(exact), Ok(()));
    assert_eq!(c.ram[0xFFF], 0x77);
}

#[test]
fn load_immediate_retains_last_value() {
    // 6A05 then 6A07: only the last immediate is retained.
    let mut c = boot(&[0x6A, 0x05, 0x6A, 0x07]);
    run(&mut c, 1);
    assert_eq!(c.get_register(0xA), 0x05);
    run(&mut c, 1);
    assert_eq!(c.get_register(0xA), 0x07);
    assert_eq!(c.get_program_counter(), 0x204);
}

#[test]
fn add_immediate_wraps_without_flag() {
    // V[A] = 250, then 7A0A: 260 mod 256 = 4, flag register untouched.
    let mut c = boot(&[0x6A, 0xFA, 0x7A, 0x0A]);
    run(&mut c, 2);
    assert_eq!(c.get_register(0xA), 4);
    assert_eq!(c.get_register(0xF), 0);
}

#[test]
fn add_registers_sets_carry() {
    // V[A]=200, V[B]=100, 8AB4: 300 mod 256 = 44, carry 1.
    let mut c = boot(&[0x6A, 0xC8, 0x6B, 0x64, 0x8A, 0xB4]);
    run(&mut c, 3);
    assert_eq!(c.get_register(0xA), 44);
    assert_eq!(c.get_register(0xF), 1);
}

#[test]
fn add_registers_without_carry() {
    // V[A]=10, V[B]=10: sum 20, carry 0.
    let mut c = boot(&[0x6A, 0x0A, 0x6B, 0x0A, 0x8A, 0xB4]);
    run(&mut c, 3);
    assert_eq!(c.get_register(0xA), 20);
    assert_eq!(c.get_register(0xF), 0);
}

#[test]
fn sub_registers_no_borrow() {
    // V[A]=5, V[B]=3: difference 2, flag 1 (no borrow).
    let mut c = boot(&[0x6A, 0x05, 0x6B, 0x03, 0x8A, 0xB5]);
    run(&mut c, 3);
    assert_eq!(c.get_register(0xA), 2);
    assert_eq!(c.get_register(0xF), 1);
}

#[test]
fn sub_registers_with_borrow_wraps() {
    // V[A]=3, V[B]=5: wraps to 254, flag 0 (borrow).
    let mut c = boot(&[0x6A, 0x03, 0x6B, 0x05, 0x8A, 0xB5]);
    run(&mut c, 3);
    assert_eq!(c.get_register(0xA), 254);
    assert_eq!(c.get_register(0xF), 0);
}

#[test]
fn sub_reversed_registers() {
    // 8AB7: V[A] <- V[B] - V[A]; V[A]=3, V[B]=5 gives 2 with flag 1.
    let mut c = boot(&[0x6A, 0x03, 0x6B, 0x05, 0x8A, 0xB7]);
    run(&mut c, 3);
    assert_eq!(c.get_register(0xA), 2);
    assert_eq!(c.get_register(0xF), 1);
}

#[test]
fn bitwise_ops() {
    // OR, AND, XOR on V[A]=0b1100, V[B]=0b1010.
    let mut c = boot(&[0x6A, 0x0C, 0x6B, 0x0A, 0x8A, 0xB1]);
    run(&mut c, 3);
    assert_eq!(c.get_register(0xA), 0x0E);
    let mut c = boot(&[0x6A, 0x0C, 0x6B, 0x0A, 0x8A, 0xB2]);
    run(&mut c, 3);
    assert_eq!(c.get_register(0xA), 0x08);
    let mut c = boot(&[0x6A, 0x0C, 0x6B, 0x0A, 0x8A, 0xB3]);
    run(&mut c, 3);
    assert_eq!(c.get_register(0xA), 0x06);
}

#[test]
fn shift_right_keeps_displaced_bit() {
    // V[A]=5: shifts to 2, flag receives bit 0 = 1.
    let mut c = boot(&[0x6A, 0x05, 0x8A, 0x06]);
    run(&mut c, 2);
    assert_eq!(c.get_register(0xA), 2);
    assert_eq!(c.get_register(0xF), 1);
}

#[test]
fn shift_left_keeps_displaced_bit_normalized() {
    // V[A]=0x81: shifts to 0x02, flag receives bit 7 normalized to 1.
    let mut c = boot(&[0x6A, 0x81, 0x8A, 0x0E]);
    run(&mut c, 2);
    assert_eq!(c.get_register(0xA), 0x02);
    assert_eq!(c.get_register(0xF), 1);
}

#[test]
fn copy_register() {
    let mut c = boot(&[0x6B, 0x2A, 0x8A, 0xB0]);
    run(&mut c, 2);
    assert_eq!(c.get_register(0xA), 0x2A);
}

#[test]
fn skip_if_equal_immediate() {
    // 3A05 with V[A]=5 skips (pc += 4); with V[A]=6 does not.
    let mut c = boot(&[0x6A, 0x05, 0x3A, 0x05]);
    run(&mut c, 2);
    assert_eq!(c.get_program_counter(), 0x206);
    let mut c = boot(&[0x6A, 0x06, 0x3A, 0x05]);
    run(&mut c, 2);
    assert_eq!(c.get_program_counter(), 0x204);
}

#[test]
fn skip_if_not_equal_immediate() {
    let mut c = boot(&[0x6A, 0x06, 0x4A, 0x05]);
    run(&mut c, 2);
    assert_eq!(c.get_program_counter(), 0x206);
    let mut c = boot(&[0x6A, 0x05, 0x4A, 0x05]);
    run(&mut c, 2);
    assert_eq!(c.get_program_counter(), 0x204);
}

#[test]
fn skip_on_register_comparison() {
    // 5AB0 skips when equal; 9AB0 skips when different.
    let mut c = boot(&[0x6A, 0x07, 0x6B, 0x07, 0x5A, 0xB0]);
    run(&mut c, 3);
    assert_eq!(c.get_program_counter(), 0x208);
    let mut c = boot(&[0x6A, 0x07, 0x6B, 0x08, 0x9A, 0xB0]);
    run(&mut c, 3);
    assert_eq!(c.get_program_counter(), 0x208);
    let mut c = boot(&[0x6A, 0x07, 0x6B, 0x07, 0x9A, 0xB0]);
    run(&mut c, 3);
    assert_eq!(c.get_program_counter(), 0x206);
}

#[test]
fn jump_sets_program_counter() {
    let mut c = boot(&[0x13, 0x45]);
    run(&mut c, 1);
    assert_eq!(c.get_program_counter(), 0x345);
}

#[test]
fn jump_with_offset_adds_v0() {
    // B300 with V[0]=0x0A jumps to 0x30A.
    let mut c = boot(&[0x60, 0x0A, 0xB3, 0x00]);
    run(&mut c, 2);
    assert_eq!(c.get_program_counter(), 0x30A);
}

#[test]
fn call_and_return_round_trip() {
    // 2206 calls 0x206; 00EE there returns to 0x202.
    let mut c = boot(&[0x22, 0x06, 0x00, 0x00, 0x00, 0x00, 0x00, 0xEE]);
    run(&mut c, 1);
    assert_eq!(c.get_program_counter(), 0x206);
    assert_eq!(c.get_stack_pointer(), 1);
    run(&mut c, 1);
    assert_eq!(c.get_program_counter(), 0x202);
    assert_eq!(c.get_stack_pointer(), 0);
}

#[test]
fn return_on_empty_stack_reports_underflow() {
    let mut c = boot(&[0x00, 0xEE]);
    assert_eq!(c.call_operation(0), Err(Chip8Error::StackUnderflow));
    assert_eq!(c.get_program_counter(), 0x200); // untouched
}

#[test]
fn call_depth_beyond_16_reports_overflow() {
    // 2200 calls 0x200 itself, forever.
    let mut c = boot(&[0x22, 0x00]);
    for _ in 0..16 {
        assert_eq!(c.call_operation(0), Ok(()));
    }
    assert_eq!(c.get_stack_pointer(), 16);
    assert_eq!(c.call_operation(0), Err(Chip8Error::StackOverflow));
    assert_eq!(c.get_stack_pointer(), 16); // untouched
}

#[test]
fn set_index_register() {
    let mut c = boot(&[0xA3, 0x21]);
    run(&mut c, 1);
    assert_eq!(c.get_index_register(), 0x321);
}

#[test]
fn add_to_index_register() {
    let mut c = boot(&[0xA3, 0x00, 0x6A, 0x10, 0xFA, 0x1E]);
    run(&mut c, 3);
    assert_eq!(c.get_index_register(), 0x310);
}

#[test]
fn random_byte_is_masked() {
    // C00F: V[0] <- rand & 0x0F.
    let mut c = boot(&[0xC0, 0x0F]);
    assert_eq!(c.call_operation(0xAB), Ok(()));
    assert_eq!(c.get_register(0), 0x0B);
    assert_eq!(c.get_program_counter(), 0x202);
}

#[test]
fn font_index_points_at_glyph() {
    // FX29 with V[A]=3: I = 0x50 + 15.
    let mut c = boot(&[0x6A, 0x03, 0xFA, 0x29]);
    run(&mut c, 2);
    assert_eq!(c.get_index_register(), 0x50 + 15);
}

#[test]
fn bcd_decomposition() {
    // V[A]=251 stored at I=0x300 as 2, 5, 1.
    let mut c = boot(&[0x6A, 0xFB, 0xA3, 0x00, 0xFA, 0x33]);
    run(&mut c, 3);
    assert_eq!(c.ram[0x300], 2);
    assert_eq!(c.ram[0x301], 5);
    assert_eq!(c.ram[0x302], 1);
}

#[test]
fn store_and_load_registers_round_trip() {
    // Store V[0..=2] = 5, 7, 9 at 0x300; wipe them; load back.
    let mut c = boot(&[
        0x60, 0x05, 0x61, 0x07, 0x62, 0x09, 0xA3, 0x00, 0xF2, 0x55, 0x60, 0x00, 0x61, 0x00, 0x62,
        0x00, 0xF2, 0x65,
    ]);
    run(&mut c, 5);
    assert_eq!(c.ram[0x300], 5);
    assert_eq!(c.ram[0x301], 7);
    assert_eq!(c.ram[0x302], 9);
    assert_eq!(c.ram[0x303], 0); // exclusive above X
    run(&mut c, 3);
    assert_eq!(c.get_register(0), 0);
    run(&mut c, 1);
    assert_eq!(c.get_register(0), 5);
    assert_eq!(c.get_register(1), 7);
    assert_eq!(c.get_register(2), 9);
}

#[test]
fn delay_timer_set_and_read_back() {
    // FX15 sets the delay timer from V[0]; FX07 reads it into V[1].
    let mut c = boot(&[0x60, 0x0A, 0xF0, 0x15, 0xF1, 0x07]);
    run(&mut c, 3);
    assert_eq!(c.get_delay_timer(), 10);
    assert_eq!(c.get_register(1), 10);
}

#[test]
fn timers_tick_down_to_zero_and_stay() {
    let mut c = boot(&[0x60, 0x03, 0xF0, 0x15, 0xF0, 0x18]);
    run(&mut c, 3);
    assert_eq!(c.get_delay_timer(), 3);
    assert_eq!(c.get_sound_timer(), 3);
    for _ in 0..3 {
        c.tick_timers();
    }
    assert_eq!(c.get_delay_timer(), 0);
    assert_eq!(c.get_sound_timer(), 0);
    for _ in 0..5 {
        c.tick_timers();
        assert_eq!(c.get_delay_timer(), 0); // floored, never wraps
        assert_eq!(c.get_sound_timer(), 0);
    }
}

#[test]
fn skip_if_key_pressed() {
    // E09E with V[0]=5: skips only when key 5 is down.
    let mut c = boot(&[0x60, 0x05, 0xE0, 0x9E]);
    c.key_pressed(5);
    run(&mut c, 2);
    assert_eq!(c.get_program_counter(), 0x206);
    let mut c = boot(&[0x60, 0x05, 0xE0, 0x9E]);
    run(&mut c, 2);
    assert_eq!(c.get_program_counter(), 0x204);
}

#[test]
fn skip_if_key_not_pressed() {
    let mut c = boot(&[0x60, 0x05, 0xE0, 0xA1]);
    run(&mut c, 2);
    assert_eq!(c.get_program_counter(), 0x206);
    let mut c = boot(&[0x60, 0x05, 0xE0, 0xA1]);
    c.key_pressed(5);
    run(&mut c, 2);
    assert_eq!(c.get_program_counter(), 0x204);
}

#[test]
fn released_key_counts_as_up() {
    let mut c = boot(&[0x60, 0x05, 0xE0, 0x9E]);
    c.key_pressed(5);
    c.key_released(5);
    run(&mut c, 2);
    assert_eq!(c.get_program_counter(), 0x204);
}

#[test]
fn wait_for_key_blocks_until_press() {
    // F10A waits; the next instruction must not run until a key arrives.
    let mut c = boot(&[0xF1, 0x0A, 0x6A, 0x55]);
    run(&mut c, 1);
    assert!(c.is_waiting_for_key());
    assert_eq!(c.get_program_counter(), 0x200);
    // Steps without a key change nothing.
    run(&mut c, 3);
    assert!(c.is_waiting_for_key());
    assert_eq!(c.get_program_counter(), 0x200);
    assert_eq!(c.get_register(0xA), 0);
    // A key press is captured by the next step.
    c.key_pressed(7);
    run(&mut c, 1);
    assert!(!c.is_waiting_for_key());
    assert_eq!(c.get_register(1), 7);
    assert_eq!(c.get_program_counter(), 0x202);
    // Normal stepping resumes.
    run(&mut c, 1);
    assert_eq!(c.get_register(0xA), 0x55);
}

#[test]
fn lowest_pressed_key_is_captured() {
    let mut c = boot(&[0xF1, 0x0A]);
    run(&mut c, 1);
    c.key_pressed(9);
    c.key_pressed(4);
    run(&mut c, 1);
    assert_eq!(c.get_register(1), 4);
}

#[test]
fn flag_register_as_operand_is_invalid_and_skipped() {
    // 6F05 names V[F] as a general operand: reported, pc still advances.
    let mut c = boot(&[0x6F, 0x05, 0x6A, 0x01]);
    assert_eq!(c.call_operation(0), Err(Chip8Error::InvalidRegisterOperand));
    assert_eq!(c.get_register(0xF), 0);
    assert_eq!(c.get_program_counter(), 0x202);
    // Execution can continue.
    run(&mut c, 1);
    assert_eq!(c.get_register(0xA), 1);
}

#[test]
fn flag_register_in_alu_family_is_invalid() {
    let mut c = boot(&[0x8A, 0xF4]);
    assert_eq!(c.call_operation(0), Err(Chip8Error::InvalidRegisterOperand));
    assert_eq!(c.get_program_counter(), 0x202);
    let mut c = boot(&[0x8F, 0xA4]);
    assert_eq!(c.call_operation(0), Err(Chip8Error::InvalidRegisterOperand));
    assert_eq!(c.get_program_counter(), 0x202);
}

#[test]
fn unknown_opcode_is_reported_and_skipped() {
    let mut c = boot(&[0x00, 0x00, 0x8A, 0xB9, 0xE0, 0x00, 0xF0, 0x99]);
    assert_eq!(c.call_operation(0), Err(Chip8Error::UnknownOpcode));
    assert_eq!(c.get_program_counter(), 0x202);
    assert_eq!(c.call_operation(0), Err(Chip8Error::UnknownOpcode));
    assert_eq!(c.get_program_counter(), 0x204);
    assert_eq!(c.call_operation(0), Err(Chip8Error::UnknownOpcode));
    assert_eq!(c.get_program_counter(), 0x206);
    assert_eq!(c.call_operation(0), Err(Chip8Error::UnknownOpcode));
    assert_eq!(c.get_program_counter(), 0x208);
}

#[test]
fn unfetchable_program_counter_is_reported() {
    // Jump to 0xFFF: the second instruction byte would lie outside memory.
    let mut c = boot(&[0x1F, 0xFF]);
    run(&mut c, 1);
    assert_eq!(c.call_operation(0), Err(Chip8Error::MemoryOutOfRange));
    assert_eq!(c.get_program_counter(), 0xFFF); // untouched
}

#[test]
fn bcd_near_end_of_memory_is_refused() {
    // I = 0xFFE: the three digits would reach past the last byte.
    let mut c = boot(&[0xAF, 0xFE, 0x60, 0x07, 0xF0, 0x33]);
    run(&mut c, 2);
    assert_eq!(c.call_operation(0), Err(Chip8Error::MemoryOutOfRange));
    assert_eq!(c.ram[0xFFE], 0); // not executed
    assert_eq!(c.get_program_counter(), 0x204); // untouched
}

#[test]
fn register_store_near_end_of_memory_is_refused() {
    // I = 0xFFE, X = 2: three bytes would reach past the last byte.
    let mut c = boot(&[0xAF, 0xFE, 0xF2, 0x55]);
    run(&mut c, 1);
    assert_eq!(c.call_operation(0), Err(Chip8Error::MemoryOutOfRange));
}

#[test]
fn scenario_arithmetic_then_clear() {
    // 6A05 6B03 8AB4 00E0: after 4 steps V[A]=8, V[B]=3, V[F]=0,
    // display cleared and dirty.
    let mut c = boot(&[0x6A, 0x05, 0x6B, 0x03, 0x8A, 0xB4, 0x00, 0xE0]);
    run(&mut c, 4);
    assert_eq!(c.get_register(0xA), 8);
    assert_eq!(c.get_register(0xB), 3);
    assert_eq!(c.get_register(0xF), 0);
    assert!(c.video.is_dirty());
    let grid = c.video.snapshot();
    assert_eq!(grid.len(), 64 * 32);
    for px in grid {
        assert!(!px);
    }
}

#[test]
fn scenario_draw_one_row_then_redraw_collides() {
    // I <- sprite byte 0xF0; D011 draws one row of 4 set pixels at
    // (V[0], V[1]) = (0, 0); V[F] = 0 on the first draw, 1 when the same
    // draw is repeated, which also erases the row.
    let mut c = boot(&[0xA2, 0x06, 0xD0, 0x11, 0x12, 0x02, 0xF0]);
    run(&mut c, 2);
    assert_eq!(c.get_register(0xF), 0);
    for x in 0..4 {
        assert!(c.video.get_pixel(x, 0));
    }
    assert!(!c.video.get_pixel(4, 0));
    assert!(c.video.is_dirty());
    run(&mut c, 2); // jump back, draw again
    assert_eq!(c.get_register(0xF), 1);
    for x in 0..8 {
        assert!(!c.video.get_pixel(x, 0));
    }
}

#[test]
fn draw_wraps_at_the_edges() {
    // V[0]=62, V[1]=31: the row wraps horizontally, the position vertically
    // stays on the last row.
    let mut c = boot(&[0x60, 0x3E, 0x61, 0x1F, 0xA2, 0x08, 0xD0, 0x11, 0xF0]);
    run(&mut c, 4);
    assert!(c.video.get_pixel(62, 31));
    assert!(c.video.get_pixel(63, 31));
    assert!(c.video.get_pixel(0, 31));
    assert!(c.video.get_pixel(1, 31));
    assert!(!c.video.get_pixel(2, 31));
    assert_eq!(c.get_register(0xF), 0);
}

#[test]
fn draw_sprite_from_font_glyph() {
    // Draw the glyph for 0: FX29 then D005 (5 rows) at (0, 0).
    let mut c = boot(&[0x6A, 0x00, 0xFA, 0x29, 0x60, 0x00, 0x61, 0x00, 0xD0, 0x15]);
    run(&mut c, 5);
    // Glyph 0 is 0xF0,0x90,0x90,0x90,0xF0: a hollow box 4 wide, 5 tall.
    assert!(c.video.get_pixel(0, 0));
    assert!(c.video.get_pixel(3, 0));
    assert!(c.video.get_pixel(0, 2));
    assert!(!c.video.get_pixel(1, 2));
    assert!(!c.video.get_pixel(2, 2));
    assert!(c.video.get_pixel(3, 2));
    assert!(c.video.get_pixel(0, 4));
    assert!(c.video.get_pixel(3, 4));
}
