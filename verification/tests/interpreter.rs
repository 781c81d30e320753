use chip8::machine::Chip8;

fn boot(prog: &[u8]) -> Chip8 {
    let mut c = Chip8::default();
    c.load_program(prog).unwrap();
    c
}

fn run(c: &mut Chip8, steps: usize) {
    let mut k = 0;
    while k < steps {
        c.cycle();
        k += 1;
    }
}

#[test]
fn fresh_machine_reset_state() {
    let c = Chip8::default();
    assert_eq!(c.pc(), 0x200);
    assert_eq!(c.index_reg(), 0);
    assert_eq!(c.stack_depth(), 0);
    assert_eq!(c.delay_timer(), 0);
    assert_eq!(c.sound_timer(), 0);
    let mut r = 0u8;
    while r < 16 {
        assert_eq!(c.reg(r), 0);
        r += 1;
    }
    // the font is burned in at 0x50..0xA0
    assert_eq!(c.read_mem(0x50), 0xF0);
    assert_eq!(c.read_mem(0x9F), 0x80);
    assert_eq!(c.read_mem(0x4F), 0x00);
    assert_eq!(c.read_mem(0xA0), 0x00);
}

#[test]
fn load_size_rejection_3585_fails() {
    let mut c = Chip8::default();
    let too_long = vec![0xAAu8; 3585];
    assert!(c.load_program(&too_long).is_err());
    // nothing was copied
    assert_eq!(c.read_mem(0x200), 0x00);
    assert_eq!(c.pc(), 0x200);
}

#[test]
fn load_size_3584_succeeds_with_last_byte() {
    let mut c = Chip8::default();
    let mut prog = vec![0x11u8; 3584];
    prog[3583] = 0x77;
    assert!(c.load_program(&prog).is_ok());
    assert_eq!(c.read_mem(0x200 + 3583), 0x77);
    assert_eq!(c.read_mem(0x200), 0x11);
}

#[test]
fn load_then_skip_if_equal_advances_by_four_past_load() {
    // ld V3, 0x2A ; se V3, 0x2A -- the skip is always taken
    let mut c = boot(&[0x63, 0x2A, 0x33, 0x2A]);
    run(&mut c, 2);
    assert_eq!(c.reg(3), 0x2A);
    assert_eq!(c.pc(), 0x206);
}

#[test]
fn skip_if_equal_not_taken_when_unequal() {
    let mut c = boot(&[0x63, 0x2A, 0x33, 0x2B]);
    run(&mut c, 2);
    assert_eq!(c.pc(), 0x204);
}

#[test]
fn add_with_carry_sets_vf_and_wraps() {
    // VF loaded arbitrary first, then Va=255, Vb=1, add
    let mut c = boot(&[0x6F, 0x37, 0x6A, 0xFF, 0x6B, 0x01, 0x8A, 0xB4]);
    run(&mut c, 4);
    assert_eq!(c.reg(0xA), 0);
    assert_eq!(c.reg(0xF), 1);
}

#[test]
fn add_without_carry_clears_vf() {
    let mut c = boot(&[0x6F, 0x37, 0x6A, 0x01, 0x6B, 0x01, 0x8A, 0xB4]);
    run(&mut c, 4);
    assert_eq!(c.reg(0xA), 2);
    assert_eq!(c.reg(0xF), 0);
}

#[test]
fn sub_with_borrow_wraps_and_clears_vf() {
    // Va=5, Vb=10, Va -= Vb
    let mut c = boot(&[0x6A, 0x05, 0x6B, 0x0A, 0x8A, 0xB5]);
    run(&mut c, 3);
    assert_eq!(c.reg(0xA), 251);
    assert_eq!(c.reg(0xF), 0);
}

#[test]
fn sub_without_borrow_sets_vf() {
    let mut c = boot(&[0x6A, 0x0A, 0x6B, 0x05, 0x8A, 0xB5]);
    run(&mut c, 3);
    assert_eq!(c.reg(0xA), 5);
    assert_eq!(c.reg(0xF), 1);
}

#[test]
fn reverse_sub_sets_vf_from_other_side() {
    // Va = Vb - Va: 10 - 4 = 6, no borrow
    let mut c = boot(&[0x6A, 0x04, 0x6B, 0x0A, 0x8A, 0xB7]);
    run(&mut c, 3);
    assert_eq!(c.reg(0xA), 6);
    assert_eq!(c.reg(0xF), 1);
}

#[test]
fn draw_twice_restores_display_and_flags_collision() {
    // draw font glyph 0 at (0, 0), twice
    let mut c = boot(&[0x6A, 0x00, 0x6B, 0x00, 0xA0, 0x50, 0xDA, 0xB5, 0xDA, 0xB5]);
    run(&mut c, 4);
    // first draw: pixels on, no collision
    assert!(c.get_px(0, 0));
    assert!(c.get_px(3, 0));
    assert!(!c.get_px(1, 1));
    assert_eq!(c.reg(0xF), 0);
    run(&mut c, 1);
    // second draw: back to the blank pre-draw display, collision reported
    let mut x = 0u16;
    while x < 64 {
        let mut y = 0u16;
        while y < 32 {
            assert!(!c.get_px(x, y));
            y += 1;
        }
        x += 1;
    }
    assert_eq!(c.reg(0xF), 1);
}

#[test]
fn draw_collision_only_when_pixels_overlap() {
    // glyph 0 at (0,0), then glyph 1 at (10,0): no shared pixel
    let mut c = boot(&[0x6A, 0x00, 0x6B, 0x00, 0xA0, 0x50, 0xDA, 0xB5, 0x6A, 0x0A, 0xA0, 0x55,
        0xDA, 0xB5]);
    run(&mut c, 7);
    assert_eq!(c.reg(0xF), 0);
}

#[test]
fn draw_clips_at_right_edge() {
    // a full 0xFF row drawn at x = 60 lights only columns 60..63
    let mut c = boot(&[0x6A, 0x3C, 0x6B, 0x00, 0xA2, 0x08, 0xDA, 0xB1, 0xFF]);
    run(&mut c, 4);
    assert!(c.get_px(60, 0));
    assert!(c.get_px(61, 0));
    assert!(c.get_px(62, 0));
    assert!(c.get_px(63, 0));
    // no horizontal wrap onto columns 0..3
    assert!(!c.get_px(0, 0));
    assert!(!c.get_px(1, 0));
    assert!(!c.get_px(2, 0));
    assert!(!c.get_px(3, 0));
}

#[test]
fn draw_wraps_vertically() {
    // a two-row sprite at y = 31 lands on rows 31 and 0
    let mut c = boot(&[0x6A, 0x00, 0x6B, 0x1F, 0xA2, 0x08, 0xDA, 0xB2, 0x80, 0x80]);
    run(&mut c, 4);
    assert!(c.get_px(0, 31));
    assert!(c.get_px(0, 0));
}

#[test]
fn clear_display_turns_every_pixel_off() {
    let mut c = boot(&[0x6A, 0x00, 0x6B, 0x00, 0xA0, 0x50, 0xDA, 0xB5, 0x00, 0xE0]);
    run(&mut c, 4);
    assert!(c.get_px(0, 0));
    run(&mut c, 1);
    let mut x = 0u16;
    while x < 64 {
        let mut y = 0u16;
        while y < 32 {
            assert!(!c.get_px(x, y));
            y += 1;
        }
        x += 1;
    }
}

#[test]
fn pixel_query_wraps_coordinates() {
    let mut c = boot(&[0x6A, 0x00, 0x6B, 0x00, 0xA0, 0x50, 0xDA, 0xB1]);
    run(&mut c, 4);
    assert!(c.get_px(0, 0));
    assert_eq!(c.get_px(64, 32), c.get_px(0, 0));
    assert_eq!(c.get_px(128, 64), c.get_px(0, 0));
}

#[test]
fn wait_for_key_rewinds_until_a_key_is_pressed() {
    let mut c = boot(&[0xF5, 0x0A]);
    run(&mut c, 3);
    assert_eq!(c.pc(), 0x200);
    c.set_key(7, true);
    run(&mut c, 1);
    assert_eq!(c.reg(5), 7);
    assert_eq!(c.pc(), 0x202);
}

#[test]
fn wait_for_key_takes_smallest_pressed_index() {
    let mut c = boot(&[0xF5, 0x0A]);
    c.set_key(9, true);
    c.set_key(4, true);
    run(&mut c, 1);
    assert_eq!(c.reg(5), 4);
}

#[test]
fn font_addressing_reaches_each_glyph() {
    // Va = 0xD; ld F, Va; then a block read of 5 bytes recovers glyph D
    let mut c = boot(&[0x6A, 0x0D, 0xFA, 0x29, 0xF4, 0x65]);
    run(&mut c, 2);
    assert_eq!(c.index_reg(), 0x50 + 5 * 0xD);
    run(&mut c, 1);
    assert_eq!(c.reg(0), 0xE0);
    assert_eq!(c.reg(1), 0x90);
    assert_eq!(c.reg(2), 0x90);
    assert_eq!(c.reg(3), 0x90);
    assert_eq!(c.reg(4), 0xE0);
    // the block read does not move the index register
    assert_eq!(c.index_reg(), 0x50 + 5 * 0xD);
}

#[test]
fn bcd_store_of_245() {
    let mut c = boot(&[0x6A, 0xF5, 0xA3, 0x00, 0xFA, 0x33]);
    run(&mut c, 3);
    assert_eq!(c.read_mem(0x300), 2);
    assert_eq!(c.read_mem(0x301), 4);
    assert_eq!(c.read_mem(0x302), 5);
}

#[test]
fn random_with_zero_mask_is_zero() {
    let mut c = boot(&[0xC5, 0x00]);
    run(&mut c, 1);
    assert_eq!(c.reg(5), 0);
}

#[test]
fn random_is_masked() {
    let mut c = boot(&[0xC5, 0x0F]);
    run(&mut c, 1);
    assert!(c.reg(5) <= 0x0F);
}

#[test]
fn jump_sets_pc() {
    let mut c = boot(&[0x1A, 0xBC]);
    run(&mut c, 1);
    assert_eq!(c.pc(), 0xABC);
}

#[test]
fn jump_with_offset_adds_v0() {
    let mut c = boot(&[0x60, 0x10, 0xB3, 0x00]);
    run(&mut c, 2);
    assert_eq!(c.pc(), 0x310);
}

#[test]
fn call_pushes_and_ret_pops() {
    let mut c = boot(&[0x22, 0x06, 0x00, 0x00, 0x00, 0x00, 0x00, 0xEE]);
    run(&mut c, 1);
    assert_eq!(c.pc(), 0x206);
    assert_eq!(c.stack_depth(), 1);
    run(&mut c, 1);
    assert_eq!(c.pc(), 0x202);
    assert_eq!(c.stack_depth(), 0);
}

#[test]
fn ret_on_empty_stack_is_ignored() {
    let mut c = boot(&[0x00, 0xEE]);
    run(&mut c, 1);
    assert_eq!(c.pc(), 0x202);
    assert_eq!(c.stack_depth(), 0);
}

#[test]
fn call_on_full_stack_is_ignored() {
    // seventeen calls, each to the next instruction
    let mut prog = Vec::new();
    let mut k = 0u16;
    while k < 17 {
        let target = 0x202 + 2 * k;
        prog.push(0x20 | (target >> 8) as u8);
        prog.push((target & 0xFF) as u8);
        k += 1;
    }
    let mut c = boot(&prog);
    run(&mut c, 16);
    assert_eq!(c.stack_depth(), 16);
    assert_eq!(c.pc(), 0x220);
    run(&mut c, 1);
    // the seventeenth call is ignored: no push, no jump
    assert_eq!(c.stack_depth(), 16);
    assert_eq!(c.pc(), 0x222);
}

#[test]
fn skip_register_equal_and_not_equal() {
    let mut c = boot(&[0x6A, 0x05, 0x6B, 0x05, 0x5A, 0xB0, 0x00, 0x00, 0x9A, 0xB0]);
    run(&mut c, 3);
    assert_eq!(c.pc(), 0x208); // 5xy0 taken
    run(&mut c, 1);
    assert_eq!(c.pc(), 0x20A); // 9xy0 not taken
}

#[test]
fn skip_if_not_equal_immediate() {
    let mut c = boot(&[0x6A, 0x05, 0x4A, 0x06]);
    run(&mut c, 2);
    assert_eq!(c.pc(), 0x206);
}

#[test]
fn alu_copy_or_and_xor() {
    let mut c = boot(&[0x6A, 0x0C, 0x6B, 0x0A, 0x8C, 0xA0, 0x8C, 0xB1, 0x8A, 0xB2, 0x6D, 0x0C,
        0x8D, 0xB3]);
    run(&mut c, 7);
    assert_eq!(c.reg(0xC), 0x0C | 0x0A);
    assert_eq!(c.reg(0xA), 0x0C & 0x0A);
    assert_eq!(c.reg(0xD), 0x0C ^ 0x0A);
}

#[test]
fn add_immediate_wraps_without_flag() {
    let mut c = boot(&[0x6A, 0xFF, 0x7A, 0x02]);
    run(&mut c, 2);
    assert_eq!(c.reg(0xA), 1);
    assert_eq!(c.reg(0xF), 0);
}

#[test]
fn shift_right_stores_other_register() {
    // Va = Vb >> 1, VF = low bit of Vb
    let mut c = boot(&[0x6B, 0x05, 0x8A, 0xB6]);
    run(&mut c, 2);
    assert_eq!(c.reg(0xA), 2);
    assert_eq!(c.reg(0xB), 5);
    assert_eq!(c.reg(0xF), 1);
}

#[test]
fn shift_left_stores_other_register() {
    // Va = Vb << 1, VF = high bit of Vb
    let mut c = boot(&[0x6B, 0x81, 0x8A, 0xBE]);
    run(&mut c, 2);
    assert_eq!(c.reg(0xA), 0x02);
    assert_eq!(c.reg(0xB), 0x81);
    assert_eq!(c.reg(0xF), 1);
}

#[test]
fn set_index_and_add_to_index_without_mask() {
    let mut c = boot(&[0xAF, 0xFF, 0x6A, 0x02, 0xFA, 0x1E]);
    run(&mut c, 3);
    // the index register is 16-bit arithmetic, not masked to 12 bits
    assert_eq!(c.index_reg(), 0x1001);
}

#[test]
fn store_and_load_register_block() {
    let mut c = boot(&[0x60, 0x11, 0x61, 0x22, 0x62, 0x33, 0xA3, 0x00, 0xF2, 0x55, 0x60, 0x00,
        0x61, 0x00, 0x62, 0x00, 0xF2, 0x65]);
    run(&mut c, 5);
    assert_eq!(c.read_mem(0x300), 0x11);
    assert_eq!(c.read_mem(0x301), 0x22);
    assert_eq!(c.read_mem(0x302), 0x33);
    assert_eq!(c.index_reg(), 0x300);
    run(&mut c, 4);
    assert_eq!(c.reg(0), 0x11);
    assert_eq!(c.reg(1), 0x22);
    assert_eq!(c.reg(2), 0x33);
    assert_eq!(c.index_reg(), 0x300);
}

#[test]
fn key_skip_pressed_and_not_pressed() {
    let mut c = boot(&[0x6A, 0x07, 0xEA, 0x9E, 0x00, 0x00, 0xEA, 0xA1]);
    c.set_key(7, true);
    run(&mut c, 2);
    assert_eq!(c.pc(), 0x206); // pressed: skip taken
    run(&mut c, 1);
    assert_eq!(c.pc(), 0x208); // still pressed: not-pressed skip not taken
}

#[test]
fn timers_load_and_tick_floor_at_zero() {
    let mut c = boot(&[0x6A, 0x02, 0xFA, 0x15, 0xFA, 0x18, 0xFA, 0x07]);
    run(&mut c, 3);
    assert_eq!(c.delay_timer(), 2);
    assert_eq!(c.sound_timer(), 2);
    c.tick_timers();
    assert_eq!(c.delay_timer(), 1);
    assert_eq!(c.sound_timer(), 1);
    c.tick_timers();
    c.tick_timers();
    c.tick_timers();
    assert_eq!(c.delay_timer(), 0);
    assert_eq!(c.sound_timer(), 0);
    run(&mut c, 1);
    assert_eq!(c.reg(0xA), 0); // ld Va, DT reads the ticked-down value
}

#[test]
fn unknown_opcode_is_a_noop() {
    let mut c = boot(&[0x01, 0x23, 0x8A, 0xB8, 0xEA, 0x00, 0xFA, 0xFF]);
    run(&mut c, 4);
    assert_eq!(c.pc(), 0x208);
    let mut r = 0u8;
    while r < 16 {
        assert_eq!(c.reg(r), 0);
        r += 1;
    }
}

#[test]
fn empty_program_loads_and_leaves_memory_untouched() {
    let mut c = Chip8::default();
    assert!(c.load_program(&[]).is_ok());
    assert_eq!(c.read_mem(0x200), 0x00);
    assert_eq!(c.read_mem(0x50), 0xF0);
}

#[test]
fn draw_with_zero_height_draws_nothing() {
    let mut c = boot(&[0x6A, 0x00, 0x6B, 0x00, 0xA0, 0x50, 0xDA, 0xB0]);
    run(&mut c, 4);
    let mut x = 0u16;
    while x < 64 {
        let mut y = 0u16;
        while y < 32 {
            assert!(!c.get_px(x, y));
            y += 1;
        }
        x += 1;
    }
    assert_eq!(c.reg(0xF), 0);
}

#[test]
fn bcd_store_of_single_digit() {
    let mut c = boot(&[0x6A, 0x07, 0xA3, 0x00, 0xFA, 0x33]);
    run(&mut c, 3);
    assert_eq!(c.read_mem(0x300), 0);
    assert_eq!(c.read_mem(0x301), 0);
    assert_eq!(c.read_mem(0x302), 7);
}
