use chip8_core::{Chip8, Fault};

fn prog(words: &[u16]) -> Vec<u8> {
    let mut bytes: Vec<u8> = Vec::new();
    for w in words {
        bytes.push((w >> 8) as u8);
        bytes.push((w & 0xFF) as u8);
    }
    bytes
}

fn boot(words: &[u16]) -> Chip8 {
    let mut c = Chip8::new();
    c.load(&prog(words)).unwrap();
    c
}

fn run(c: &mut Chip8, steps: usize) {
    for _ in 0..steps {
        c.tick().unwrap();
    }
}

#[test]
fn three_step_scenario() {
    let mut c = boot(&[0x00E0, 0x6A02, 0xA200]);
    run(&mut c, 3);
    for p in c.get_display() {
        assert!(!p);
    }
    assert_eq!(c.get_v(10), 0x02);
    assert_eq!(c.get_i(), 0x200);
    assert_eq!(c.get_pc(), 0x206);
}

#[test]
fn return_on_empty_stack_is_fatal() {
    let mut c = boot(&[0x00EE]);
    assert_eq!(c.tick(), Err(Fault::StackUnderflow));
}

#[test]
fn sound_timer_emits_one_tone_off() {
    let mut c = boot(&[0x6101, 0xF118]);
    run(&mut c, 2);
    assert_eq!(c.get_st(), 1);
    assert!(c.tick_timers());
    assert_eq!(c.get_st(), 0);
    assert!(!c.tick_timers());
    assert_eq!(c.get_st(), 0);
}

#[test]
fn delay_timer_counts_down() {
    let mut c = boot(&[0x6205, 0xF215, 0xF307]);
    run(&mut c, 2);
    assert_eq!(c.get_dt(), 5);
    assert!(!c.tick_timers());
    assert_eq!(c.get_dt(), 4);
    run(&mut c, 1);
    assert_eq!(c.get_v(3), 4);
}

#[test]
fn add_register_with_carry() {
    let mut c = boot(&[0x60C8, 0x6164, 0x8014]);
    run(&mut c, 3);
    assert_eq!(c.get_v(0), 44);
    assert_eq!(c.get_v(15), 1);
}

#[test]
fn add_register_without_carry() {
    let mut c = boot(&[0x600A, 0x6114, 0x8014]);
    run(&mut c, 3);
    assert_eq!(c.get_v(0), 30);
    assert_eq!(c.get_v(15), 0);
}

#[test]
fn sub_register_no_borrow() {
    let mut c = boot(&[0x6032, 0x6114, 0x8015]);
    run(&mut c, 3);
    assert_eq!(c.get_v(0), 30);
    assert_eq!(c.get_v(15), 1);
}

#[test]
fn sub_register_with_borrow() {
    let mut c = boot(&[0x6014, 0x6132, 0x8015]);
    run(&mut c, 3);
    assert_eq!(c.get_v(0), 226);
    assert_eq!(c.get_v(15), 0);
}

#[test]
fn subn_register() {
    let mut c = boot(&[0x6014, 0x6132, 0x8017]);
    run(&mut c, 3);
    assert_eq!(c.get_v(0), 30);
    assert_eq!(c.get_v(15), 1);
}

#[test]
fn shift_right_keeps_low_bit() {
    let mut c = boot(&[0x6007, 0x8006]);
    run(&mut c, 2);
    assert_eq!(c.get_v(0), 3);
    assert_eq!(c.get_v(15), 1);
}

#[test]
fn shift_left_keeps_high_bit() {
    let mut c = boot(&[0x6081, 0x800E]);
    run(&mut c, 2);
    assert_eq!(c.get_v(0), 2);
    assert_eq!(c.get_v(15), 1);
}

#[test]
fn bitwise_or() {
    let mut c = boot(&[0x60F0, 0x610F, 0x8011]);
    run(&mut c, 3);
    assert_eq!(c.get_v(0), 0xFF);
}

#[test]
fn bitwise_and() {
    let mut c = boot(&[0x60F3, 0x613F, 0x8012]);
    run(&mut c, 3);
    assert_eq!(c.get_v(0), 0x33);
}

#[test]
fn bitwise_xor() {
    let mut c = boot(&[0x60FF, 0x610F, 0x8013]);
    run(&mut c, 3);
    assert_eq!(c.get_v(0), 0xF0);
}

#[test]
fn add_immediate_wraps_without_flag() {
    let mut c = boot(&[0x60FA, 0x7010]);
    run(&mut c, 2);
    assert_eq!(c.get_v(0), 10);
    assert_eq!(c.get_v(15), 0);
}

#[test]
fn copy_register() {
    let mut c = boot(&[0x6A02, 0x8BA0]);
    run(&mut c, 2);
    assert_eq!(c.get_v(11), 2);
}

#[test]
fn jump_sets_pc() {
    let mut c = boot(&[0x1234]);
    run(&mut c, 1);
    assert_eq!(c.get_pc(), 0x234);
}

#[test]
fn jump_with_offset_adds_v0() {
    let mut c = boot(&[0x6010, 0xB300]);
    run(&mut c, 2);
    assert_eq!(c.get_pc(), 0x310);
}

#[test]
fn call_then_return_restores_pc_and_sp() {
    let mut c = boot(&[0x2208, 0x0000, 0x0000, 0x0000, 0x00EE]);
    assert_eq!(c.get_sp(), 0);
    run(&mut c, 1);
    assert_eq!(c.get_pc(), 0x208);
    assert_eq!(c.get_sp(), 1);
    run(&mut c, 1);
    assert_eq!(c.get_pc(), 0x202);
    assert_eq!(c.get_sp(), 0);
}

#[test]
fn skip_equal_byte_taken() {
    let mut c = boot(&[0x6305, 0x3305]);
    run(&mut c, 2);
    assert_eq!(c.get_pc(), 0x206);
}

#[test]
fn skip_equal_byte_not_taken() {
    let mut c = boot(&[0x6305, 0x3304]);
    run(&mut c, 2);
    assert_eq!(c.get_pc(), 0x204);
}

#[test]
fn skip_not_equal_byte() {
    let mut c = boot(&[0x6305, 0x4304]);
    run(&mut c, 2);
    assert_eq!(c.get_pc(), 0x206);
}

#[test]
fn skip_equal_registers() {
    let mut c = boot(&[0x6305, 0x6405, 0x5340]);
    run(&mut c, 3);
    assert_eq!(c.get_pc(), 0x208);
}

#[test]
fn skip_not_equal_registers() {
    let mut c = boot(&[0x6305, 0x6406, 0x9340]);
    run(&mut c, 3);
    assert_eq!(c.get_pc(), 0x208);
}

#[test]
fn load_index_immediate() {
    let mut c = boot(&[0xA123]);
    run(&mut c, 1);
    assert_eq!(c.get_i(), 0x123);
}

#[test]
fn add_register_to_index() {
    let mut c = boot(&[0x6005, 0xA100, 0xF01E]);
    run(&mut c, 3);
    assert_eq!(c.get_i(), 0x105);
}

#[test]
fn font_glyph_address() {
    let mut c = boot(&[0x600A, 0xF029]);
    run(&mut c, 2);
    assert_eq!(c.get_i(), 50);
}

#[test]
fn bcd_digits_of_234() {
    let mut c = boot(&[0x60EA, 0xA300, 0xF033]);
    run(&mut c, 3);
    assert_eq!(c.get_ram(0x300), 2);
    assert_eq!(c.get_ram(0x301), 3);
    assert_eq!(c.get_ram(0x302), 4);
}

#[test]
fn bcd_digits_of_7() {
    let mut c = boot(&[0x6007, 0xA300, 0xF033]);
    run(&mut c, 3);
    assert_eq!(c.get_ram(0x300), 0);
    assert_eq!(c.get_ram(0x301), 0);
    assert_eq!(c.get_ram(0x302), 7);
}

#[test]
fn register_dump_and_load() {
    let mut c = boot(&[
        0x6001, 0x6102, 0x6203, 0xA300, 0xF255, 0x6000, 0x6100, 0x6200, 0xF265,
    ]);
    run(&mut c, 5);
    assert_eq!(c.get_ram(0x300), 1);
    assert_eq!(c.get_ram(0x301), 2);
    assert_eq!(c.get_ram(0x302), 3);
    assert_eq!(c.get_ram(0x303), 0);
    run(&mut c, 3);
    assert_eq!(c.get_v(0), 0);
    assert_eq!(c.get_v(1), 0);
    assert_eq!(c.get_v(2), 0);
    run(&mut c, 1);
    assert_eq!(c.get_v(0), 1);
    assert_eq!(c.get_v(1), 2);
    assert_eq!(c.get_v(2), 3);
    assert_eq!(c.get_v(3), 0);
}

#[test]
fn random_byte_is_masked() {
    let mut c = boot(&[0xC00F]);
    run(&mut c, 1);
    assert!(c.get_v(0) <= 15);
}

#[test]
fn random_with_zero_mask_is_zero() {
    let mut c = boot(&[0x6077, 0xC000]);
    run(&mut c, 2);
    assert_eq!(c.get_v(0), 0);
}

#[test]
fn skip_if_key_pressed() {
    let mut c = boot(&[0x6004, 0xE09E]);
    c.keypress(4, true);
    run(&mut c, 2);
    assert_eq!(c.get_pc(), 0x206);
}

#[test]
fn skip_if_key_not_pressed() {
    let mut c = boot(&[0x6004, 0xE0A1]);
    run(&mut c, 2);
    assert_eq!(c.get_pc(), 0x206);
}

#[test]
fn key_release_observed() {
    let mut c = boot(&[0x6004, 0xE09E]);
    c.keypress(4, true);
    c.keypress(4, false);
    run(&mut c, 2);
    assert_eq!(c.get_pc(), 0x204);
}

#[test]
fn wait_for_key_busy_waits() {
    let mut c = boot(&[0xF00A]);
    run(&mut c, 1);
    assert_eq!(c.get_pc(), 0x200);
    run(&mut c, 1);
    assert_eq!(c.get_pc(), 0x200);
    c.keypress(7, true);
    run(&mut c, 1);
    assert_eq!(c.get_pc(), 0x202);
    assert_eq!(c.get_v(0), 7);
}

#[test]
fn wait_for_key_takes_lowest_index() {
    let mut c = boot(&[0xF00A]);
    c.keypress(9, true);
    c.keypress(3, true);
    run(&mut c, 1);
    assert_eq!(c.get_v(0), 3);
}

#[test]
fn bad_key_index_is_fatal() {
    let mut c = boot(&[0x6014, 0xE09E]);
    run(&mut c, 1);
    assert_eq!(c.tick(), Err(Fault::BadKeyIndex));
}

#[test]
fn load_immediate_e0_is_not_a_clear() {
    // 0x6AE0 loads 0xE0 into VA; only 0x00E0 clears the screen
    let mut c = boot(&[0xA000, 0xD015, 0x6AE0]);
    run(&mut c, 3);
    assert_eq!(c.get_v(10), 0xE0);
    assert_eq!(c.get_pc(), 0x206);
    assert!(c.get_display()[0]);
}

#[test]
fn jump_to_address_ending_e0() {
    let mut c = boot(&[0x12E0]);
    run(&mut c, 1);
    assert_eq!(c.get_pc(), 0x2E0);
}

#[test]
fn call_to_address_ending_ee() {
    // 0x22EE calls 0x2EE; only 0x00EE returns
    let mut c = boot(&[0x22EE]);
    run(&mut c, 1);
    assert_eq!(c.get_pc(), 0x2EE);
    assert_eq!(c.get_sp(), 1);
}

#[test]
fn skip_equal_registers_bad_selector_is_fatal() {
    let mut c = boot(&[0x5341]);
    assert_eq!(c.tick(), Err(Fault::UnknownOpcode));
}

#[test]
fn skip_not_equal_registers_bad_selector_is_fatal() {
    let mut c = boot(&[0x9341]);
    assert_eq!(c.tick(), Err(Fault::UnknownOpcode));
}

#[test]
fn other_zero_family_opcode_is_fatal() {
    let mut c = boot(&[0x00E1]);
    assert_eq!(c.tick(), Err(Fault::UnknownOpcode));
}

#[test]
fn unknown_opcode_is_fatal() {
    let mut c = boot(&[0x0000]);
    assert_eq!(c.tick(), Err(Fault::UnknownOpcode));
}

#[test]
fn unknown_arithmetic_selector_is_fatal() {
    let mut c = boot(&[0x8008]);
    assert_eq!(c.tick(), Err(Fault::UnknownOpcode));
}

#[test]
fn stack_overflow_is_fatal() {
    let mut c = boot(&[0x2200]);
    for _ in 0..16 {
        c.tick().unwrap();
    }
    assert_eq!(c.get_sp(), 16);
    assert_eq!(c.tick(), Err(Fault::StackOverflow));
}

#[test]
fn fetch_outside_memory_is_fatal() {
    let mut c = boot(&[0x1FFF]);
    run(&mut c, 1);
    assert_eq!(c.tick(), Err(Fault::MemoryOutOfBounds));
}

#[test]
fn draw_past_memory_end_is_fatal() {
    let mut c = boot(&[0xAFFF, 0xD015]);
    run(&mut c, 1);
    assert_eq!(c.tick(), Err(Fault::MemoryOutOfBounds));
}

#[test]
fn bcd_past_memory_end_is_fatal() {
    let mut c = boot(&[0xAFFE, 0xF033]);
    run(&mut c, 1);
    assert_eq!(c.tick(), Err(Fault::MemoryOutOfBounds));
}

#[test]
fn register_dump_past_memory_end_is_fatal() {
    let mut c = boot(&[0xAFFE, 0xF255]);
    run(&mut c, 1);
    assert_eq!(c.tick(), Err(Fault::MemoryOutOfBounds));
}

#[test]
fn oversized_image_is_refused() {
    let mut c = Chip8::new();
    let too_big = vec![0u8; 4096 - 0x200 + 1];
    assert_eq!(c.load(&too_big), Err(Fault::ImageTooLarge));
    let just_fits = vec![0u8; 4096 - 0x200];
    assert_eq!(c.load(&just_fits), Ok(()));
}

#[test]
fn reset_restores_start_state() {
    let mut c = boot(&[0x6A02, 0xA300, 0x2208]);
    run(&mut c, 3);
    c.keypress(5, true);
    c.reset();
    assert_eq!(c.get_pc(), 0x200);
    assert_eq!(c.get_sp(), 0);
    assert_eq!(c.get_i(), 0);
    assert_eq!(c.get_v(10), 0);
    assert_eq!(c.get_ram(0x200), 0);
    assert_eq!(c.get_ram(0), 0xF0);
    for p in c.get_display() {
        assert!(!p);
    }
    let mut c2 = boot(&[0x6004, 0xE09E]);
    c2.keypress(4, true);
    c2.reset();
    c2.load(&prog(&[0x6004, 0xE09E])).unwrap();
    run(&mut c2, 2);
    assert_eq!(c2.get_pc(), 0x204);
}

#[test]
fn default_machine_matches_new() {
    let c: Chip8 = Default::default();
    assert_eq!(c.get_pc(), 0x200);
    assert_eq!(c.get_ram(0), 0xF0);
}
