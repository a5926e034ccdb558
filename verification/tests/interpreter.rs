use chip8::cpu::{Cpu, Fault, LoadError};

const NO_KEYS: [bool; 16] = [false; 16];

fn load_program(bytes: &[u8]) -> Cpu {
    let mut cpu = Cpu::new();
    let data: Vec<u8> = bytes.to_vec();
    assert!(cpu.load(&data).is_ok());
    cpu
}

fn run_ticks(cpu: &mut Cpu, n: usize) {
    for _ in 0..n {
        assert!(cpu.tick(NO_KEYS).is_ok());
    }
}

#[test]
fn new_machine_initial_state() {
    let cpu = Cpu::new();
    assert_eq!(cpu.pc(), 0x200);
    assert_eq!(cpu.index_reg(), 0);
    assert_eq!(cpu.delay_timer(), 0);
    assert_eq!(cpu.sound_timer(), 0);
    assert_eq!(cpu.stack_depth(), 0);
    assert!(!cpu.waiting());
    // the glyph table sits at the bottom of memory
    assert_eq!(cpu.mem(0), 0xF0);
    assert_eq!(cpu.mem(79), 0x80);
    // program space is blank
    assert_eq!(cpu.mem(0x200), 0);
    for x in 0..16 {
        assert_eq!(cpu.reg(x), 0);
    }
    assert_eq!(cpu.pixel(0, 0), 0);
    assert_eq!(cpu.pixel(63, 31), 0);
}

#[test]
fn load_copies_image_at_0x200() {
    let cpu = load_program(&[0xAB, 0xCD, 0xEF]);
    assert_eq!(cpu.mem(0x200), 0xAB);
    assert_eq!(cpu.mem(0x201), 0xCD);
    assert_eq!(cpu.mem(0x202), 0xEF);
    assert_eq!(cpu.mem(0x203), 0x00);
}

#[test]
fn load_accepts_largest_image() {
    let mut cpu = Cpu::new();
    let mut data: Vec<u8> = vec![0x11; 3584];
    data[3583] = 0x77;
    assert!(cpu.load(&data).is_ok());
    assert_eq!(cpu.mem(0xFFF), 0x77);
}

#[test]
fn load_rejects_oversize_image() {
    let mut cpu = Cpu::new();
    let data: Vec<u8> = vec![0x11; 3585];
    assert_eq!(cpu.load(&data), Err(LoadError::ProgramTooLarge));
    // the machine is untouched
    assert_eq!(cpu.mem(0x200), 0);
    assert_eq!(cpu.mem(0xFFF), 0);
}

#[test]
fn add_registers_sets_carry() {
    // V0 = 250; V1 = 10; V0 += V1
    let mut cpu = load_program(&[0x60, 250, 0x61, 10, 0x80, 0x14]);
    run_ticks(&mut cpu, 3);
    assert_eq!(cpu.reg(0), 4);
    assert_eq!(cpu.reg(0xF), 1);
    assert_eq!(cpu.pc(), 0x206);
}

#[test]
fn add_registers_without_carry() {
    let mut cpu = load_program(&[0x60, 1, 0x61, 1, 0x80, 0x14]);
    run_ticks(&mut cpu, 3);
    assert_eq!(cpu.reg(0), 2);
    assert_eq!(cpu.reg(0xF), 0);
}

#[test]
fn add_immediate_wraps_without_flag() {
    let mut cpu = load_program(&[0x60, 255, 0x70, 0x01]);
    run_ticks(&mut cpu, 2);
    assert_eq!(cpu.reg(0), 0);
    assert_eq!(cpu.reg(0xF), 0);
}

#[test]
fn subtract_without_borrow() {
    // V0 = 5; V1 = 3; V0 -= V1
    let mut cpu = load_program(&[0x60, 5, 0x61, 3, 0x80, 0x15]);
    run_ticks(&mut cpu, 3);
    assert_eq!(cpu.reg(0), 2);
    assert_eq!(cpu.reg(0xF), 1);
}

#[test]
fn subtract_with_borrow_wraps() {
    let mut cpu = load_program(&[0x60, 3, 0x61, 5, 0x80, 0x15]);
    run_ticks(&mut cpu, 3);
    assert_eq!(cpu.reg(0), 254);
    assert_eq!(cpu.reg(0xF), 0);
}

#[test]
fn subtract_reverse() {
    // V0 = 3; V1 = 5; V0 = V1 - V0
    let mut cpu = load_program(&[0x60, 3, 0x61, 5, 0x80, 0x17]);
    run_ticks(&mut cpu, 3);
    assert_eq!(cpu.reg(0), 2);
    assert_eq!(cpu.reg(0xF), 1);
}

#[test]
fn shift_right_keeps_low_bit() {
    let mut cpu = load_program(&[0x60, 5, 0x80, 0x06]);
    run_ticks(&mut cpu, 2);
    assert_eq!(cpu.reg(0), 2);
    assert_eq!(cpu.reg(0xF), 1);
}

#[test]
fn shift_left_keeps_high_bit() {
    let mut cpu = load_program(&[0x60, 0x81, 0x80, 0x0E]);
    run_ticks(&mut cpu, 2);
    assert_eq!(cpu.reg(0), 0x02);
    assert_eq!(cpu.reg(0xF), 1);
}

#[test]
fn bitwise_or_and_xor() {
    let mut cpu = load_program(&[0x60, 0xF0, 0x61, 0x3C, 0x80, 0x11]);
    run_ticks(&mut cpu, 3);
    assert_eq!(cpu.reg(0), 0xFC);

    let mut cpu = load_program(&[0x60, 0xF0, 0x61, 0x3C, 0x80, 0x12]);
    run_ticks(&mut cpu, 3);
    assert_eq!(cpu.reg(0), 0x30);

    let mut cpu = load_program(&[0x60, 0xF0, 0x61, 0x3C, 0x80, 0x13]);
    run_ticks(&mut cpu, 3);
    assert_eq!(cpu.reg(0), 0xCC);
}

#[test]
fn skip_equal_immediate() {
    // V0 == 0, so SE V0, 0 skips: PC moves by 4
    let mut cpu = load_program(&[0x30, 0x00]);
    run_ticks(&mut cpu, 1);
    assert_eq!(cpu.pc(), 0x204);
}

#[test]
fn skip_not_equal_immediate_not_taken() {
    let mut cpu = load_program(&[0x40, 0x00]);
    run_ticks(&mut cpu, 1);
    assert_eq!(cpu.pc(), 0x202);
}

#[test]
fn skip_register_compare() {
    // V0 == V1 == 0: SEV skips, SNEV does not
    let mut cpu = load_program(&[0x50, 0x10]);
    run_ticks(&mut cpu, 1);
    assert_eq!(cpu.pc(), 0x204);

    let mut cpu = load_program(&[0x90, 0x10]);
    run_ticks(&mut cpu, 1);
    assert_eq!(cpu.pc(), 0x202);
}

#[test]
fn skip_if_key_pressed() {
    let mut cpu = load_program(&[0xE0, 0x9E]);
    let mut keys = [false; 16];
    keys[0] = true;
    assert!(cpu.tick(keys).is_ok());
    assert_eq!(cpu.pc(), 0x204);

    let mut cpu = load_program(&[0xE0, 0x9E]);
    assert!(cpu.tick(NO_KEYS).is_ok());
    assert_eq!(cpu.pc(), 0x202);
}

#[test]
fn skip_if_key_not_pressed() {
    let mut cpu = load_program(&[0xE0, 0xA1]);
    assert!(cpu.tick(NO_KEYS).is_ok());
    assert_eq!(cpu.pc(), 0x204);
}

#[test]
fn key_skip_with_wild_register_faults() {
    // V0 = 20 names no key: an out-of-bounds index
    let mut cpu = load_program(&[0x60, 20, 0xE0, 0x9E]);
    run_ticks(&mut cpu, 1);
    let res = cpu.tick(NO_KEYS);
    assert!(matches!(res, Err(Fault::MemoryFault)));
}

#[test]
fn jump_sets_pc() {
    let mut cpu = load_program(&[0x12, 0x06]);
    run_ticks(&mut cpu, 1);
    assert_eq!(cpu.pc(), 0x206);
}

#[test]
fn jump_with_offset() {
    let mut cpu = load_program(&[0x60, 4, 0xB2, 0x06]);
    run_ticks(&mut cpu, 2);
    assert_eq!(cpu.pc(), 0x20A);
}

#[test]
fn call_and_return() {
    // 0x200: CALL 0x204; 0x202: LD V0, 9; 0x204: RET
    let mut cpu = load_program(&[0x22, 0x04, 0x60, 0x09, 0x00, 0xEE]);
    run_ticks(&mut cpu, 1);
    assert_eq!(cpu.pc(), 0x204);
    assert_eq!(cpu.stack_depth(), 1);
    run_ticks(&mut cpu, 1);
    assert_eq!(cpu.pc(), 0x202);
    assert_eq!(cpu.stack_depth(), 0);
    run_ticks(&mut cpu, 1);
    assert_eq!(cpu.reg(0), 9);
}

#[test]
fn return_with_empty_stack_faults() {
    let mut cpu = load_program(&[0x00, 0xEE]);
    let res = cpu.tick(NO_KEYS);
    assert!(matches!(res, Err(Fault::StackUnderflow)));
    assert_eq!(cpu.pc(), 0x200);
}

#[test]
fn seventeenth_nested_call_faults() {
    // CALL 0x200 forever: sixteen calls fit, the next overflows
    let mut cpu = load_program(&[0x22, 0x00]);
    run_ticks(&mut cpu, 16);
    assert_eq!(cpu.stack_depth(), 16);
    let res = cpu.tick(NO_KEYS);
    assert!(matches!(res, Err(Fault::StackOverflow)));
    assert_eq!(cpu.stack_depth(), 16);
}

#[test]
fn fetch_past_memory_faults() {
    let mut cpu = load_program(&[0x1F, 0xFF]);
    run_ticks(&mut cpu, 1);
    assert_eq!(cpu.pc(), 0xFFF);
    let res = cpu.tick(NO_KEYS);
    assert!(matches!(res, Err(Fault::MemoryFault)));
}

#[test]
fn bcd_write_past_memory_faults() {
    let mut cpu = load_program(&[0xAF, 0xFE, 0xF0, 0x33]);
    run_ticks(&mut cpu, 1);
    let res = cpu.tick(NO_KEYS);
    assert!(matches!(res, Err(Fault::MemoryFault)));
}

#[test]
fn load_index_register() {
    let mut cpu = load_program(&[0xA1, 0x23]);
    run_ticks(&mut cpu, 1);
    assert_eq!(cpu.index_reg(), 0x123);
}

#[test]
fn add_to_index_flags_above_threshold() {
    let mut cpu = load_program(&[0xAF, 0x00, 0x60, 0x01, 0xF0, 0x1E]);
    run_ticks(&mut cpu, 3);
    assert_eq!(cpu.index_reg(), 0xF01);
    assert_eq!(cpu.reg(0xF), 1);

    let mut cpu = load_program(&[0xA1, 0x00, 0x60, 0x01, 0xF0, 0x1E]);
    run_ticks(&mut cpu, 3);
    assert_eq!(cpu.index_reg(), 0x101);
    assert_eq!(cpu.reg(0xF), 0);
}

#[test]
fn font_address_is_five_per_glyph() {
    let mut cpu = load_program(&[0x60, 0x0A, 0xF0, 0x29]);
    run_ticks(&mut cpu, 2);
    assert_eq!(cpu.index_reg(), 50);
}

#[test]
fn bcd_store_digits() {
    // V0 = 234; I = 0x300; BCD
    let mut cpu = load_program(&[0x60, 234, 0xA3, 0x00, 0xF0, 0x33]);
    run_ticks(&mut cpu, 3);
    assert_eq!(cpu.mem(0x300), 2);
    assert_eq!(cpu.mem(0x301), 3);
    assert_eq!(cpu.mem(0x302), 4);
}

#[test]
fn store_and_load_registers_round_trip() {
    let mut cpu = load_program(&[
        0x60, 1, 0x61, 2, 0x62, 3, // V0..V2 = 1, 2, 3
        0xA3, 0x00, // I = 0x300
        0xF2, 0x55, // store V0..V2
        0x60, 0, 0x61, 0, 0x62, 0, // clear them
        0xF2, 0x65, // load V0..V2 back
    ]);
    run_ticks(&mut cpu, 5);
    assert_eq!(cpu.mem(0x300), 1);
    assert_eq!(cpu.mem(0x301), 2);
    assert_eq!(cpu.mem(0x302), 3);
    run_ticks(&mut cpu, 4);
    assert_eq!(cpu.reg(0), 1);
    assert_eq!(cpu.reg(1), 2);
    assert_eq!(cpu.reg(2), 3);
    assert_eq!(cpu.reg(3), 0);
}

#[test]
fn random_masked_by_zero_is_zero() {
    let mut cpu = load_program(&[0x60, 7, 0xC0, 0x00]);
    run_ticks(&mut cpu, 2);
    assert_eq!(cpu.reg(0), 0);
}

#[test]
fn random_respects_mask() {
    let mut cpu = load_program(&[0xC0, 0x0F]);
    run_ticks(&mut cpu, 1);
    assert!(cpu.reg(0) <= 0x0F);
}

#[test]
fn unknown_opcode_is_a_no_op() {
    let mut cpu = load_program(&[0x00, 0x00]);
    let out = cpu.tick(NO_KEYS).unwrap();
    assert_eq!(cpu.pc(), 0x202);
    assert!(out.screen.is_none());
    assert!(!out.sound);
    for x in 0..16 {
        assert_eq!(cpu.reg(x), 0);
    }
}

#[test]
fn draw_sets_pixels_and_reports_output() {
    // draw glyph 0's first row (0xF0) at (0, 0)
    let mut cpu = load_program(&[0xD0, 0x11]);
    let out = cpu.tick(NO_KEYS).unwrap();
    let screen = out.screen.expect("draw must publish the buffer");
    assert_eq!(screen.len(), 2048);
    assert_eq!(cpu.pixel(0, 0), 1);
    assert_eq!(cpu.pixel(3, 0), 1);
    assert_eq!(cpu.pixel(4, 0), 0);
    assert_eq!(screen[0], 1);
    assert_eq!(cpu.reg(0xF), 0);
}

#[test]
fn draw_same_sprite_twice_clears_and_collides() {
    let mut cpu = load_program(&[0xD0, 0x11, 0xD0, 0x11]);
    run_ticks(&mut cpu, 1);
    assert_eq!(cpu.reg(0xF), 0);
    assert_eq!(cpu.pixel(0, 0), 1);
    run_ticks(&mut cpu, 1);
    assert_eq!(cpu.reg(0xF), 1);
    for px in 0..8 {
        assert_eq!(cpu.pixel(px, 0), 0);
    }
}

#[test]
fn draw_wraps_at_both_edges() {
    // V0 = 63, V1 = 31, sprite byte 0xFF at 0x208
    let mut cpu = load_program(&[0x60, 63, 0x61, 31, 0xA2, 0x08, 0xD0, 0x11, 0xFF]);
    run_ticks(&mut cpu, 4);
    assert_eq!(cpu.reg(0xF), 0);
    assert_eq!(cpu.pixel(63, 31), 1);
    assert_eq!(cpu.pixel(0, 31), 1);
    assert_eq!(cpu.pixel(6, 31), 1);
    assert_eq!(cpu.pixel(7, 31), 0);
    assert_eq!(cpu.pixel(63, 0), 0);
}

#[test]
fn clear_blanks_screen_and_publishes() {
    let mut cpu = load_program(&[0xD0, 0x11, 0x00, 0xE0]);
    run_ticks(&mut cpu, 1);
    assert_eq!(cpu.pixel(0, 0), 1);
    let out = cpu.tick(NO_KEYS).unwrap();
    let screen = out.screen.expect("clear must publish the buffer");
    for j in 0..2048 {
        assert_eq!(screen[j], 0);
    }
    assert_eq!(cpu.pixel(0, 0), 0);
}

#[test]
fn no_draw_publishes_no_screen() {
    let mut cpu = load_program(&[0x60, 1]);
    let out = cpu.tick(NO_KEYS).unwrap();
    assert!(out.screen.is_none());
}

#[test]
fn wait_for_key_round_trip() {
    // wait into V5, then LD V1, 7
    let mut cpu = load_program(&[0xF5, 0x0A, 0x61, 0x07]);
    run_ticks(&mut cpu, 1);
    assert!(cpu.waiting());
    assert_eq!(cpu.pc(), 0x202);
    // no keys: the program counter stands still
    run_ticks(&mut cpu, 3);
    assert_eq!(cpu.pc(), 0x202);
    assert!(cpu.waiting());
    // key 5 arrives
    let mut keys = [false; 16];
    keys[5] = true;
    assert!(cpu.tick(keys).is_ok());
    assert!(!cpu.waiting());
    assert_eq!(cpu.reg(5), 5);
    assert_eq!(cpu.pc(), 0x202);
    // the following tick fetches again
    run_ticks(&mut cpu, 1);
    assert_eq!(cpu.pc(), 0x204);
    assert_eq!(cpu.reg(1), 7);
}

#[test]
fn wait_takes_lowest_pressed_key() {
    let mut cpu = load_program(&[0xF0, 0x0A]);
    run_ticks(&mut cpu, 1);
    let mut keys = [false; 16];
    keys[7] = true;
    keys[3] = true;
    assert!(cpu.tick(keys).is_ok());
    assert_eq!(cpu.reg(0), 3);
}

#[test]
fn timers_floor_at_zero() {
    let mut cpu = Cpu::new();
    for _ in 0..5 {
        assert!(cpu.tick(NO_KEYS).is_ok());
        assert_eq!(cpu.delay_timer(), 0);
        assert_eq!(cpu.sound_timer(), 0);
    }
}

#[test]
fn delay_timer_counts_down() {
    // V0 = 3; DT = V0; then read DT into V1
    let mut cpu = load_program(&[0x60, 3, 0xF0, 0x15, 0xF1, 0x07]);
    run_ticks(&mut cpu, 2);
    assert_eq!(cpu.delay_timer(), 3);
    run_ticks(&mut cpu, 1);
    // the third tick decrements before reading
    assert_eq!(cpu.delay_timer(), 2);
    assert_eq!(cpu.reg(1), 2);
    run_ticks(&mut cpu, 4);
    assert_eq!(cpu.delay_timer(), 0);
}

#[test]
fn sound_timer_drives_output() {
    let mut cpu = load_program(&[0x60, 2, 0xF0, 0x18, 0x00, 0x00, 0x00, 0x00]);
    let out = cpu.tick(NO_KEYS).unwrap();
    assert!(!out.sound);
    let out = cpu.tick(NO_KEYS).unwrap();
    assert!(out.sound);
    let out = cpu.tick(NO_KEYS).unwrap();
    assert!(out.sound);
    let out = cpu.tick(NO_KEYS).unwrap();
    assert!(!out.sound);
}

#[test]
fn load_register_from_delay_timer_and_back() {
    // LD V0, 60; DT = V0; V2 = DT
    let mut cpu = load_program(&[0x60, 60, 0xF0, 0x15, 0xF2, 0x07]);
    run_ticks(&mut cpu, 3);
    assert_eq!(cpu.reg(2), 59);
}

#[test]
fn register_copy() {
    let mut cpu = load_program(&[0x60, 0x2A, 0x81, 0x00]);
    run_ticks(&mut cpu, 2);
    assert_eq!(cpu.reg(1), 0x2A);
}
