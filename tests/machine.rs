use chip8::config::{create_key_map, CHIP8_EXEC_PERIOD_NS, CHIP8_TIMER_PERIOD_NS};
use chip8::{decode, Cadence, Chip8, Chip8Error, Instruction, Keyboard, Registers, Screen};

fn machine_with(program: &[u8]) -> Chip8 {
    let mut m = Chip8::new();
    m.load(program).unwrap();
    m
}

fn run_steps(m: &mut Chip8, n: usize) {
    for _ in 0..n {
        m.step(0).unwrap();
    }
}

fn pixel_on(screen: &Screen, x: usize, y: usize) -> bool {
    let colors = screen.pixel_colors();
    let base = (y * 64 + x) * 3;
    assert_eq!(colors[base], colors[base + 1]);
    assert_eq!(colors[base], colors[base + 2]);
    colors[base] == 0xFF
}

#[test]
fn new_machine_has_font_and_blank_state() {
    let m = Chip8::new();
    assert_eq!(&m.memory[0..5], &[0xF0, 0x90, 0x90, 0x90, 0xF0]);
    assert_eq!(&m.memory[75..80], &[0xF0, 0x80, 0xF0, 0x80, 0x80]);
    assert!(m.memory[80..].iter().all(|b| *b == 0));
    assert_eq!(m.registers.pc, 0x200);
    assert_eq!(m.registers.sp, 0);
    assert!(m.screen().pixel_colors().iter().all(|b| *b == 0));
    assert_eq!(m.screen().pixel_colors().len(), 64 * 32 * 3);
}

#[test]
fn load_then_fetch_reads_first_word() {
    let mut m = machine_with(&[0xA1, 0x23, 0x00]);
    assert_eq!(m.get_u16(0x200), 0xA123);
    m.step(0).unwrap();
    assert_eq!(m.registers.i, 0x123);
    assert_eq!(m.registers.pc, 0x202);
}

#[test]
fn load_largest_program_fits() {
    let mut m = Chip8::new();
    let program = vec![0xAB; 4096 - 0x200 - 1];
    assert_eq!(m.load(&program), Ok(()));
    assert_eq!(m.memory[0xFFE], 0xAB);
    assert_eq!(m.memory[0xFFF], 0);
}

#[test]
fn load_too_large_is_refused_and_memory_unchanged() {
    let mut m = Chip8::new();
    let before = m.memory;
    let program = vec![0xAB; 4096 - 0x200];
    assert_eq!(m.load(&program), Err(Chip8Error::ProgramTooLarge));
    assert_eq!(m.memory, before);
    assert_eq!(Chip8Error::ProgramTooLarge.message(), "The program size is too large");
}

#[test]
fn add_byte_wraps() {
    let mut m = machine_with(&[0x60, 0xFF, 0x70, 0x01, 0x71, 0x80, 0x71, 0x80]);
    run_steps(&mut m, 4);
    assert_eq!(m.registers.v[0], 0x00);
    assert_eq!(m.registers.v[1], 0x00);
    assert_eq!(m.registers.v[0xF], 0);
}

#[test]
fn add_registers_sets_carry() {
    let mut m = machine_with(&[0x60, 0xFF, 0x61, 0x01, 0x80, 0x14, 0x62, 0x10, 0x63, 0x20, 0x82, 0x34]);
    run_steps(&mut m, 3);
    assert_eq!(m.registers.v[0], 0x00);
    assert_eq!(m.registers.v[0xF], 1);
    run_steps(&mut m, 3);
    assert_eq!(m.registers.v[2], 0x30);
    assert_eq!(m.registers.v[0xF], 0);
}

#[test]
fn sub_sets_not_borrow() {
    let mut m = machine_with(&[0x60, 0x05, 0x61, 0x03, 0x80, 0x15, 0x82, 0x07]);
    run_steps(&mut m, 3);
    assert_eq!(m.registers.v[0], 0x02);
    assert_eq!(m.registers.v[0xF], 1);
    m.step(0).unwrap();
    // V2 = V0 - V2 = 2 - 0, and V0 > V2.
    assert_eq!(m.registers.v[2], 0x02);
    assert_eq!(m.registers.v[0xF], 1);
    let mut m = machine_with(&[0x60, 0x03, 0x61, 0x05, 0x80, 0x15]);
    run_steps(&mut m, 3);
    assert_eq!(m.registers.v[0], 0xFE);
    assert_eq!(m.registers.v[0xF], 0);
}

#[test]
fn shift_right_flag_is_low_bit() {
    let mut m = machine_with(&[0x60, 0x03, 0x80, 0x06, 0x61, 0x04, 0x81, 0x06]);
    run_steps(&mut m, 2);
    assert_eq!(m.registers.v[0xF], 1);
    assert_eq!(m.registers.v[0], 0x01);
    run_steps(&mut m, 2);
    assert_eq!(m.registers.v[0xF], 0);
    assert_eq!(m.registers.v[1], 0x02);
}

#[test]
fn shift_left_flag_is_masked_high_bit() {
    let mut m = machine_with(&[0x60, 0x81, 0x80, 0x0E, 0x61, 0x41, 0x81, 0x0E]);
    run_steps(&mut m, 2);
    assert_eq!(m.registers.v[0xF], 0x80);
    assert_eq!(m.registers.v[0], 0x02);
    run_steps(&mut m, 2);
    assert_eq!(m.registers.v[0xF], 0x00);
    assert_eq!(m.registers.v[1], 0x82);
}

#[test]
fn logic_ops() {
    let mut m = machine_with(&[
        0x60, 0x0C, 0x61, 0x0A, 0x82, 0x00, 0x82, 0x11, 0x83, 0x00, 0x83, 0x12, 0x84, 0x00, 0x84,
        0x13,
    ]);
    run_steps(&mut m, 8);
    assert_eq!(m.registers.v[2], 0x0E);
    assert_eq!(m.registers.v[3], 0x08);
    assert_eq!(m.registers.v[4], 0x06);
}

#[test]
fn skips() {
    // 3xkk taken, 4xkk not taken, 5xy0 taken, 9xy0 not taken.
    let mut m = machine_with(&[0x60, 0x07, 0x30, 0x07]);
    run_steps(&mut m, 2);
    assert_eq!(m.registers.pc, 0x206);
    let mut m = machine_with(&[0x60, 0x07, 0x40, 0x07]);
    run_steps(&mut m, 2);
    assert_eq!(m.registers.pc, 0x204);
    let mut m = machine_with(&[0x60, 0x07, 0x61, 0x07, 0x50, 0x10]);
    run_steps(&mut m, 3);
    assert_eq!(m.registers.pc, 0x208);
    let mut m = machine_with(&[0x60, 0x07, 0x61, 0x07, 0x90, 0x10]);
    run_steps(&mut m, 3);
    assert_eq!(m.registers.pc, 0x206);
}

#[test]
fn index_and_jump_with_offset() {
    let mut m = machine_with(&[0xAF, 0xFF, 0x60, 0x02, 0xF0, 0x1E, 0xB3, 0x00]);
    run_steps(&mut m, 3);
    assert_eq!(m.registers.i, 0x1001);
    m.step(0).unwrap();
    assert_eq!(m.registers.pc, 0x302);
}

#[test]
fn font_address_is_glyph_times_five() {
    let mut m = machine_with(&[0x60, 0x0A, 0xF0, 0x29]);
    run_steps(&mut m, 2);
    assert_eq!(m.registers.i, 50);
}

#[test]
fn bcd_digits() {
    let mut m = machine_with(&[0x60, 0x7B, 0xA3, 0x00, 0xF0, 0x33]);
    run_steps(&mut m, 3);
    assert_eq!(&m.memory[0x300..0x303], &[1, 2, 3]);
    for v in 0..=255u8 {
        let mut m = machine_with(&[0x60, v, 0xA3, 0x00, 0xF0, 0x33]);
        run_steps(&mut m, 3);
        let d = &m.memory[0x300..0x303];
        assert_eq!(100 * d[0] as u32 + 10 * d[1] as u32 + d[2] as u32, v as u32);
    }
}

#[test]
fn store_and_load_registers_include_vx() {
    let mut m = machine_with(&[
        0x60, 0x11, 0x61, 0x22, 0x62, 0x33, 0x63, 0x44, 0xA3, 0x00, 0xF2, 0x55,
    ]);
    run_steps(&mut m, 6);
    assert_eq!(&m.memory[0x300..0x304], &[0x11, 0x22, 0x33, 0x00]);
    let mut m = machine_with(&[0xA2, 0x06, 0xF1, 0x65, 0x00, 0x00, 0xAA, 0xBB, 0xCC]);
    run_steps(&mut m, 2);
    assert_eq!(m.registers.v[0], 0xAA);
    assert_eq!(m.registers.v[1], 0xBB);
    assert_eq!(m.registers.v[2], 0x00);
}

#[test]
fn call_then_ret_returns_after_call() {
    let mut m = machine_with(&[0x22, 0x06, 0x00, 0x00, 0x00, 0x00, 0x00, 0xEE]);
    m.step(0).unwrap();
    assert_eq!(m.registers.pc, 0x206);
    assert_eq!(m.registers.sp, 1);
    assert_eq!(m.stack()[0], 0x202);
    m.step(0).unwrap();
    assert_eq!(m.registers.pc, 0x202);
    assert_eq!(m.registers.sp, 0);
}

#[test]
fn three_instruction_program_adds() {
    let mut m = machine_with(&[0x60, 0x0A, 0x61, 0x05, 0x80, 0x14]);
    run_steps(&mut m, 3);
    assert_eq!(m.registers.v[0], 0x0F);
    assert_eq!(m.registers.v[1], 0x05);
    assert_eq!(m.registers.v[0xF], 0);
}

#[test]
fn clear_screen_program_blanks_framebuffer() {
    let mut m = machine_with(&[0x00, 0xE0]);
    m.draw_character(0, 0, 8);
    m.draw_character(10, 10, 0xF);
    assert!(m.screen().pixel_colors().iter().any(|b| *b != 0));
    m.step(0).unwrap();
    assert!(m.screen().pixel_colors().iter().all(|b| *b == 0));
}

#[test]
fn jump_to_self_loops_in_place() {
    let mut m = machine_with(&[0x12, 0x00]);
    for _ in 0..10 {
        m.step(0).unwrap();
        assert_eq!(m.registers.pc, 0x200);
    }
}

#[test]
fn draw_twice_clears_and_collides() {
    let mut s = Screen::new();
    let sprite = [0xF0, 0x90, 0xF0];
    assert!(!s.draw_sprite(5, 7, &sprite));
    assert!(pixel_on(&s, 5, 7));
    assert!(pixel_on(&s, 8, 7));
    assert!(!pixel_on(&s, 9, 7));
    assert!(pixel_on(&s, 5, 8));
    assert!(!pixel_on(&s, 6, 8));
    assert!(s.draw_sprite(5, 7, &sprite));
    assert!(s.pixel_colors().iter().all(|b| *b == 0));
}

#[test]
fn draw_opcode_sets_collision_flag() {
    // Draw glyph 0 twice at (1, 2).
    let mut m = machine_with(&[0x60, 0x01, 0x61, 0x02, 0xA0, 0x00, 0xD0, 0x15, 0xD0, 0x15]);
    run_steps(&mut m, 4);
    assert_eq!(m.registers.v[0xF], 0);
    assert!(pixel_on(m.screen(), 1, 2));
    m.step(0).unwrap();
    assert_eq!(m.registers.v[0xF], 1);
    assert!(m.screen().pixel_colors().iter().all(|b| *b == 0));
}

#[test]
fn sprite_wraps_at_right_and_bottom_edges() {
    let mut s = Screen::new();
    assert!(!s.draw_sprite(63, 31, &[0xC0, 0x80]));
    assert!(pixel_on(&s, 63, 31));
    assert!(pixel_on(&s, 0, 31));
    assert!(pixel_on(&s, 63, 0));
    assert!(!pixel_on(&s, 0, 0));
    let mut s = Screen::new();
    s.draw_sprite(64 + 62, 32, &[0xFF]);
    assert!(pixel_on(&s, 62, 0));
    assert!(pixel_on(&s, 63, 0));
    assert!(pixel_on(&s, 0, 0));
    assert!(pixel_on(&s, 5, 0));
    assert!(!pixel_on(&s, 6, 0));
}

#[test]
fn screen_clear_turns_all_off() {
    let mut s = Screen::new();
    s.draw_sprite(0, 0, &[0xFF; 10]);
    s.clear();
    assert!(s.pixel_colors().iter().all(|b| *b == 0));
}

#[test]
fn illegal_opcode_is_reported_with_address() {
    let mut m = machine_with(&[0x60, 0x01, 0x50, 0x01]);
    m.step(0).unwrap();
    assert_eq!(m.step(0), Err(Chip8Error::IllegalOpcode { opcode: 0x5001, address: 0x202 }));
    assert_eq!(m.registers.pc, 0x202);
    for word in [0x800Fu16, 0xE000, 0xF0FF, 0x0123, 0x9001] {
        assert_eq!(decode(word), None);
    }
}

#[test]
fn return_on_empty_stack_underflows() {
    let mut m = machine_with(&[0x00, 0xEE]);
    assert_eq!(m.step(0), Err(Chip8Error::StackUnderflow { address: 0x200 }));
    assert_eq!(m.registers.pc, 0x200);
}

#[test]
fn seventeenth_nested_call_overflows() {
    // A subroutine at 0x200 that calls itself.
    let mut m = machine_with(&[0x22, 0x00]);
    run_steps(&mut m, 16);
    assert_eq!(m.registers.sp, 16);
    assert_eq!(m.step(0), Err(Chip8Error::StackOverflow { address: 0x200 }));
    assert_eq!(m.registers.sp, 16);
}

#[test]
fn memory_access_past_end_is_reported() {
    let mut m = machine_with(&[0xAF, 0xFE, 0xF0, 0x33]);
    m.step(0).unwrap();
    assert_eq!(m.step(0), Err(Chip8Error::MemoryOutOfBounds { address: 0x202 }));
    let mut m = machine_with(&[0xAF, 0xFC, 0xF5, 0x55]);
    m.step(0).unwrap();
    assert_eq!(m.step(0), Err(Chip8Error::MemoryOutOfBounds { address: 0x202 }));
    let mut m = machine_with(&[0xAF, 0xFF, 0xD0, 0x02]);
    m.step(0).unwrap();
    assert_eq!(m.step(0), Err(Chip8Error::MemoryOutOfBounds { address: 0x202 }));
    let mut m = machine_with(&[0x1F, 0xFF]);
    m.step(0).unwrap();
    assert_eq!(m.step(0), Err(Chip8Error::MemoryOutOfBounds { address: 0xFFF }));
}

#[test]
fn error_messages() {
    assert_eq!(Chip8Error::IllegalOpcode { opcode: 0, address: 0 }.message(), "Illegal opcode");
    assert_eq!(Chip8Error::StackOverflow { address: 0 }.message(), "Stack overflow");
    assert_eq!(Chip8Error::StackUnderflow { address: 0 }.message(), "Stack underflow");
    assert_eq!(
        Chip8Error::MemoryOutOfBounds { address: 0 }.message(),
        "Memory access out of bounds"
    );
}

#[test]
fn keyboard_maps_hex_keys() {
    let mut k = Keyboard::new();
    assert_eq!(k.is_key_down(48 + 1), Some(false));
    k.key_down(48 + 1);
    assert_eq!(k.is_key_down(48 + 1), Some(true));
    assert!(k.is_pressed(1));
    k.key_down(97 + 5);
    assert!(k.is_pressed(15));
    k.key_up(48 + 1);
    assert_eq!(k.is_key_down(48 + 1), Some(false));
    assert_eq!(k.is_key_down(27), None);
    k.key_down(27);
    assert!(!k.is_pressed(16));
    assert_eq!(k.map_key(97), Some(10));
    assert_eq!(k.map_key(96), None);
}

#[test]
fn key_map_table() {
    let map = create_key_map();
    assert_eq!(map.len(), 16);
    assert_eq!(map[0], (48, 0));
    assert_eq!(map[9], (57, 9));
    assert_eq!(map[10], (97, 10));
    assert_eq!(map[15], (102, 15));
}

#[test]
fn skip_if_key_pressed() {
    let mut m = machine_with(&[0x60, 0x0B, 0xE0, 0x9E, 0x00, 0x00, 0xE0, 0xA1]);
    m.key_down(98);
    run_steps(&mut m, 2);
    assert_eq!(m.registers.pc, 0x206);
    m.step(0).unwrap();
    assert_eq!(m.registers.pc, 0x208);
    let mut m = machine_with(&[0x60, 0x0B, 0xE0, 0xA1]);
    run_steps(&mut m, 2);
    assert_eq!(m.registers.pc, 0x206);
}

#[test]
fn wait_for_key_suspends_until_press() {
    let mut m = machine_with(&[0xF3, 0x0A, 0x60, 0x01]);
    m.step(0).unwrap();
    assert_eq!(m.waiting_for_key(), Some(3));
    m.step(0).unwrap();
    assert_eq!(m.registers.pc, 0x202);
    m.key_down(27);
    assert_eq!(m.waiting_for_key(), Some(3));
    m.key_down(97 + 2);
    assert_eq!(m.waiting_for_key(), None);
    assert_eq!(m.registers.v[3], 12);
    m.step(0).unwrap();
    assert_eq!(m.registers.v[0], 1);
}

#[test]
fn timers_load_and_count_down() {
    let mut m = machine_with(&[0x60, 0x02, 0xF0, 0x15, 0xF0, 0x18, 0xF1, 0x07]);
    run_steps(&mut m, 4);
    assert_eq!(m.registers.dt, 2);
    assert_eq!(m.registers.st, 2);
    assert_eq!(m.registers.v[1], 2);
    assert!(!m.update_delay_timer(CHIP8_TIMER_PERIOD_NS - 1));
    assert!(m.update_delay_timer(CHIP8_TIMER_PERIOD_NS));
    assert_eq!(m.registers.dt, 1);
    assert!(m.update_sound_timer(CHIP8_TIMER_PERIOD_NS));
    assert!(m.audio_playing());
    assert!(m.update_sound_timer(CHIP8_TIMER_PERIOD_NS));
    assert_eq!(m.registers.st, 0);
    assert!(m.audio_playing());
    assert!(!m.update_sound_timer(CHIP8_TIMER_PERIOD_NS));
    assert!(!m.audio_playing());
}

#[test]
fn cadence_gates_instructions_and_timers() {
    let mut m = machine_with(&[0x60, 0x05, 0xF0, 0x15, 0x70, 0x01]);
    let mut c = Cadence::new();
    assert_eq!(m.run_cycle(&mut c), Ok(false));
    m.update_timers(&mut c, CHIP8_EXEC_PERIOD_NS * 2);
    assert_eq!(m.run_cycle(&mut c), Ok(true));
    assert_eq!(m.run_cycle(&mut c), Ok(true));
    assert_eq!(m.run_cycle(&mut c), Ok(false));
    assert_eq!(m.registers.dt, 5);
    m.update_timers(&mut c, CHIP8_TIMER_PERIOD_NS);
    assert_eq!(m.registers.dt, 4);
    assert_eq!(c.dt_elapsed_ns, 0);
    assert_eq!(c.exec_elapsed_ns, CHIP8_TIMER_PERIOD_NS);
    assert_eq!(m.run_cycle(&mut c), Ok(true));
    assert_eq!(m.registers.v[0], 6);
}

#[test]
fn random_byte_is_masked() {
    let mut m = machine_with(&[0xC0, 0x0F, 0xC1, 0x00]);
    let mut c = Cadence::new();
    m.update_timers(&mut c, CHIP8_EXEC_PERIOD_NS * 2);
    assert_eq!(m.run_cycle(&mut c), Ok(true));
    assert_eq!(m.run_cycle(&mut c), Ok(true));
    assert!(m.registers.v[0] <= 0x0F);
    assert_eq!(m.registers.v[1], 0);
    let mut m = machine_with(&[0xC0, 0x3C]);
    m.step(0xFF).unwrap();
    assert_eq!(m.registers.v[0], 0x3C);
}

#[test]
fn decode_examples() {
    assert_eq!(decode(0x00E0), Some(Instruction::Cls));
    assert_eq!(decode(0xD12F), Some(Instruction::Drw { x: 1, y: 2, n: 15 }));
    assert_eq!(decode(0x8ABE), Some(Instruction::ShlVx { x: 10 }));
    assert_eq!(decode(0xF765), Some(Instruction::LdVxI { x: 7 }));
}

#[test]
fn registers_start_at_zero() {
    let r = Registers::new();
    assert_eq!(r.v, [0; 16]);
    assert_eq!((r.i, r.dt, r.st, r.pc, r.sp), (0, 0, 0, 0, 0));
}
