use chip8::display::{DisplayBuffer, HEIGHT, WIDTH};
use chip8::machine::{Chip8, Fault, DEFAULT_SPEED, MAX_PROGRAM_LEN, PROGRAM_START};

fn fresh() -> Chip8 {
    let mut m = Chip8::new(DisplayBuffer::new());
    m.load_sprites_into_memory();
    m
}

fn run(m: &mut Chip8, ops: &[u16]) {
    for &op in ops {
        m.execute_instruction(op).unwrap();
    }
}

fn program(words: &[u16]) -> Vec<u8> {
    words.iter().flat_map(|w| [(w >> 8) as u8, (w & 0xFF) as u8]).collect()
}

#[test]
fn new_machine_starts_at_program_start() {
    let m = Chip8::new(DisplayBuffer::new());
    assert_eq!(m.pc(), PROGRAM_START);
    assert_eq!(m.pc(), 0x200);
    assert_eq!(m.index_register(), 0);
    assert_eq!(m.stack_depth(), 0);
    assert_eq!(m.speed(), DEFAULT_SPEED);
    assert_eq!(m.speed(), 10);
    assert!(!m.is_paused());
    for x in 0..16 {
        assert_eq!(m.register(x), 0);
    }
}

#[test]
fn font_is_loaded_from_address_zero() {
    let m = fresh();
    let zero = [0xF0, 0x90, 0x90, 0x90, 0xF0];
    let seven = [0xF0, 0x10, 0x20, 0x40, 0x40];
    let f = [0xF0, 0x80, 0xF0, 0x80, 0x80];
    for k in 0..5u16 {
        assert_eq!(m.read_memory(k), zero[k as usize]);
        assert_eq!(m.read_memory(35 + k), seven[k as usize]);
        assert_eq!(m.read_memory(75 + k), f[k as usize]);
    }
    assert_eq!(m.read_memory(80), 0);
}

#[test]
fn program_is_copied_to_program_start() {
    let mut m = fresh();
    assert_eq!(m.load_program_into_memory(&[0x12, 0x34, 0x56]), Ok(()));
    assert_eq!(m.read_memory(0x1FF), 0);
    assert_eq!(m.read_memory(0x200), 0x12);
    assert_eq!(m.read_memory(0x201), 0x34);
    assert_eq!(m.read_memory(0x202), 0x56);
    assert_eq!(m.read_memory(0x203), 0);
}

#[test]
fn largest_program_fills_memory() {
    let mut m = fresh();
    let mut image = vec![0u8; MAX_PROGRAM_LEN];
    image[MAX_PROGRAM_LEN - 1] = 0xAB;
    assert_eq!(m.load_program_into_memory(&image), Ok(()));
    assert_eq!(m.read_memory(0xFFF), 0xAB);
}

#[test]
fn oversized_program_is_rejected() {
    let mut m = fresh();
    let image = vec![0x11u8; MAX_PROGRAM_LEN + 1];
    assert_eq!(
        m.load_program_into_memory(&image),
        Err(Fault::ProgramTooLarge { len: 3585 })
    );
    assert_eq!(m.read_memory(0x200), 0);
}

#[test]
fn add_with_carry_quirky_flag() {
    let mut m = fresh();
    run(&mut m, &[0x60FF, 0x6101, 0x8014]);
    assert_eq!(m.register(0), 0x00);
    assert_eq!(m.register(0xF), 1);
}

#[test]
fn add_with_carry_flag_cleared_on_large_sum() {
    let mut m = fresh();
    run(&mut m, &[0x60F0, 0x610F, 0x8014]);
    assert_eq!(m.register(0), 0xFF);
    assert_eq!(m.register(0xF), 0);
    let mut m = fresh();
    run(&mut m, &[0x6010, 0x6120, 0x8014]);
    assert_eq!(m.register(0), 0x30);
    assert_eq!(m.register(0xF), 1);
}

#[test]
fn store_bcd_of_123() {
    let mut m = fresh();
    run(&mut m, &[0x627B, 0xA300, 0xF233]);
    assert_eq!(m.read_memory(0x300), 1);
    assert_eq!(m.read_memory(0x301), 2);
    assert_eq!(m.read_memory(0x302), 3);
}

#[test]
fn store_bcd_of_small_and_large_values() {
    let mut m = fresh();
    run(&mut m, &[0x6007, 0xA400, 0xF033, 0x61FF, 0xA500, 0xF133]);
    assert_eq!(
        [m.read_memory(0x400), m.read_memory(0x401), m.read_memory(0x402)],
        [0, 0, 7]
    );
    assert_eq!(
        [m.read_memory(0x500), m.read_memory(0x501), m.read_memory(0x502)],
        [2, 5, 5]
    );
}

#[test]
fn jump_sets_pc_exactly() {
    let mut m = fresh();
    run(&mut m, &[0x1ABC]);
    assert_eq!(m.pc(), 0xABC);
}

#[test]
fn plain_instruction_advances_pc_by_two() {
    let mut m = fresh();
    run(&mut m, &[0x6000]);
    assert_eq!(m.pc(), 0x202);
}

#[test]
fn await_key_pauses_until_press() {
    let mut m = fresh();
    let image = program(&[0x6405, 0xF415, 0xF30A, 0x6007, 0x1208]);
    m.load_program_into_memory(&image).unwrap();
    assert_eq!(m.cycle(), Ok(()));
    assert!(m.is_paused());
    assert_eq!(m.pc(), 0x206);
    assert_eq!(m.delay_timer(), 5);
    assert_eq!(m.cycle(), Ok(()));
    assert!(m.is_paused());
    assert_eq!(m.pc(), 0x206);
    assert_eq!(m.delay_timer(), 5);
    for x in 0..16 {
        let expected = if x == 4 { 5 } else { 0 };
        assert_eq!(m.register(x), expected);
    }
    m.set_key_press(0x5);
    assert!(!m.is_paused());
    assert_eq!(m.register(3), 0x5);
    assert_eq!(m.cycle(), Ok(()));
    assert_eq!(m.register(0), 7);
    assert_eq!(m.pc(), 0x208);
    assert_eq!(m.delay_timer(), 4);
}

#[test]
fn await_key_via_execute_instruction() {
    let mut m = fresh();
    run(&mut m, &[0xF30A]);
    assert!(m.is_paused());
    let pc = m.pc();
    assert_eq!(m.cycle(), Ok(()));
    assert_eq!(m.pc(), pc);
    m.set_key_press(0xC);
    assert!(!m.is_paused());
    assert_eq!(m.register(3), 0xC);
    assert!(m.keys().is_pressed(0xC));
}

#[test]
fn key_press_without_wait_only_marks_key() {
    let mut m = fresh();
    m.set_key_press(0x2);
    assert!(m.keys().is_pressed(0x2));
    for x in 0..16 {
        assert_eq!(m.register(x), 0);
    }
    m.unset_key_press(0x2);
    assert!(!m.keys().is_pressed(0x2));
}

#[test]
fn out_of_range_key_does_not_resume() {
    let mut m = fresh();
    run(&mut m, &[0xF30A]);
    m.set_key_press(0x20);
    assert!(m.is_paused());
    assert_eq!(m.register(3), 0);
}

#[test]
fn draw_twice_sets_collision_flag() {
    let mut m = fresh();
    m.load_program_into_memory(&[0x80]).unwrap();
    run(&mut m, &[0xA200, 0x6A0A, 0x6B05, 0xDAB1]);
    assert_eq!(m.register(0xF), 0);
    assert!(m.display().is_lit(10, 5));
    run(&mut m, &[0xDAB1]);
    assert_eq!(m.register(0xF), 1);
    assert!(!m.display().is_lit(10, 5));
}

#[test]
fn draw_font_glyph_and_clear_screen() {
    let mut m = fresh();
    run(&mut m, &[0x6000, 0xF029, 0x6A00, 0x6B00, 0xDAB5]);
    assert_eq!(m.register(0xF), 0);
    assert!(m.display().is_lit(0, 0));
    assert!(m.display().is_lit(3, 0));
    assert!(!m.display().is_lit(4, 0));
    assert!(m.display().is_lit(0, 1));
    assert!(!m.display().is_lit(1, 1));
    run(&mut m, &[0x00E0]);
    for y in 0..HEIGHT {
        for x in 0..WIDTH {
            assert!(!m.display().is_lit(x, y));
        }
    }
}

#[test]
fn bitwise_and_assign_operations() {
    let mut m = fresh();
    run(&mut m, &[0x60CC, 0x61AA, 0x8011]);
    assert_eq!(m.register(0), 0xEE);
    run(&mut m, &[0x60CC, 0x8012]);
    assert_eq!(m.register(0), 0x88);
    run(&mut m, &[0x60CC, 0x8013]);
    assert_eq!(m.register(0), 0x66);
    run(&mut m, &[0x8010]);
    assert_eq!(m.register(0), 0xAA);
}

#[test]
fn subtract_with_borrow() {
    let mut m = fresh();
    run(&mut m, &[0x6009, 0x6103, 0x8015]);
    assert_eq!(m.register(0), 6);
    assert_eq!(m.register(0xF), 1);
    run(&mut m, &[0x6003, 0x6109, 0x8015]);
    assert_eq!(m.register(0), 0xFA);
    assert_eq!(m.register(0xF), 0);
}

#[test]
fn reverse_subtract_wraps() {
    let mut m = fresh();
    run(&mut m, &[0x6003, 0x6109, 0x8017]);
    assert_eq!(m.register(0), 6);
    assert_eq!(m.register(0xF), 1);
    run(&mut m, &[0x6009, 0x6103, 0x8017]);
    assert_eq!(m.register(0), 0xFA);
    assert_eq!(m.register(0xF), 0);
}

#[test]
fn shift_right_flag_is_low_bit() {
    let mut m = fresh();
    run(&mut m, &[0x6005, 0x8016]);
    assert_eq!(m.register(0), 2);
    assert_eq!(m.register(0xF), 1);
    run(&mut m, &[0x8016]);
    assert_eq!(m.register(0), 1);
    assert_eq!(m.register(0xF), 0);
}

#[test]
fn shift_left_flag_is_raw_top_bit() {
    let mut m = fresh();
    run(&mut m, &[0x6081, 0x801E]);
    assert_eq!(m.register(0), 0x02);
    assert_eq!(m.register(0xF), 0x80);
    run(&mut m, &[0x801E]);
    assert_eq!(m.register(0), 0x04);
    assert_eq!(m.register(0xF), 0);
}

#[test]
fn add_immediate_wraps_without_flag() {
    let mut m = fresh();
    run(&mut m, &[0x6F07, 0x60FF, 0x7002]);
    assert_eq!(m.register(0), 1);
    assert_eq!(m.register(0xF), 7);
}

#[test]
fn skip_instructions() {
    let mut m = fresh();
    run(&mut m, &[0x6042, 0x3042]);
    assert_eq!(m.pc(), 0x206);
    run(&mut m, &[0x3043]);
    assert_eq!(m.pc(), 0x208);
    run(&mut m, &[0x4043]);
    assert_eq!(m.pc(), 0x20C);
    run(&mut m, &[0x4042]);
    assert_eq!(m.pc(), 0x20E);
    run(&mut m, &[0x6142, 0x5010]);
    assert_eq!(m.pc(), 0x214);
    run(&mut m, &[0x9010]);
    assert_eq!(m.pc(), 0x216);
    run(&mut m, &[0x7101, 0x9010]);
    assert_eq!(m.pc(), 0x21C);
}

#[test]
fn skip_on_key_state() {
    let mut m = fresh();
    run(&mut m, &[0x6A05, 0xEA9E]);
    assert_eq!(m.pc(), 0x204);
    run(&mut m, &[0xEAA1]);
    assert_eq!(m.pc(), 0x208);
    m.set_key_press(5);
    run(&mut m, &[0xEA9E]);
    assert_eq!(m.pc(), 0x20C);
    run(&mut m, &[0xEAA1]);
    assert_eq!(m.pc(), 0x20E);
}

#[test]
fn call_and_return() {
    let mut m = fresh();
    run(&mut m, &[0x2300]);
    assert_eq!(m.pc(), 0x300);
    assert_eq!(m.stack_depth(), 1);
    run(&mut m, &[0x2400, 0x00EE]);
    assert_eq!(m.pc(), 0x302);
    assert_eq!(m.stack_depth(), 1);
    run(&mut m, &[0x00EE]);
    assert_eq!(m.pc(), 0x202);
    assert_eq!(m.stack_depth(), 0);
}

#[test]
fn return_with_empty_stack_faults() {
    let mut m = fresh();
    assert_eq!(
        m.execute_instruction(0x00EE),
        Err(Fault::StackUnderflow { pc: 0x200 })
    );
    assert_eq!(m.pc(), 0x200);
}

#[test]
fn unknown_opcodes_fault() {
    let mut m = fresh();
    for op in [0x0123u16, 0x0000, 0x800F, 0x8008, 0xE000, 0xE19F, 0xF0FF, 0xF001] {
        assert_eq!(
            m.execute_instruction(op),
            Err(Fault::UnknownOpcode { opcode: op, pc: 0x200 })
        );
        assert_eq!(m.pc(), 0x200);
    }
}

#[test]
fn index_instructions() {
    let mut m = fresh();
    run(&mut m, &[0xA123]);
    assert_eq!(m.index_register(), 0x123);
    run(&mut m, &[0x6010, 0xF01E]);
    assert_eq!(m.index_register(), 0x133);
    run(&mut m, &[0x600F, 0xF029]);
    assert_eq!(m.index_register(), 75);
}

#[test]
fn add_to_index_wraps_at_sixteen_bits() {
    let mut m = fresh();
    run(&mut m, &[0xAFFF, 0x60FF]);
    for _ in 0..241 {
        run(&mut m, &[0xF01E]);
    }
    assert_eq!(m.index_register(), 14);
}

#[test]
fn jump_with_offset() {
    let mut m = fresh();
    run(&mut m, &[0x6005, 0xB300]);
    assert_eq!(m.pc(), 0x305);
}

#[test]
fn store_registers_excludes_register_x() {
    let mut m = fresh();
    run(&mut m, &[0x6011, 0x6122, 0x6233, 0xA400, 0xF255]);
    assert_eq!(m.read_memory(0x400), 0x11);
    assert_eq!(m.read_memory(0x401), 0x22);
    assert_eq!(m.read_memory(0x402), 0);
    assert_eq!(m.index_register(), 0x400);
}

#[test]
fn load_registers_excludes_register_x() {
    let mut m = fresh();
    m.load_program_into_memory(&[0x11, 0x22, 0x33]).unwrap();
    run(&mut m, &[0x6299, 0xA200, 0xF265]);
    assert_eq!(m.register(0), 0x11);
    assert_eq!(m.register(1), 0x22);
    assert_eq!(m.register(2), 0x99);
}

#[test]
fn store_registers_wraps_at_end_of_memory() {
    let mut m = fresh();
    run(&mut m, &[0x60AA, 0x61BB, 0x62CC, 0xAFFF, 0xF355]);
    assert_eq!(m.read_memory(0xFFF), 0xAA);
    assert_eq!(m.read_memory(0x000), 0xBB);
    assert_eq!(m.read_memory(0x001), 0xCC);
}

#[test]
fn store_registers_with_x_zero_stores_nothing() {
    let mut m = fresh();
    run(&mut m, &[0x6077, 0xA400, 0xF055]);
    assert_eq!(m.read_memory(0x400), 0);
}

#[test]
fn timers_count_down_to_zero() {
    let mut m = fresh();
    m.load_program_into_memory(&program(&[0x6A02, 0xFA15, 0x6B03, 0xFB18, 0x1208]))
        .unwrap();
    assert_eq!(m.cycle(), Ok(()));
    assert_eq!(m.delay_timer(), 1);
    assert_eq!(m.sound_timer(), 2);
    assert_eq!(m.cycle(), Ok(()));
    assert_eq!(m.delay_timer(), 0);
    assert_eq!(m.sound_timer(), 1);
    assert_eq!(m.cycle(), Ok(()));
    assert_eq!(m.delay_timer(), 0);
    assert_eq!(m.sound_timer(), 0);
    run(&mut m, &[0xFC07]);
    assert_eq!(m.register(0xC), 0);
}

#[test]
fn update_timers_directly() {
    let mut m = fresh();
    run(&mut m, &[0x6001, 0xF015, 0xF018]);
    m.update_timers();
    assert_eq!(m.delay_timer(), 0);
    assert_eq!(m.sound_timer(), 0);
    m.update_timers();
    assert_eq!(m.delay_timer(), 0);
}

#[test]
fn read_delay_timer() {
    let mut m = fresh();
    run(&mut m, &[0x6029, 0xF015, 0xF507]);
    assert_eq!(m.register(5), 0x29);
}

#[test]
fn cycle_runs_speed_instructions() {
    let mut m = fresh();
    let mut words = vec![0x7001u16; 20];
    words.push(0x1228);
    m.load_program_into_memory(&program(&words)).unwrap();
    assert_eq!(m.cycle(), Ok(()));
    assert_eq!(m.register(0), 10);
    assert_eq!(m.pc(), 0x214);
    m.set_speed(3);
    assert_eq!(m.cycle(), Ok(()));
    assert_eq!(m.register(0), 13);
    assert_eq!(m.pc(), 0x21A);
}

#[test]
fn cycle_stops_at_first_fault() {
    let mut m = fresh();
    m.load_program_into_memory(&program(&[0x6001, 0x0000, 0x6002])).unwrap();
    assert_eq!(
        m.cycle(),
        Err(Fault::UnknownOpcode { opcode: 0x0000, pc: 0x202 })
    );
    assert_eq!(m.register(0), 1);
    assert_eq!(m.pc(), 0x202);
}

#[test]
fn fetch_reads_big_endian_word() {
    let mut m = fresh();
    m.load_program_into_memory(&[0xAB, 0xCD]).unwrap();
    assert_eq!(m.fetch(), 0xABCD);
}

#[test]
fn execute_with_uses_given_random_byte() {
    let mut m = fresh();
    assert_eq!(m.execute_with(0xC30F, 0xAB), Ok(()));
    assert_eq!(m.register(3), 0x0B);
}

#[test]
fn random_and_is_masked() {
    let mut m = fresh();
    run(&mut m, &[0xC000]);
    assert_eq!(m.register(0), 0);
    for _ in 0..64 {
        run(&mut m, &[0xC10F]);
        assert!(m.register(1) <= 0x0F);
    }
    let mut seen = std::collections::HashSet::new();
    for _ in 0..256 {
        run(&mut m, &[0xC2FF]);
        seen.insert(m.register(2));
    }
    assert!(seen.len() > 1);
}
