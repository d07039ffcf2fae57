use chip8::chip8::Chip8;
use chip8::error::Chip8Error;
use chip8::model::Conventions;

fn machine_with(program: &[u8]) -> Chip8 {
    let mut m = Chip8::new();
    assert_eq!(m.load_rom(&program.to_vec()), Ok(()));
    m
}

fn machine_with_conventions(program: &[u8], conventions: Conventions) -> Chip8 {
    let mut m = Chip8::with_conventions(conventions);
    assert_eq!(m.load_rom(&program.to_vec()), Ok(()));
    m
}

fn run(m: &mut Chip8, steps: usize) {
    for _ in 0..steps {
        assert_eq!(m.step_with(0), Ok(()));
    }
}

#[test]
fn new_machine_starts_at_program_start() {
    let m = Chip8::new();
    assert_eq!(m.cpu.get_pc(), 0x200);
    assert_eq!(m.cpu.get_i(), 0);
    assert_eq!(m.cpu.stack_depth(), 0);
    assert!(!m.cpu.is_awaiting_key());
    for x in 0..16u8 {
        assert_eq!(m.cpu.read_vx(x), 0);
    }
    assert!(m.get_display_buffer().iter().all(|p| !*p));
    assert_eq!(m.get_display_buffer().len(), 2048);
}

#[test]
fn register_set_then_get() {
    let mut m = Chip8::new();
    for x in 0..16u8 {
        m.cpu.write_vx(x, 0xA0 + x);
    }
    for x in 0..16u8 {
        assert_eq!(m.cpu.read_vx(x), 0xA0 + x);
    }
}

#[test]
fn jump_sets_counter_to_target() {
    let mut m = machine_with(&[0x1A, 0xBC]);
    run(&mut m, 1);
    assert_eq!(m.cpu.get_pc(), 0xABC);
}

#[test]
fn call_then_return_comes_back_after_the_call() {
    // 0x200: call 0x206; 0x206: return
    let mut m = machine_with(&[0x22, 0x06, 0x00, 0x00, 0x00, 0x00, 0x00, 0xEE]);
    run(&mut m, 1);
    assert_eq!(m.cpu.get_pc(), 0x206);
    assert_eq!(m.cpu.stack_depth(), 1);
    run(&mut m, 1);
    assert_eq!(m.cpu.get_pc(), 0x202);
    assert_eq!(m.cpu.stack_depth(), 0);
}

#[test]
fn seventeenth_nested_call_overflows() {
    // each call targets the next instruction
    let mut program = Vec::new();
    for k in 0..17u16 {
        let target = 0x200 + 2 * (k + 1);
        program.push(0x20 | (target >> 8) as u8);
        program.push((target & 0xFF) as u8);
    }
    let mut m = machine_with(&program);
    run(&mut m, 16);
    assert_eq!(m.cpu.stack_depth(), 16);
    let pc = m.cpu.get_pc();
    assert_eq!(m.step_with(0), Err(Chip8Error::StackOverflow));
    assert_eq!(m.cpu.get_pc(), pc);
    assert_eq!(m.cpu.stack_depth(), 16);
}

#[test]
fn return_on_empty_stack_underflows() {
    let mut m = machine_with(&[0x00, 0xEE]);
    assert_eq!(m.step_with(0), Err(Chip8Error::StackUnderflow));
    assert_eq!(m.cpu.get_pc(), 0x200);
}

#[test]
fn push_and_pop_keep_to_the_bound() {
    let mut m = Chip8::new();
    assert_eq!(m.cpu.pop(), Err(Chip8Error::StackUnderflow));
    for k in 0..16u16 {
        assert_eq!(m.cpu.push(0x300 + k), Ok(()));
    }
    assert_eq!(m.cpu.push(0x400), Err(Chip8Error::StackOverflow));
    assert_eq!(m.cpu.pop(), Ok(0x30F));
    assert_eq!(m.cpu.stack_depth(), 15);
}

#[test]
fn add_immediate_wraps_without_flag() {
    // V1 = 0xFF; V1 += 1
    let mut m = machine_with(&[0x61, 0xFF, 0x71, 0x01]);
    m.cpu.write_vx(0xF, 7);
    run(&mut m, 2);
    assert_eq!(m.cpu.read_vx(1), 0x00);
    assert_eq!(m.cpu.read_vx(0xF), 7);
    assert_eq!(m.cpu.get_pc(), 0x204);
}

#[test]
fn register_sum_with_carry() {
    let mut m = machine_with(&[0x61, 0xFF, 0x62, 0x01, 0x81, 0x24]);
    run(&mut m, 3);
    assert_eq!(m.cpu.read_vx(1), 0x00);
    assert_eq!(m.cpu.read_vx(0xF), 1);
}

#[test]
fn register_sum_without_carry_clears_flag() {
    let mut m = machine_with(&[0x61, 0x01, 0x62, 0x01, 0x81, 0x24]);
    m.cpu.write_vx(0xF, 1);
    run(&mut m, 3);
    assert_eq!(m.cpu.read_vx(1), 0x02);
    assert_eq!(m.cpu.read_vx(0xF), 0);
}

#[test]
fn assign_and_xor() {
    let mut m = machine_with(&[0x81, 0x20, 0x83, 0x42, 0x85, 0x63]);
    m.cpu.write_vx(2, 0x5A);
    m.cpu.write_vx(3, 0b1100);
    m.cpu.write_vx(4, 0b1010);
    m.cpu.write_vx(5, 0b1100);
    m.cpu.write_vx(6, 0b1010);
    run(&mut m, 3);
    assert_eq!(m.cpu.read_vx(1), 0x5A);
    assert_eq!(m.cpu.read_vx(3), 0b1000);
    assert_eq!(m.cpu.read_vx(5), 0b0110);
    assert_eq!(m.cpu.get_pc(), 0x206);
}

#[test]
fn subtraction_standard_flag_is_one_without_borrow() {
    let mut m = machine_with(&[0x81, 0x25, 0x83, 0x45]);
    m.cpu.write_vx(1, 10);
    m.cpu.write_vx(2, 3);
    m.cpu.write_vx(3, 3);
    m.cpu.write_vx(4, 10);
    run(&mut m, 1);
    assert_eq!(m.cpu.read_vx(1), 7);
    assert_eq!(m.cpu.read_vx(0xF), 1);
    run(&mut m, 1);
    assert_eq!(m.cpu.read_vx(3), 249);
    assert_eq!(m.cpu.read_vx(0xF), 0);
}

#[test]
fn subtraction_other_convention_flag_is_one_on_borrow() {
    let conventions = Conventions { shift_reads_vy: false, flag_on_borrow: true };
    let mut m = machine_with_conventions(&[0x81, 0x25, 0x83, 0x45], conventions);
    m.cpu.write_vx(1, 10);
    m.cpu.write_vx(2, 3);
    m.cpu.write_vx(3, 3);
    m.cpu.write_vx(4, 10);
    run(&mut m, 1);
    assert_eq!(m.cpu.read_vx(1), 7);
    assert_eq!(m.cpu.read_vx(0xF), 0);
    run(&mut m, 1);
    assert_eq!(m.cpu.read_vx(3), 249);
    assert_eq!(m.cpu.read_vx(0xF), 1);
}

#[test]
fn reverse_subtraction() {
    let mut m = machine_with(&[0x81, 0x27]);
    m.cpu.write_vx(1, 3);
    m.cpu.write_vx(2, 10);
    run(&mut m, 1);
    assert_eq!(m.cpu.read_vx(1), 7);
    assert_eq!(m.cpu.read_vx(0xF), 1);
}

#[test]
fn shifts_read_vx_by_default() {
    let mut m = machine_with(&[0x81, 0x26, 0x83, 0x4E]);
    m.cpu.write_vx(1, 0b0000_0101);
    m.cpu.write_vx(2, 0b1111_0000);
    m.cpu.write_vx(3, 0b1000_0001);
    m.cpu.write_vx(4, 0b0000_0000);
    run(&mut m, 1);
    assert_eq!(m.cpu.read_vx(1), 0b0000_0010);
    assert_eq!(m.cpu.read_vx(0xF), 1);
    run(&mut m, 1);
    assert_eq!(m.cpu.read_vx(3), 0b0000_0010);
    assert_eq!(m.cpu.read_vx(0xF), 1);
    assert_eq!(m.cpu.read_vx(2), 0b1111_0000);
}

#[test]
fn shifts_read_vy_when_asked() {
    let conventions = Conventions { shift_reads_vy: true, flag_on_borrow: false };
    let mut m = machine_with_conventions(&[0x81, 0x26, 0x83, 0x4E], conventions);
    m.cpu.write_vx(1, 0b0000_0101);
    m.cpu.write_vx(2, 0b1111_0000);
    m.cpu.write_vx(3, 0b1000_0001);
    m.cpu.write_vx(4, 0b0100_0001);
    run(&mut m, 1);
    assert_eq!(m.cpu.read_vx(1), 0b0111_1000);
    assert_eq!(m.cpu.read_vx(0xF), 0);
    run(&mut m, 1);
    assert_eq!(m.cpu.read_vx(3), 0b1000_0010);
    assert_eq!(m.cpu.read_vx(0xF), 0);
}

#[test]
fn unknown_words_are_invalid() {
    for word in [0x8121u16, 0x812F, 0x0000, 0x00E1, 0xE19F, 0xF1FF, 0xF100] {
        let mut m = machine_with(&[(word >> 8) as u8, (word & 0xFF) as u8]);
        assert_eq!(
            m.step_with(0),
            Err(Chip8Error::InvalidOpcode { pc: 0x200, instruction: word })
        );
        assert_eq!(m.cpu.get_pc(), 0x200);
    }
}

#[test]
fn skip_if_equal_immediate() {
    let mut m = machine_with(&[0x31, 0x42]);
    m.cpu.write_vx(1, 0x42);
    run(&mut m, 1);
    assert_eq!(m.cpu.get_pc(), 0x204);
    let mut m = machine_with(&[0x31, 0x42]);
    m.cpu.write_vx(1, 0x43);
    run(&mut m, 1);
    assert_eq!(m.cpu.get_pc(), 0x202);
}

#[test]
fn skip_if_not_equal_immediate() {
    let mut m = machine_with(&[0x41, 0x42]);
    m.cpu.write_vx(1, 0x42);
    run(&mut m, 1);
    assert_eq!(m.cpu.get_pc(), 0x202);
    let mut m = machine_with(&[0x41, 0x42]);
    m.cpu.write_vx(1, 0x43);
    run(&mut m, 1);
    assert_eq!(m.cpu.get_pc(), 0x204);
}

#[test]
fn skip_on_two_registers() {
    let mut m = machine_with(&[0x51, 0x20, 0x00, 0x00, 0x91, 0x20, 0x91, 0x30]);
    m.cpu.write_vx(1, 9);
    m.cpu.write_vx(2, 9);
    m.cpu.write_vx(3, 8);
    run(&mut m, 1);
    assert_eq!(m.cpu.get_pc(), 0x204);
    run(&mut m, 1);
    assert_eq!(m.cpu.get_pc(), 0x206);
    run(&mut m, 1);
    assert_eq!(m.cpu.get_pc(), 0x20A);
}

#[test]
fn load_index_and_jump_with_offset() {
    let mut m = machine_with(&[0xA1, 0x23, 0xB3, 0x00]);
    m.cpu.write_vx(0, 0x10);
    run(&mut m, 2);
    assert_eq!(m.cpu.get_i(), 0x123);
    assert_eq!(m.cpu.get_pc(), 0x310);
}

#[test]
fn random_is_masked_by_immediate() {
    let mut m = machine_with(&[0xC1, 0x0F]);
    assert_eq!(m.step_with(0xAB), Ok(()));
    assert_eq!(m.cpu.read_vx(1), 0x0B);
    assert_eq!(m.cpu.get_pc(), 0x202);
}

#[test]
fn random_from_generator_stays_under_mask() {
    for _ in 0..64 {
        let mut m = machine_with(&[0xC1, 0x0F]);
        assert_eq!(m.run_instruction(), Ok(()));
        assert!(m.cpu.read_vx(1) <= 0x0F);
        assert_eq!(m.cpu.get_pc(), 0x202);
    }
}

#[test]
fn run_instruction_executes_the_program() {
    let mut m = machine_with(&[0x61, 0x2A, 0x12, 0x00]);
    assert_eq!(m.run_instruction(), Ok(()));
    assert_eq!(m.cpu.read_vx(1), 0x2A);
    assert_eq!(m.run_instruction(), Ok(()));
    assert_eq!(m.cpu.get_pc(), 0x200);
}

#[test]
fn bcd_of_234() {
    let mut m = machine_with(&[0xA3, 0x00, 0xF1, 0x33]);
    m.cpu.write_vx(1, 234);
    run(&mut m, 2);
    assert_eq!(m.bus.ram_read_byte(0x300), Ok(2));
    assert_eq!(m.bus.ram_read_byte(0x301), Ok(3));
    assert_eq!(m.bus.ram_read_byte(0x302), Ok(4));
    assert_eq!(m.cpu.get_i(), 0x300);
    assert_eq!(m.cpu.get_pc(), 0x204);
}

#[test]
fn bcd_past_memory_is_out_of_bounds() {
    let mut m = machine_with(&[0xF1, 0x33]);
    m.cpu.set_i(4094);
    m.cpu.write_vx(1, 234);
    assert_eq!(m.step_with(0), Err(Chip8Error::OutOfBounds));
    assert_eq!(m.bus.ram_read_byte(4094), Ok(0));
    assert_eq!(m.cpu.get_pc(), 0x200);
}

#[test]
fn drawing_twice_clears_and_collides() {
    // I = glyph 0 of the font; draw 5 rows at (V1, V2) twice
    let mut m = machine_with(&[0xA0, 0x00, 0xD1, 0x25, 0xD1, 0x25]);
    m.cpu.write_vx(1, 10);
    m.cpu.write_vx(2, 4);
    run(&mut m, 2);
    assert_eq!(m.cpu.read_vx(0xF), 0);
    // first row of glyph 0 is 0xF0
    for col in 0..8usize {
        assert_eq!(m.bus.display.pixel(10 + col, 4), col < 4);
    }
    // second row is 0x90
    assert!(m.bus.display.pixel(10, 5));
    assert!(!m.bus.display.pixel(11, 5));
    assert!(m.bus.display.pixel(13, 5));
    run(&mut m, 1);
    assert_eq!(m.cpu.read_vx(0xF), 1);
    assert!(m.get_display_buffer().iter().all(|p| !*p));
    assert_eq!(m.cpu.get_pc(), 0x206);
}

#[test]
fn drawing_off_the_display_is_out_of_bounds() {
    let mut m = machine_with(&[0xD1, 0x25]);
    m.cpu.write_vx(1, 57);
    m.cpu.write_vx(2, 0);
    assert_eq!(m.step_with(0), Err(Chip8Error::OutOfBounds));
    let mut m = machine_with(&[0xD1, 0x25]);
    m.cpu.write_vx(1, 0);
    m.cpu.write_vx(2, 28);
    assert_eq!(m.step_with(0), Err(Chip8Error::OutOfBounds));
    assert!(m.get_display_buffer().iter().all(|p| !*p));
    let mut m = machine_with(&[0xD1, 0x25]);
    m.cpu.write_vx(1, 56);
    m.cpu.write_vx(2, 27);
    assert_eq!(m.step_with(0), Ok(()));
}

#[test]
fn drawing_no_rows_clears_the_flag() {
    let mut m = machine_with(&[0xD1, 0x20]);
    m.cpu.write_vx(1, 200);
    m.cpu.write_vx(0xF, 1);
    run(&mut m, 1);
    assert_eq!(m.cpu.read_vx(0xF), 0);
}

#[test]
fn clear_display_turns_pixels_off() {
    let mut m = machine_with(&[0xD1, 0x25, 0x00, 0xE0]);
    run(&mut m, 1);
    assert!(m.get_display_buffer().iter().any(|p| *p));
    run(&mut m, 1);
    assert!(m.get_display_buffer().iter().all(|p| !*p));
    assert_eq!(m.cpu.get_pc(), 0x204);
}

#[test]
fn dump_then_load_round_trip() {
    // I = 0x300; dump V0..=V3; I = 0x300; load V0..=V3
    let mut m = machine_with(&[0xA3, 0x00, 0xF3, 0x55, 0xA3, 0x00, 0xF3, 0x65]);
    for x in 0..5u8 {
        m.cpu.write_vx(x, 0x11 * (x + 1));
    }
    run(&mut m, 2);
    assert_eq!(m.cpu.get_i(), 0x304);
    for k in 0..4u16 {
        assert_eq!(m.bus.ram_read_byte(0x300 + k), Ok(0x11 * (k as u8 + 1)));
    }
    assert_eq!(m.bus.ram_read_byte(0x304), Ok(0));
    for x in 0..16u8 {
        m.cpu.write_vx(x, 0);
    }
    run(&mut m, 2);
    assert_eq!(m.cpu.get_i(), 0x304);
    for x in 0..4u8 {
        assert_eq!(m.cpu.read_vx(x), 0x11 * (x + 1));
    }
    assert_eq!(m.cpu.read_vx(4), 0);
}

#[test]
fn dump_past_memory_is_out_of_bounds() {
    let mut m = machine_with(&[0xF3, 0x55]);
    m.cpu.set_i(4093);
    m.cpu.write_vx(0, 9);
    assert_eq!(m.step_with(0), Err(Chip8Error::OutOfBounds));
    assert_eq!(m.bus.ram_read_byte(4093), Ok(0));
    assert_eq!(m.cpu.get_i(), 4093);
}

#[test]
fn jump_to_itself_stalls_on_the_next_step() {
    let mut m = machine_with(&[0x12, 0x00]);
    assert_eq!(m.step_with(0), Ok(()));
    assert_eq!(m.cpu.get_pc(), 0x200);
    assert_eq!(m.step_with(0), Err(Chip8Error::EngineStall));
    assert_eq!(m.run_instruction(), Err(Chip8Error::EngineStall));
}

#[test]
fn wait_for_key_repeats_until_a_key_is_down() {
    let mut m = machine_with(&[0xF1, 0x0A]);
    for _ in 0..3 {
        assert_eq!(m.step_with(0), Ok(()));
        assert_eq!(m.cpu.get_pc(), 0x200);
        assert!(m.cpu.is_awaiting_key());
    }
    assert_eq!(m.set_key_pressed(0xB, true), Ok(()));
    assert_eq!(m.set_key_pressed(0xC, true), Ok(()));
    assert_eq!(m.step_with(0), Ok(()));
    assert_eq!(m.cpu.read_vx(1), 0xB);
    assert_eq!(m.cpu.get_pc(), 0x202);
    assert!(!m.cpu.is_awaiting_key());
}

#[test]
fn skip_on_key_state() {
    let mut m = machine_with(&[0xE1, 0x9E, 0xE1, 0xA1, 0xE1, 0x9E]);
    m.cpu.write_vx(1, 5);
    run(&mut m, 1);
    assert_eq!(m.cpu.get_pc(), 0x202);
    run(&mut m, 1);
    assert_eq!(m.cpu.get_pc(), 0x206);
    let mut m = machine_with(&[0xE1, 0x9E]);
    m.cpu.write_vx(1, 5);
    assert_eq!(m.set_key_pressed(5, true), Ok(()));
    run(&mut m, 1);
    assert_eq!(m.cpu.get_pc(), 0x204);
}

#[test]
fn timers_are_read_and_written() {
    let mut m = machine_with(&[0xF1, 0x15, 0xF2, 0x18, 0xF3, 0x07]);
    m.cpu.write_vx(1, 60);
    m.cpu.write_vx(2, 30);
    run(&mut m, 2);
    assert_eq!(m.bus.get_delay_timer(), 60);
    assert_eq!(m.bus.get_sound_timer(), 30);
    m.bus.set_delay_timer(59);
    run(&mut m, 1);
    assert_eq!(m.cpu.read_vx(3), 59);
    assert_eq!(m.cpu.get_pc(), 0x206);
}

#[test]
fn add_to_index_and_font_address() {
    let mut m = machine_with(&[0xA0, 0x10, 0xF1, 0x1E, 0xF2, 0x29]);
    m.cpu.write_vx(1, 0x05);
    m.cpu.write_vx(2, 0x0A);
    run(&mut m, 2);
    assert_eq!(m.cpu.get_i(), 0x15);
    run(&mut m, 1);
    assert_eq!(m.cpu.get_i(), 50);
}

#[test]
fn add_to_index_wraps_at_sixteen_bits() {
    let mut m = machine_with(&[0xF1, 0x1E]);
    m.cpu.set_i(0xFFFF);
    m.cpu.write_vx(1, 2);
    m.cpu.write_vx(0xF, 0);
    run(&mut m, 1);
    assert_eq!(m.cpu.get_i(), 1);
    assert_eq!(m.cpu.read_vx(0xF), 0);
}

#[test]
fn fetch_past_memory_is_out_of_bounds() {
    let mut m = Chip8::new();
    m.cpu.set_pc(4095);
    assert_eq!(m.step_with(0), Err(Chip8Error::OutOfBounds));
    assert_eq!(m.cpu.fetch(&m.bus), Err(Chip8Error::OutOfBounds));
    m.cpu.set_pc(4094);
    assert_eq!(m.cpu.fetch(&m.bus), Ok(0));
}

#[test]
fn fetch_reads_high_byte_first() {
    let m = machine_with(&[0xAB, 0xCD]);
    assert_eq!(m.cpu.fetch(&m.bus), Ok(0xABCD));
}

#[test]
fn execute_does_not_look_at_the_previous_counter() {
    let mut m = Chip8::new();
    assert_eq!(m.cpu.execute(&mut m.bus, 0x1200, 0), Ok(()));
    assert_eq!(m.cpu.execute(&mut m.bus, 0x1200, 0), Ok(()));
    assert_eq!(m.cpu.get_pc(), 0x200);
}

#[test]
fn program_of_full_size_loads_and_one_more_byte_does_not() {
    let mut m = Chip8::new();
    let full = vec![0x5Au8; 3584];
    assert_eq!(m.load_rom(&full), Ok(()));
    assert_eq!(m.bus.ram_read_byte(0x200), Ok(0x5A));
    assert_eq!(m.bus.ram_read_byte(0xFFF), Ok(0x5A));
    assert_eq!(m.bus.ram_read_byte(0x1FF), Ok(0));
    let mut m = Chip8::new();
    let too_big = vec![0x5Au8; 3585];
    assert_eq!(m.load_rom(&too_big), Err(Chip8Error::OutOfBounds));
    assert_eq!(m.bus.ram_read_byte(0x200), Ok(0));
}

#[test]
fn standard_conventions_are_those_of_new() {
    let standard = Conventions::standard();
    assert_eq!(standard, Conventions { shift_reads_vy: false, flag_on_borrow: false });
    let mut a = machine_with(&[0x81, 0x25, 0x81, 0x26]);
    let mut b = machine_with_conventions(&[0x81, 0x25, 0x81, 0x26], standard);
    for m in [&mut a, &mut b] {
        m.cpu.write_vx(1, 9);
        m.cpu.write_vx(2, 4);
    }
    run(&mut a, 2);
    run(&mut b, 2);
    for x in 0..16u8 {
        assert_eq!(a.cpu.read_vx(x), b.cpu.read_vx(x));
    }
    assert_eq!(a.cpu.read_vx(1), 2);
    assert_eq!(a.cpu.read_vx(0xF), 1);
}

#[test]
fn flag_register_as_destination_keeps_the_flag() {
    // VF = VF + V1 with a carry: the flag, not the sum, stands in VF
    let mut m = machine_with(&[0x8F, 0x14]);
    m.cpu.write_vx(0xF, 0xFF);
    m.cpu.write_vx(1, 0x03);
    run(&mut m, 1);
    assert_eq!(m.cpu.read_vx(0xF), 1);
}

#[test]
fn failed_step_leaves_the_machine_as_it_was() {
    let mut m = machine_with(&[0x12, 0x02, 0xFF, 0xFF]);
    run(&mut m, 1);
    assert_eq!(
        m.step_with(0),
        Err(Chip8Error::InvalidOpcode { pc: 0x202, instruction: 0xFFFF })
    );
    // the guard still sees the counter of the step before the failed one
    m.cpu.set_pc(0x200);
    assert_eq!(m.step_with(0), Err(Chip8Error::EngineStall));
}
