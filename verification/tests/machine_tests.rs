use chip8::font::{font_table, FONT_START};
use chip8::{Chip8, Chip8Error};

/// A fresh machine with `program` loaded at the conventional start.
fn machine_with(program: &[u8]) -> Chip8 {
    let mut machine = Chip8::new();
    machine.load_rom(program).expect("the program fits");
    machine
}

/// Runs `steps` steps, each of which must succeed.
fn run(machine: &mut Chip8, steps: usize) {
    for _ in 0..steps {
        machine.step().expect("the step can be taken");
    }
}

fn lit_pixels(machine: &Chip8) -> Vec<(usize, usize)> {
    let mut lit = Vec::new();
    for r in 0..32 {
        for c in 0..64 {
            if machine.display()[r][c] {
                lit.push((r, c));
            }
        }
    }
    lit
}

#[test]
fn new_machine_is_zeroed_with_font() {
    let machine = Chip8::new();
    assert_eq!(machine.pc(), 0x200);
    assert_eq!(machine.index_register(), 0);
    assert_eq!(machine.delay_timer(), 0);
    assert_eq!(machine.sound_timer(), 0);
    assert_eq!(machine.registers(), &[0u8; 16]);
    assert!(lit_pixels(&machine).is_empty());
    let table = font_table();
    for addr in 0..4096usize {
        let expected = if (0x50..0xA0).contains(&addr) { table[addr - 0x50] } else { 0 };
        assert_eq!(machine.memory()[addr], expected, "address {addr:#x}");
    }
}

#[test]
fn font_table_holds_known_glyphs() {
    let table = font_table();
    assert_eq!(FONT_START, 0x50);
    assert_eq!(&table[0..5], &[0xF0, 0x90, 0x90, 0x90, 0xF0]);
    assert_eq!(&table[5..10], &[0x20, 0x60, 0x20, 0x20, 0x70]);
    assert_eq!(&table[35..40], &[0xF0, 0x10, 0x20, 0x40, 0x40]);
    assert_eq!(&table[75..80], &[0xF0, 0x80, 0xF0, 0x80, 0x80]);
}

#[test]
fn load_rom_copies_at_program_start() {
    let machine = machine_with(&[0x12, 0x34, 0x56]);
    assert_eq!(&machine.memory()[0x200..0x203], &[0x12, 0x34, 0x56]);
    assert_eq!(machine.memory()[0x1FF], 0);
    assert_eq!(machine.memory()[0x203], 0);
    assert_eq!(machine.memory()[0x50], 0xF0);
}

#[test]
fn load_rom_offset_copies_at_offset() {
    let mut machine = Chip8::new();
    assert_eq!(machine.load_rom_offset(&[1, 2, 3, 4], 0x300), Ok(()));
    assert_eq!(&machine.memory()[0x2FF..0x305], &[0, 1, 2, 3, 4, 0]);
}

#[test]
fn load_rom_offset_accepts_image_that_just_fits() {
    let mut machine = Chip8::new();
    let image = vec![0xAB; 4096 - 0x200];
    assert_eq!(machine.load_rom_offset(&image, 0x200), Ok(()));
    assert_eq!(machine.memory()[4095], 0xAB);
    let mut other = Chip8::new();
    assert_eq!(other.load_rom_offset(&[7], 4095), Ok(()));
    assert_eq!(other.memory()[4095], 7);
    assert_eq!(other.load_rom_offset(&[], 4096), Ok(()));
}

#[test]
fn load_rom_too_large_is_refused_without_a_trace() {
    let mut machine = Chip8::new();
    let image = vec![0xAB; 4096 - 0x200 + 1];
    assert_eq!(machine.load_rom(&image), Err(Chip8Error::ImageTooLarge));
    assert_eq!(machine.load_rom_offset(&[1, 2], 4095), Err(Chip8Error::ImageTooLarge));
    assert_eq!(machine.load_rom_offset(&[1], 0xFFFF), Err(Chip8Error::ImageTooLarge));
    let fresh = Chip8::new();
    assert_eq!(machine.memory(), fresh.memory());
}

#[test]
fn end_to_end_load_load_add() {
    let mut machine = machine_with(&[0x60, 0x05, 0x61, 0x03, 0x80, 0x14]);
    run(&mut machine, 3);
    assert_eq!(machine.registers()[0], 8);
    assert_eq!(machine.registers()[0xF], 0);
    assert_eq!(machine.pc(), 0x206);
}

#[test]
fn add_registers_carries() {
    let mut machine = machine_with(&[0x60, 200, 0x61, 100, 0x80, 0x14]);
    run(&mut machine, 3);
    assert_eq!(machine.registers()[0], 44);
    assert_eq!(machine.registers()[0xF], 1);
}

#[test]
fn add_registers_without_carry() {
    let mut machine = machine_with(&[0x60, 10, 0x61, 20, 0x80, 0x14]);
    run(&mut machine, 3);
    assert_eq!(machine.registers()[0], 30);
    assert_eq!(machine.registers()[0xF], 0);
}

#[test]
fn add_registers_sum_of_255_does_not_carry() {
    let mut machine = machine_with(&[0x60, 255, 0x61, 0, 0x80, 0x14, 0x62, 255, 0x63, 1, 0x82, 0x34]);
    run(&mut machine, 3);
    assert_eq!(machine.registers()[0], 255);
    assert_eq!(machine.registers()[0xF], 0);
    run(&mut machine, 3);
    assert_eq!(machine.registers()[2], 0);
    assert_eq!(machine.registers()[0xF], 1);
}

#[test]
fn add_into_flag_register_keeps_the_sum() {
    let mut machine = machine_with(&[0x6F, 200, 0x61, 100, 0x8F, 0x14]);
    run(&mut machine, 3);
    assert_eq!(machine.registers()[0xF], 44);
}

#[test]
fn subtract_with_borrow() {
    let mut machine = machine_with(&[0x60, 5, 0x61, 10, 0x80, 0x15]);
    run(&mut machine, 3);
    assert_eq!(machine.registers()[0], 251);
    assert_eq!(machine.registers()[0xF], 0);
}

#[test]
fn subtract_without_borrow() {
    let mut machine = machine_with(&[0x60, 10, 0x61, 5, 0x80, 0x15]);
    run(&mut machine, 3);
    assert_eq!(machine.registers()[0], 5);
    assert_eq!(machine.registers()[0xF], 1);
}

#[test]
fn subtract_equal_values_does_not_borrow() {
    let mut machine = machine_with(&[0x60, 7, 0x61, 7, 0x80, 0x15]);
    run(&mut machine, 3);
    assert_eq!(machine.registers()[0], 0);
    assert_eq!(machine.registers()[0xF], 1);
}

#[test]
fn subtract_reversed() {
    let mut machine = machine_with(&[0x60, 5, 0x61, 10, 0x80, 0x17, 0x62, 10, 0x63, 5, 0x82, 0x37]);
    run(&mut machine, 3);
    assert_eq!(machine.registers()[0], 5);
    assert_eq!(machine.registers()[0xF], 1);
    run(&mut machine, 3);
    assert_eq!(machine.registers()[2], 251);
    assert_eq!(machine.registers()[0xF], 0);
}

#[test]
fn subtract_reads_the_flag_register_after_it_was_set() {
    // V0 = 5, VF = 3: the flag becomes 1 (5 >= 3), then V0 = 5 - 1.
    let mut machine = machine_with(&[0x60, 5, 0x6F, 3, 0x80, 0xF5]);
    run(&mut machine, 3);
    assert_eq!(machine.registers()[0xF], 1);
    assert_eq!(machine.registers()[0], 4);
}

#[test]
fn load_copy_and_add_immediate() {
    let mut machine = machine_with(&[0x63, 0xFE, 0x73, 0x05, 0x84, 0x30]);
    run(&mut machine, 3);
    assert_eq!(machine.registers()[3], 3);
    assert_eq!(machine.registers()[4], 3);
    assert_eq!(machine.registers()[0xF], 0);
}

#[test]
fn bitwise_operations() {
    let mut machine = machine_with(&[
        0x60, 0b1100, 0x61, 0b1010, 0x62, 0b1100, 0x63, 0b1100, 0x80, 0x11, 0x82, 0x12, 0x83, 0x13,
    ]);
    run(&mut machine, 7);
    assert_eq!(machine.registers()[0], 0b1110);
    assert_eq!(machine.registers()[2], 0b1000);
    assert_eq!(machine.registers()[3], 0b0110);
}

#[test]
fn shift_right_sets_flag_to_lowest_bit() {
    let mut machine = machine_with(&[0x60, 0b0000_0101, 0x80, 0x06, 0x80, 0x06]);
    run(&mut machine, 2);
    assert_eq!(machine.registers()[0], 0b0000_0010);
    assert_eq!(machine.registers()[0xF], 1);
    run(&mut machine, 1);
    assert_eq!(machine.registers()[0], 0b0000_0001);
    assert_eq!(machine.registers()[0xF], 0);
}

#[test]
fn shift_left_sets_flag_to_highest_bit() {
    let mut machine = machine_with(&[0x60, 0b1100_0001, 0x80, 0x0E, 0x80, 0x0E, 0x80, 0x0E]);
    run(&mut machine, 2);
    assert_eq!(machine.registers()[0], 0b1000_0010);
    assert_eq!(machine.registers()[0xF], 1);
    run(&mut machine, 1);
    assert_eq!(machine.registers()[0], 0b0000_0100);
    assert_eq!(machine.registers()[0xF], 1);
    run(&mut machine, 1);
    assert_eq!(machine.registers()[0], 0b0000_1000);
    assert_eq!(machine.registers()[0xF], 0);
}

#[test]
fn shift_of_the_flag_register_acts_on_the_flag() {
    // VF = 0b11: the flag takes the low bit 1, which is then halved to 0.
    let mut machine = machine_with(&[0x6F, 0b11, 0x8F, 0x06, 0x6F, 0x81, 0x8F, 0x0E]);
    run(&mut machine, 2);
    assert_eq!(machine.registers()[0xF], 0);
    run(&mut machine, 2);
    assert_eq!(machine.registers()[0xF], 2);
}

#[test]
fn jump_sets_program_counter() {
    let mut machine = machine_with(&[0x1A, 0xBC]);
    run(&mut machine, 1);
    assert_eq!(machine.pc(), 0xABC);
}

#[test]
fn jump_offset_adds_register_zero() {
    let mut machine = machine_with(&[0x60, 0x10, 0xB3, 0x00]);
    run(&mut machine, 2);
    assert_eq!(machine.pc(), 0x310);
}

#[test]
fn call_and_return() {
    // 0x200: call 0x206; 0x202: V1 = 1; 0x206: V0 = 9; 0x208: return.
    let mut machine = machine_with(&[0x22, 0x06, 0x61, 0x01, 0x00, 0x00, 0x60, 0x09, 0x00, 0xEE]);
    run(&mut machine, 1);
    assert_eq!(machine.pc(), 0x206);
    run(&mut machine, 2);
    assert_eq!(machine.pc(), 0x202);
    assert_eq!(machine.registers()[0], 9);
    run(&mut machine, 1);
    assert_eq!(machine.registers()[1], 1);
}

#[test]
fn stack_is_a_ring_of_sixteen() {
    // 0x200: call 0x200, over and over: seventeen calls fill the ring and
    // overwrite slot 0. Then 0x00EE jumps back to what a call stored.
    let mut machine = machine_with(&[0x22, 0x00]);
    run(&mut machine, 17);
    assert_eq!(machine.pc(), 0x200);
    machine.load_rom(&[0x00, 0xEE]).unwrap();
    run(&mut machine, 1);
    assert_eq!(machine.pc(), 0x202);
}

#[test]
fn return_on_empty_stack_wraps_to_last_slot() {
    let mut machine = machine_with(&[0x00, 0xEE]);
    run(&mut machine, 1);
    // Slot 15 of a fresh stack holds address 0.
    assert_eq!(machine.pc(), 0);
    // A call now fills slot 15, and the stack pointer is back at slot 0.
    machine.load_rom_offset(&[0x23, 0x00], 0).unwrap();
    machine.load_rom_offset(&[0x00, 0xEE], 0x300).unwrap();
    run(&mut machine, 2);
    assert_eq!(machine.pc(), 2);
}

#[test]
fn skip_if_equal_immediate() {
    let mut machine = machine_with(&[0x60, 0x42, 0x30, 0x42, 0x00, 0x00, 0x30, 0x43]);
    run(&mut machine, 2);
    assert_eq!(machine.pc(), 0x206);
    run(&mut machine, 1);
    assert_eq!(machine.pc(), 0x208);
}

#[test]
fn skip_if_not_equal_immediate() {
    let mut machine = machine_with(&[0x60, 0x42, 0x40, 0x43, 0x00, 0x00, 0x40, 0x42]);
    run(&mut machine, 2);
    assert_eq!(machine.pc(), 0x206);
    run(&mut machine, 1);
    assert_eq!(machine.pc(), 0x208);
}

#[test]
fn skip_if_registers_equal_or_not() {
    let mut machine = machine_with(&[
        0x60, 0x07, 0x61, 0x07, 0x50, 0x10, 0x00, 0x00, 0x90, 0x10, 0x62, 0x08, 0x90, 0x20,
    ]);
    run(&mut machine, 3);
    assert_eq!(machine.pc(), 0x208);
    run(&mut machine, 1);
    assert_eq!(machine.pc(), 0x20A);
    run(&mut machine, 2);
    assert_eq!(machine.pc(), 0x210);
}

#[test]
fn set_and_add_index() {
    let mut machine = machine_with(&[0xA1, 0x23, 0x60, 0x10, 0xF0, 0x1E]);
    run(&mut machine, 1);
    assert_eq!(machine.index_register(), 0x123);
    run(&mut machine, 2);
    assert_eq!(machine.index_register(), 0x133);
}

#[test]
fn add_index_wraps_at_sixteen_bits() {
    // The index register climbs by 255 per step until it passes 0xFFFF.
    let mut machine = machine_with(&[0x60, 0xFF, 0xAF, 0xFF, 0xF0, 0x1E, 0x12, 0x04]);
    run(&mut machine, 2);
    let mut expected: u16 = 0x0FFF;
    for _ in 0..300 {
        run(&mut machine, 2);
        expected = expected.wrapping_add(0xFF);
        assert_eq!(machine.index_register(), expected);
    }
    // 0x0FFF + 300 * 0xFF = 80595, which is 15059 beyond 65536.
    assert_eq!(expected, 15059);
}

#[test]
fn font_glyph_address_for_every_digit() {
    for digit in 0..16u8 {
        let mut machine = machine_with(&[0x60, digit, 0xF0, 0x29]);
        run(&mut machine, 2);
        assert_eq!(machine.index_register(), 0x50 + 5 * digit as u16);
        let at = machine.index_register() as usize;
        let table = font_table();
        let from = 5 * digit as usize;
        assert_eq!(&machine.memory()[at..at + 5], &table[from..from + 5]);
    }
}

#[test]
fn font_glyph_uses_low_four_bits() {
    let mut machine = machine_with(&[0x60, 0xA7, 0xF0, 0x29]);
    run(&mut machine, 2);
    assert_eq!(machine.index_register(), 0x50 + 5 * 7);
}

#[test]
fn decimal_digits_of_255() {
    let mut machine = machine_with(&[0x60, 255, 0xA3, 0x00, 0xF0, 0x33]);
    run(&mut machine, 3);
    assert_eq!(&machine.memory()[0x300..0x303], &[2, 5, 5]);
    assert_eq!(machine.index_register(), 0x300);
}

#[test]
fn decimal_digits_of_small_values() {
    let mut machine = machine_with(&[0x60, 7, 0xA3, 0x00, 0xF0, 0x33, 0x60, 104, 0xF0, 0x33]);
    run(&mut machine, 3);
    assert_eq!(&machine.memory()[0x300..0x303], &[0, 0, 7]);
    run(&mut machine, 2);
    assert_eq!(&machine.memory()[0x300..0x303], &[1, 0, 4]);
}

#[test]
fn dump_and_load_registers() {
    let mut machine = machine_with(&[
        0x60, 0x11, 0x61, 0x22, 0x62, 0x33, 0x63, 0x44, 0xA3, 0x00, 0xF2, 0x55, 0x60, 0x00, 0x61,
        0x00, 0x62, 0x00, 0x63, 0x00, 0xF1, 0x65,
    ]);
    run(&mut machine, 6);
    assert_eq!(&machine.memory()[0x300..0x304], &[0x11, 0x22, 0x33, 0]);
    assert_eq!(machine.index_register(), 0x300);
    run(&mut machine, 5);
    assert_eq!(&machine.registers()[0..4], &[0x11, 0x22, 0, 0]);
}

#[test]
fn timers_count_down_once_per_step_and_stop_at_zero() {
    let mut machine = machine_with(&[0x60, 3, 0xF0, 0x15, 0x61, 2, 0xF1, 0x18, 0xF2, 0x07]);
    run(&mut machine, 2);
    // Set to 3 and counted down in the same step.
    assert_eq!(machine.delay_timer(), 2);
    run(&mut machine, 2);
    assert_eq!(machine.delay_timer(), 0);
    assert_eq!(machine.sound_timer(), 1);
    run(&mut machine, 1);
    assert_eq!(machine.registers()[2], 0);
    assert_eq!(machine.delay_timer(), 0);
    assert_eq!(machine.sound_timer(), 0);
    run(&mut machine, 1);
    assert_eq!(machine.delay_timer(), 0);
    assert_eq!(machine.sound_timer(), 0);
}

#[test]
fn read_delay_timer() {
    let mut machine = machine_with(&[0x60, 9, 0xF0, 0x15, 0xF1, 0x07]);
    run(&mut machine, 3);
    assert_eq!(machine.registers()[1], 8);
    assert_eq!(machine.delay_timer(), 7);
}

#[test]
fn unknown_words_do_nothing() {
    for word in [[0x00u8, 0x00], [0x01, 0x23], [0x50, 0x01], [0x80, 0x08], [0x90, 0x0F], [0xE0, 0x00], [0xF0, 0xFF]] {
        let mut machine = machine_with(&word);
        run(&mut machine, 1);
        assert_eq!(machine.pc(), 0x202);
        assert_eq!(machine.registers(), &[0u8; 16]);
        assert_eq!(machine.index_register(), 0);
        assert!(lit_pixels(&machine).is_empty());
    }
}

#[test]
fn skip_if_key_pressed_or_not() {
    let mut keys = [false; 16];
    keys[0xA] = true;
    let mut machine = machine_with(&[0x60, 0x0A, 0xE0, 0x9E, 0x00, 0x00, 0xE0, 0xA1, 0x61, 0x03, 0xE1, 0xA1]);
    machine.update_keys(keys);
    run(&mut machine, 2);
    assert_eq!(machine.pc(), 0x206);
    run(&mut machine, 1);
    assert_eq!(machine.pc(), 0x208);
    run(&mut machine, 2);
    assert_eq!(machine.pc(), 0x20E);
}

#[test]
fn key_index_uses_low_four_bits() {
    let mut keys = [false; 16];
    keys[0x3] = true;
    let mut machine = machine_with(&[0x60, 0xF3, 0xE0, 0x9E]);
    machine.update_keys(keys);
    run(&mut machine, 2);
    assert_eq!(machine.pc(), 0x206);
}

#[test]
fn wait_for_key_blocks_until_a_key_is_down() {
    let mut machine = machine_with(&[0xF4, 0x0A]);
    for _ in 0..5 {
        run(&mut machine, 1);
        assert_eq!(machine.pc(), 0x200);
        assert_eq!(machine.registers(), &[0u8; 16]);
    }
    let mut keys = [false; 16];
    keys[7] = true;
    machine.update_keys(keys);
    run(&mut machine, 1);
    assert_eq!(machine.registers()[4], 7);
    assert_eq!(machine.pc(), 0x202);
}

#[test]
fn wait_for_key_takes_the_lowest_key() {
    let mut keys = [false; 16];
    keys[12] = true;
    keys[5] = true;
    keys[15] = true;
    let mut machine = machine_with(&[0xF1, 0x0A, 0xF2, 0x0A]);
    machine.update_keys(keys);
    run(&mut machine, 1);
    assert_eq!(machine.registers()[1], 5);
    let mut only_last = [false; 16];
    only_last[15] = true;
    machine.update_keys(only_last);
    run(&mut machine, 1);
    assert_eq!(machine.registers()[2], 15);
    assert_eq!(machine.pc(), 0x204);
}

#[test]
fn wait_for_key_sees_key_zero() {
    let mut keys = [false; 16];
    keys[0] = true;
    let mut machine = machine_with(&[0x63, 0x09, 0xF3, 0x0A]);
    machine.update_keys(keys);
    run(&mut machine, 2);
    assert_eq!(machine.registers()[3], 0);
    assert_eq!(machine.pc(), 0x204);
}

#[test]
fn timers_run_while_waiting_for_a_key() {
    let mut machine = machine_with(&[0x60, 5, 0xF0, 0x15, 0xF1, 0x0A]);
    run(&mut machine, 4);
    assert_eq!(machine.pc(), 0x204);
    assert_eq!(machine.delay_timer(), 2);
}

#[test]
fn random_byte_is_masked() {
    let mut machine = machine_with(&[0xC0, 0x0F, 0xC1, 0xF0, 0xC2, 0xFF]);
    assert_eq!(machine.step_with(0xAB), Ok(()));
    assert_eq!(machine.registers()[0], 0x0B);
    assert_eq!(machine.step_with(0xAB), Ok(()));
    assert_eq!(machine.registers()[1], 0xA0);
    assert_eq!(machine.step_with(0xAB), Ok(()));
    assert_eq!(machine.registers()[2], 0xAB);
    assert_eq!(machine.pc(), 0x206);
}

#[test]
fn random_instruction_draws_from_the_generator() {
    let mut program = Vec::new();
    for _ in 0..64 {
        program.extend_from_slice(&[0xC0, 0x0F, 0x70, 0x00]);
    }
    let mut machine = machine_with(&program);
    let mut seen = [false; 16];
    for _ in 0..64 {
        run(&mut machine, 1);
        let value = machine.registers()[0];
        assert!(value <= 0x0F);
        seen[value as usize] = true;
        run(&mut machine, 1);
    }
    assert!(seen.iter().filter(|&&s| s).count() > 1);
}

#[test]
fn random_with_zero_mask_is_zero() {
    let mut machine = machine_with(&[0x60, 0x55, 0xC0, 0x00]);
    run(&mut machine, 2);
    assert_eq!(machine.registers()[0], 0);
}

#[test]
fn op_cxkk_handles_the_word_fetched_last() {
    let mut machine = machine_with(&[0xC3, 0x3C, 0x00, 0x00]);
    machine.step_with(0xFF).unwrap();
    assert_eq!(machine.registers()[3], 0x3C);
    // The word fetched last is still C33C.
    machine.op_cxkk_with(0x0F);
    assert_eq!(machine.registers()[3], 0x0C);
    for _ in 0..32 {
        machine.op_cxkk();
        assert_eq!(machine.registers()[3] & !0x3C, 0);
    }
}

#[test]
fn steps_are_repeatable() {
    let program = [
        0x60, 0x0C, 0x61, 0x09, 0xA0, 0x50, 0xD0, 0x15, 0xC2, 0xFF, 0x80, 0x24, 0xF0, 0x33, 0x70,
        0x07, 0xD0, 0x15, 0x12, 0x08,
    ];
    let mut first = machine_with(&program);
    let mut second = machine_with(&program);
    let mut keys = [false; 16];
    for step in 0..200u32 {
        keys[(step % 16) as usize] = step % 3 == 0;
        let random = (step * 37 % 256) as u8;
        first.update_keys(keys);
        second.update_keys(keys);
        assert_eq!(first.step_with(random), second.step_with(random));
        assert_eq!(first.registers(), second.registers());
        assert_eq!(first.display(), second.display());
        assert_eq!(first.memory(), second.memory());
        assert_eq!(first.pc(), second.pc());
        assert_eq!(first.index_register(), second.index_register());
    }
}

#[test]
fn step_without_random_instruction_equals_step_with_any_byte() {
    let program = [0x60, 0x0C, 0x61, 0x09, 0xA0, 0x50, 0xD0, 0x15, 0x80, 0x14, 0x12, 0x06];
    let mut plain = machine_with(&program);
    let mut scripted = machine_with(&program);
    for step in 0..50u8 {
        assert_eq!(plain.step(), scripted.step_with(step.wrapping_mul(91)));
        assert_eq!(plain.registers(), scripted.registers());
        assert_eq!(plain.display(), scripted.display());
        assert_eq!(plain.pc(), scripted.pc());
    }
}

#[test]
fn step_at_end_of_memory_is_refused() {
    let mut machine = machine_with(&[0x1F, 0xFF]);
    run(&mut machine, 1);
    assert_eq!(machine.pc(), 0xFFF);
    assert_eq!(machine.step(), Err(Chip8Error::ProgramCounterOutOfBounds));
    assert_eq!(machine.step_with(3), Err(Chip8Error::ProgramCounterOutOfBounds));
    assert_eq!(machine.pc(), 0xFFF);
}

#[test]
fn step_at_last_whole_word_is_taken() {
    let mut machine = Chip8::new();
    machine.load_rom(&[0x1F, 0xFE]).unwrap();
    machine.load_rom_offset(&[0x65, 0x2A], 0xFFE).unwrap();
    run(&mut machine, 2);
    assert_eq!(machine.registers()[5], 0x2A);
    assert_eq!(machine.pc(), 0x1000);
    assert_eq!(machine.step(), Err(Chip8Error::ProgramCounterOutOfBounds));
}

#[test]
fn jump_offset_past_memory_is_refused_at_the_next_step() {
    let mut machine = machine_with(&[0x60, 0xFF, 0xBF, 0xFF]);
    run(&mut machine, 2);
    assert_eq!(machine.pc(), 0xFFF + 0xFF);
    assert_eq!(machine.step(), Err(Chip8Error::ProgramCounterOutOfBounds));
}

#[test]
fn decimal_past_memory_is_refused_without_a_trace() {
    let mut machine = machine_with(&[0x60, 123, 0x61, 4, 0xF1, 0x15, 0xAF, 0xFE, 0xF0, 0x33]);
    run(&mut machine, 4);
    let memory = *machine.memory();
    assert_eq!(machine.delay_timer(), 2);
    assert_eq!(machine.step(), Err(Chip8Error::MemoryOutOfBounds));
    assert_eq!(machine.pc(), 0x208);
    assert_eq!(machine.delay_timer(), 2);
    assert_eq!(machine.memory(), &memory);
    assert_eq!(machine.op_fx33(), Err(Chip8Error::MemoryOutOfBounds));
}

#[test]
fn decimal_at_last_three_cells_is_written() {
    let mut machine = machine_with(&[0x60, 198, 0xAF, 0xFD, 0xF0, 0x33]);
    run(&mut machine, 3);
    assert_eq!(&machine.memory()[0xFFD..0x1000], &[1, 9, 8]);
}

#[test]
fn register_block_past_memory_is_refused() {
    let mut machine = machine_with(&[0xAF, 0xFE, 0xF2, 0x55]);
    run(&mut machine, 1);
    assert_eq!(machine.step(), Err(Chip8Error::MemoryOutOfBounds));
    assert_eq!(machine.pc(), 0x202);
    machine.load_rom(&[0xAF, 0xFE, 0xF2, 0x65]).unwrap();
    assert_eq!(machine.step(), Err(Chip8Error::MemoryOutOfBounds));
    machine.load_rom(&[0xAF, 0xFE, 0xF1, 0x65]).unwrap();
    assert_eq!(machine.step(), Ok(()));
    assert_eq!(machine.pc(), 0x204);
}

#[test]
fn sprite_past_memory_is_refused_without_a_trace() {
    let mut machine = machine_with(&[0xAF, 0xFE, 0xD0, 0x03]);
    run(&mut machine, 1);
    assert_eq!(machine.step(), Err(Chip8Error::MemoryOutOfBounds));
    assert_eq!(machine.pc(), 0x202);
    assert!(lit_pixels(&machine).is_empty());
    machine.load_rom(&[0xAF, 0xFE, 0xD0, 0x02]).unwrap();
    assert_eq!(machine.step(), Ok(()));
}

#[test]
fn empty_sprite_draws_nothing_anywhere() {
    let mut machine = machine_with(&[0x60, 0xFF, 0xAF, 0xFF, 0xF0, 0x1E, 0xF0, 0x1E, 0x6F, 0x09, 0xD0, 0x00]);
    run(&mut machine, 6);
    assert_eq!(machine.index_register(), 0xFFF + 2 * 0xFF);
    assert!(lit_pixels(&machine).is_empty());
    assert_eq!(machine.registers()[0xF], 0);
}
