use chip8::opcode::{decode_word, Operation};
use chip8::Chip8;

fn machine_with(program: &[u8]) -> Chip8 {
    let mut machine = Chip8::new();
    machine.load_rom(program).expect("the program fits");
    machine
}

fn run(machine: &mut Chip8, steps: usize) {
    for _ in 0..steps {
        machine.step().expect("the step can be taken");
    }
}

fn lit(machine: &Chip8) -> Vec<(usize, usize)> {
    let mut lit = Vec::new();
    for r in 0..32 {
        for c in 0..64 {
            if machine.display()[r][c] {
                lit.push((r, c));
            }
        }
    }
    lit
}

#[test]
fn draw_glyph_zero_at_origin() {
    // I = glyph 0, draw five rows at (0, 0).
    let mut machine = machine_with(&[0xA0, 0x50, 0xD0, 0x05]);
    run(&mut machine, 2);
    let rows: [u8; 5] = [0xF0, 0x90, 0x90, 0x90, 0xF0];
    for r in 0..32 {
        for c in 0..64 {
            let expected = r < 5 && c < 8 && rows[r] & (0x80 >> c) != 0;
            assert_eq!(machine.display()[r][c], expected, "row {r}, column {c}");
        }
    }
    assert_eq!(machine.registers()[0xF], 0);
}

#[test]
fn draw_twice_clears_and_reports_collision() {
    let mut machine = machine_with(&[0x60, 0x0A, 0x61, 0x05, 0xA0, 0x5A, 0xD0, 0x15, 0xD0, 0x15]);
    run(&mut machine, 4);
    assert_eq!(machine.registers()[0xF], 0);
    let touched = lit(&machine);
    assert_eq!(touched.len(), 14);
    assert!(touched.contains(&(5, 10)));
    run(&mut machine, 1);
    assert_eq!(machine.registers()[0xF], 1);
    assert!(lit(&machine).is_empty());
}

#[test]
fn draw_twice_on_lit_ground_restores_it() {
    // A full 8x1 bar is drawn, then the left half of it twice.
    let mut machine = machine_with(&[
        0xA2, 0x0C, 0xD0, 0x01, 0xA2, 0x0D, 0xD0, 0x01, 0xD0, 0x01, 0x00, 0x00, 0xFF, 0xF0,
    ]);
    run(&mut machine, 2);
    let ground = lit(&machine);
    assert_eq!(ground.len(), 8);
    run(&mut machine, 2);
    // Every pixel under the sprite was lit: all of them went off.
    assert_eq!(machine.registers()[0xF], 1);
    assert_eq!(lit(&machine), vec![(0, 4), (0, 5), (0, 6), (0, 7)]);
    run(&mut machine, 1);
    // The second draw lights them again and meets no lit pixel.
    assert_eq!(machine.registers()[0xF], 0);
    assert_eq!(lit(&machine), ground);
}

#[test]
fn draw_wraps_around_the_right_edge() {
    let mut machine = machine_with(&[0x60, 60, 0x61, 0, 0xA2, 0x08, 0xD0, 0x11, 0xFF]);
    run(&mut machine, 4);
    for r in 0..32 {
        for c in 0..64 {
            let expected = r == 0 && (c >= 60 || c <= 3);
            assert_eq!(machine.display()[r][c], expected, "row {r}, column {c}");
        }
    }
    assert_eq!(machine.registers()[0xF], 0);
}

#[test]
fn draw_wraps_around_the_bottom_edge() {
    let mut machine = machine_with(&[0x60, 0, 0x61, 30, 0xA2, 0x08, 0xD0, 0x14, 0x80, 0x40, 0x20, 0x10]);
    run(&mut machine, 4);
    assert_eq!(lit(&machine), vec![(0, 2), (1, 3), (30, 0), (31, 1)]);
}

#[test]
fn draw_takes_coordinates_modulo_the_display() {
    let mut machine = machine_with(&[0x60, 64 + 3, 0x61, 32 * 3 + 2, 0xA2, 0x08, 0xD0, 0x11, 0x81]);
    run(&mut machine, 4);
    assert_eq!(lit(&machine), vec![(2, 3), (2, 10)]);
}

#[test]
fn draw_collision_is_sticky_over_rows() {
    // First a single pixel at (0, 0); then a sprite of three rows whose first
    // row meets it and whose later rows meet nothing.
    let mut machine = machine_with(&[
        0xA2, 0x08, 0xD0, 0x01, 0xD0, 0x03, 0x00, 0x00, 0x80, 0x0F, 0x0F,
    ]);
    run(&mut machine, 2);
    assert_eq!(lit(&machine), vec![(0, 0)]);
    run(&mut machine, 1);
    assert_eq!(machine.registers()[0xF], 1);
    assert_eq!(lit(&machine).len(), 8);
    assert!(!machine.display()[0][0]);
}

#[test]
fn draw_resets_the_flag() {
    let mut machine = machine_with(&[0x6F, 0x01, 0xA2, 0x06, 0xD0, 0x01, 0x01]);
    run(&mut machine, 3);
    assert_eq!(machine.registers()[0xF], 0);
    assert_eq!(lit(&machine), vec![(0, 7)]);
}

#[test]
fn clear_display_turns_every_pixel_off() {
    let mut machine = machine_with(&[0xA0, 0x50, 0xD0, 0x05, 0x00, 0xE0]);
    run(&mut machine, 2);
    assert!(!lit(&machine).is_empty());
    run(&mut machine, 1);
    assert!(lit(&machine).is_empty());
}

#[test]
fn decode_follows_the_instruction_table() {
    let table = [
        (0x00E0u16, Operation::ClearDisplay),
        (0x00EE, Operation::Return),
        (0x1234, Operation::Jump),
        (0x2FFF, Operation::Call),
        (0x3A12, Operation::SkipIfEqualImmediate),
        (0x4A12, Operation::SkipIfNotEqualImmediate),
        (0x5AB0, Operation::SkipIfEqualRegister),
        (0x6A12, Operation::LoadImmediate),
        (0x7A12, Operation::AddImmediate),
        (0x8AB0, Operation::Copy),
        (0x8AB1, Operation::Or),
        (0x8AB2, Operation::And),
        (0x8AB3, Operation::Xor),
        (0x8AB4, Operation::Add),
        (0x8AB5, Operation::Subtract),
        (0x8AB6, Operation::ShiftRight),
        (0x8AB7, Operation::SubtractReversed),
        (0x8ABE, Operation::ShiftLeft),
        (0x9AB0, Operation::SkipIfNotEqualRegister),
        (0xA123, Operation::SetIndex),
        (0xB123, Operation::JumpOffset),
        (0xC1FF, Operation::Random),
        (0xD125, Operation::Draw),
        (0xE19E, Operation::SkipIfKey),
        (0xE1A1, Operation::SkipIfNotKey),
        (0xF107, Operation::ReadDelay),
        (0xF10A, Operation::WaitKey),
        (0xF115, Operation::SetDelay),
        (0xF118, Operation::SetSound),
        (0xF11E, Operation::AddIndex),
        (0xF129, Operation::FontGlyph),
        (0xF133, Operation::Decimal),
        (0xF155, Operation::DumpRegisters),
        (0xF165, Operation::LoadRegisters),
    ];
    for (word, operation) in table {
        assert_eq!(decode_word(word), operation, "word {word:#06x}");
    }
}

#[test]
fn decode_of_words_outside_the_table_is_unknown() {
    for word in [0x0000u16, 0x00E1, 0x0123, 0x5AB1, 0x8AB8, 0x8ABF, 0x9AB1, 0xE19F, 0xE1A2, 0xF108, 0xF1FF] {
        assert_eq!(decode_word(word), Operation::Unknown, "word {word:#06x}");
    }
}

#[test]
fn decode_is_total_and_matches_masks() {
    let mut known = 0u32;
    for word in 0..=u16::MAX {
        let operation = decode_word(word);
        if operation != Operation::Unknown {
            known += 1;
        }
        if word & 0xF000 == 0x1000 {
            assert_eq!(operation, Operation::Jump);
        }
        if word & 0xF00F == 0x8004 {
            assert_eq!(operation, Operation::Add);
        }
        if word & 0xF0FF == 0xF00A {
            assert_eq!(operation, Operation::WaitKey);
        }
    }
    // 2 single words, 10 whole families, 11 patterns that fix the low nibble
    // and 11 that fix the low byte.
    assert_eq!(known, 2 + 10 * 4096 + 11 * 256 + 11 * 16);
}
