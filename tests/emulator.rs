use chip8::emulator::{Chip8, KeyMapValue};
use chip8::instruction::Instruction;
use chip8::model::{Chip8Error, ShiftQuirk, FONT, PIXEL_ON};

fn machine_with(program: &[u8]) -> Chip8 {
    let mut em = Chip8::new();
    em.load_rom(program).unwrap();
    em
}

fn steps(em: &mut Chip8, count: usize) {
    for _ in 0..count {
        em.step(0).unwrap();
    }
}

fn cell(em: &Chip8, row: usize, col: usize) -> u32 {
    em.get_display()[row * 64 + col]
}

#[test]
fn loads_font_data() {
    let em = Chip8::new();

    let mut idx = 0x50;

    for _ in 0..80 {
        assert_ne!(em.memory()[idx], 0);
        idx += 1;
    }
}

#[test]
fn font_table_in_place_after_construction() {
    let em = Chip8::new();
    assert_eq!(&em.memory()[0x50..0xA0], &FONT[..]);
    assert_eq!(em.memory()[0x50], 0xF0);
    assert_eq!(em.memory()[0x9F], 0x80);
    assert_eq!(em.memory()[0x4F], 0);
    assert_eq!(em.memory()[0xA0], 0);
    assert_eq!(em.pc(), 0x200);
}

#[test]
fn font_survives_loading_and_running() {
    // V0 = 0x12, I = 0x300, store V0..V0 there, BCD of V0 there.
    let mut em = machine_with(&[0x60, 0x12, 0xA3, 0x00, 0xF0, 0x55, 0xF0, 0x33]);
    steps(&mut em, 4);
    em.decrement_timers();
    assert_eq!(&em.memory()[0x50..0xA0], &FONT[..]);
}

#[test]
fn load_copies_program_bytes() {
    let program = [0x12, 0x34, 0x56, 0x78, 0x9A];
    let em = machine_with(&program);
    assert_eq!(&em.memory()[0x200..0x205], &program[..]);
    assert_eq!(em.memory()[0x205], 0);
    assert_eq!(em.memory()[0x1FF], 0);
}

#[test]
fn load_accepts_largest_program() {
    let program = vec![0xAB; 4096 - 0x200];
    let em = machine_with(&program);
    assert_eq!(em.memory()[0x200], 0xAB);
    assert_eq!(em.memory()[4095], 0xAB);
}

#[test]
fn load_refuses_oversized_program() {
    let mut em = machine_with(&[0x11, 0x22]);
    let before = em.memory().to_vec();
    let program = vec![0xAB; 4096 - 0x200 + 1];
    assert_eq!(em.load_rom(&program), Err(Chip8Error::LoadError));
    assert_eq!(em.memory().to_vec(), before);
}

#[test]
fn scenario_set_register_one_step() {
    let mut em = machine_with(&[0x60, 0x05]);
    em.step(0).unwrap();
    assert_eq!(em.register(0), 5);
    assert_eq!(em.pc(), 0x202);
}

#[test]
fn set_immediate_touches_only_its_register() {
    // V1 = 0xFF + 0x01 sets VF = 1; then V3 = 0x42.
    let mut em = machine_with(&[0x61, 0xFF, 0x62, 0x01, 0x81, 0x24, 0x63, 0x42]);
    steps(&mut em, 3);
    let before: Vec<u8> = (0..16).map(|k| em.register(k)).collect();
    em.step(0).unwrap();
    for k in 0..16 {
        if k == 3 {
            assert_eq!(em.register(k), 0x42);
        } else {
            assert_eq!(em.register(k), before[k]);
        }
    }
    assert_eq!(em.register(15), 1);
}

#[test]
fn add_immediate_wraps_and_keeps_flag() {
    // V1 = 0xFF + 0x01 sets VF = 1; V2 = 0xF0; V2 += 0x20.
    let mut em = machine_with(&[0x61, 0xFF, 0x62, 0x01, 0x81, 0x24, 0x62, 0xF0, 0x72, 0x20]);
    steps(&mut em, 5);
    assert_eq!(em.register(2), 0x10);
    assert_eq!(em.register(15), 1);
}

#[test]
fn add_registers_carry() {
    let cases: [(u8, u8, u8, u8); 4] = [(200, 100, 44, 1), (1, 2, 3, 0), (255, 1, 0, 1), (128, 127, 255, 0)];
    for (a, b, sum, flag) in cases {
        let mut em = machine_with(&[0x60, a, 0x61, b, 0x80, 0x14]);
        steps(&mut em, 3);
        assert_eq!(em.register(0), sum);
        assert_eq!(em.register(15), flag);
    }
}

#[test]
fn sub_registers_borrow() {
    let cases: [(u8, u8, u8, u8); 4] = [(5, 10, 251, 0), (10, 5, 5, 1), (7, 7, 0, 1), (0, 255, 1, 0)];
    for (a, b, diff, flag) in cases {
        let mut em = machine_with(&[0x60, a, 0x61, b, 0x80, 0x15]);
        steps(&mut em, 3);
        assert_eq!(em.register(0), diff);
        assert_eq!(em.register(15), flag);
    }
}

#[test]
fn sub_reverse_borrow() {
    let mut em = machine_with(&[0x60, 10, 0x61, 3, 0x80, 0x17]);
    steps(&mut em, 3);
    assert_eq!(em.register(0), 249);
    assert_eq!(em.register(15), 0);
}

#[test]
fn flag_register_as_target_keeps_flag() {
    // VF = 200, V1 = 100, VF += V1: the carry overwrites the sum.
    let mut em = machine_with(&[0x6F, 200, 0x61, 100, 0x8F, 0x14]);
    steps(&mut em, 3);
    assert_eq!(em.register(15), 1);
}

#[test]
fn logic_operations() {
    let mut em = machine_with(&[
        0x60, 0b1100, 0x61, 0b1010, 0x80, 0x11, 0x62, 0b1100, 0x82, 0x12, 0x63, 0b1100, 0x83, 0x13, 0x84, 0x10,
    ]);
    steps(&mut em, 8);
    assert_eq!(em.register(0), 0b1110);
    assert_eq!(em.register(2), 0b1000);
    assert_eq!(em.register(3), 0b0110);
    assert_eq!(em.register(4), 0b1010);
}

#[test]
fn shifts_read_vy_by_default() {
    let mut em = machine_with(&[0x61, 0x81, 0x80, 0x16, 0x82, 0x1E]);
    steps(&mut em, 2);
    assert_eq!(em.register(0), 0x40);
    assert_eq!(em.register(15), 1);
    em.step(0).unwrap();
    assert_eq!(em.register(2), 0x02);
    assert_eq!(em.register(15), 1);
}

#[test]
fn shifts_in_place_when_selected() {
    let mut em = machine_with(&[0x60, 0x06, 0x61, 0x81, 0x80, 0x16]);
    em.set_shift_quirk(ShiftQuirk::InPlace);
    steps(&mut em, 3);
    assert_eq!(em.register(0), 0x03);
    assert_eq!(em.register(15), 0);
}

#[test]
fn call_then_return_restores_pc_and_depth() {
    // 0x200: call 0x300; 0x300: return.
    let mut program = vec![0u8; 0x102];
    program[0] = 0x23;
    program[1] = 0x00;
    program[0x100] = 0x00;
    program[0x101] = 0xEE;
    let mut em = machine_with(&program);
    em.step(0).unwrap();
    assert_eq!(em.pc(), 0x300);
    assert_eq!(em.stack_depth(), 1);
    em.step(0).unwrap();
    assert_eq!(em.pc(), 0x202);
    assert_eq!(em.stack_depth(), 0);
}

#[test]
fn seventeenth_call_overflows() {
    // Each call jumps to the next instruction, which is another call.
    let mut program = Vec::new();
    for k in 0..17u16 {
        let target = 0x202 + 2 * k;
        program.push(0x20 | (target >> 8) as u8);
        program.push((target & 0xFF) as u8);
    }
    let mut em = machine_with(&program);
    for depth in 1..=16 {
        em.step(0).unwrap();
        assert_eq!(em.stack_depth(), depth);
    }
    let pc = em.pc();
    assert_eq!(em.step(0), Err(Chip8Error::StackOverflow));
    assert_eq!(em.stack_depth(), 16);
    assert_eq!(em.pc(), pc);
}

#[test]
fn return_on_empty_stack_underflows() {
    let mut em = machine_with(&[0x00, 0xEE]);
    assert_eq!(em.step(0), Err(Chip8Error::StackUnderflow));
    assert_eq!(em.pc(), 0x200);
    assert_eq!(em.stack_depth(), 0);
}

#[test]
fn scenario_draw_sprite_at_origin() {
    let sprite = [0b1111_0000, 0b1001_0000, 0b0110_0110, 0b1000_0001, 0b1111_1111];
    let mut program = vec![0u8; 0x39];
    program[..4].copy_from_slice(&[0xA2, 0x34, 0xD0, 0x05]);
    program[0x34..0x39].copy_from_slice(&sprite);
    let mut em = machine_with(&program);
    steps(&mut em, 2);
    for row in 0..5 {
        for col in 0..8 {
            let lit = sprite[row] & (0x80 >> col) != 0;
            assert_eq!(cell(&em, row, col), if lit { PIXEL_ON } else { 0 });
        }
    }
    assert_eq!(em.register(15), 0);
    assert_eq!(em.get_display().iter().filter(|c| **c != 0).count(), 20);
}

#[test]
fn drawing_twice_clears_and_collides() {
    // I = font glyph 0; draw it twice at (V0, V1) = (10, 5).
    let mut em = machine_with(&[0x60, 10, 0x61, 5, 0xA0, 0x50, 0xD0, 0x15, 0xD0, 0x15]);
    steps(&mut em, 4);
    assert_eq!(em.register(15), 0);
    assert_eq!(cell(&em, 5, 10), PIXEL_ON);
    assert_eq!(em.get_display().iter().filter(|c| **c != 0).count(), 14);
    em.step(0).unwrap();
    assert_eq!(em.register(15), 1);
    assert!(em.get_display().iter().all(|c| *c == 0));
}

#[test]
fn disjoint_sprites_do_not_collide() {
    // Glyph 1 at (0, 0), then glyph 1 at (8, 0).
    let mut em = machine_with(&[0xA0, 0x55, 0x60, 0, 0x61, 0, 0xD0, 0x15, 0x60, 8, 0xD0, 0x15]);
    steps(&mut em, 4);
    assert_eq!(em.register(15), 0);
    steps(&mut em, 2);
    assert_eq!(em.register(15), 0);
    assert_eq!(cell(&em, 0, 2), PIXEL_ON);
    assert_eq!(cell(&em, 0, 10), PIXEL_ON);
}

#[test]
fn sprite_clipped_at_right_and_bottom_edges() {
    // A full 8x8 block of 0xFF at (60, 28).
    let mut program = vec![0u8; 0x20];
    program[..8].copy_from_slice(&[0xA2, 0x10, 0x60, 60, 0x61, 28, 0xD0, 0x18]);
    for b in &mut program[0x10..0x18] {
        *b = 0xFF;
    }
    let mut em = machine_with(&program);
    steps(&mut em, 4);
    let lit: Vec<(usize, usize)> = (0..2048)
        .filter(|k| em.get_display()[*k] != 0)
        .map(|k| (k / 64, k % 64))
        .collect();
    assert_eq!(lit.len(), 16);
    for (row, col) in lit {
        assert!((28..32).contains(&row));
        assert!((60..64).contains(&col));
    }
    assert_eq!(cell(&em, 0, 0), 0);
    assert_eq!(cell(&em, 31, 63), PIXEL_ON);
}

#[test]
fn sprite_coordinates_wrap_before_drawing() {
    // (V0, V1) = (64 + 3, 32 + 2) starts the sprite at (3, 2).
    let mut em = machine_with(&[0xA0, 0x50, 0x60, 67, 0x61, 34, 0xD0, 0x11]);
    steps(&mut em, 4);
    assert_eq!(cell(&em, 2, 3), PIXEL_ON);
    assert_eq!(cell(&em, 2, 6), PIXEL_ON);
    assert_eq!(cell(&em, 2, 7), 0);
}

#[test]
fn clear_display_turns_all_cells_off() {
    let mut em = machine_with(&[0xA0, 0x50, 0xD0, 0x05, 0x00, 0xE0]);
    steps(&mut em, 2);
    assert!(em.get_display().iter().any(|c| *c != 0));
    em.step(0).unwrap();
    assert!(em.get_display().iter().all(|c| *c == 0));
}

#[test]
fn scenario_skip_when_key_pressed() {
    let mut em = machine_with(&[0x60, 0x05, 0xE0, 0x9E]);
    em.set_key(KeyMapValue(true, 0x5));
    em.step(0).unwrap();
    assert_eq!(em.pc(), 0x202);
    em.step(0).unwrap();
    assert_eq!(em.pc(), 0x206);
}

#[test]
fn skip_when_key_not_pressed() {
    let mut em = machine_with(&[0x60, 0x05, 0xE0, 0xA1, 0xE0, 0xA1]);
    em.step(0).unwrap();
    em.step(0).unwrap();
    assert_eq!(em.pc(), 0x206);
    let mut em = machine_with(&[0x60, 0x05, 0xE0, 0xA1, 0xE0, 0x9E]);
    em.set_key(KeyMapValue(true, 0x5));
    steps(&mut em, 2);
    assert_eq!(em.pc(), 0x204);
    em.step(0).unwrap();
    assert_eq!(em.pc(), 0x208);
}

#[test]
fn wait_key_needs_fresh_press() {
    let mut em = machine_with(&[0xF3, 0x0A, 0x00, 0x00]);
    em.set_key(KeyMapValue(true, 0x7));
    // Held from before the wait: keeps waiting.
    em.step(0).unwrap();
    assert_eq!(em.pc(), 0x200);
    em.set_key(KeyMapValue(false, 0x7));
    em.step(0).unwrap();
    assert_eq!(em.pc(), 0x200);
    em.set_key(KeyMapValue(true, 0xB));
    em.set_key(KeyMapValue(true, 0x9));
    em.step(0).unwrap();
    assert_eq!(em.pc(), 0x202);
    assert_eq!(em.register(3), 0x9);
}

#[test]
fn skip_instructions_compare() {
    // V0 = 7; 3007 skips; 4007 does not; 5010 with V1 = 0 does not; 9010 skips.
    let mut em = machine_with(&[0x60, 7, 0x30, 7, 0, 0, 0x40, 7, 0x50, 0x10, 0x90, 0x10]);
    em.step(0).unwrap();
    em.step(0).unwrap();
    assert_eq!(em.pc(), 0x206);
    em.step(0).unwrap();
    assert_eq!(em.pc(), 0x208);
    em.step(0).unwrap();
    assert_eq!(em.pc(), 0x20A);
    em.step(0).unwrap();
    assert_eq!(em.pc(), 0x20E);
}

#[test]
fn jumps_and_index() {
    let mut em = machine_with(&[0x60, 0x10, 0xB3, 0x00]);
    steps(&mut em, 2);
    assert_eq!(em.pc(), 0x310);
    let mut em = machine_with(&[0x14, 0x56]);
    em.step(0).unwrap();
    assert_eq!(em.pc(), 0x456);
    let mut em = machine_with(&[0xAA, 0xBC, 0x60, 0x20, 0xF0, 0x1E]);
    em.step(0).unwrap();
    assert_eq!(em.index(), 0xABC);
    steps(&mut em, 2);
    assert_eq!(em.index(), 0xADC);
}

#[test]
fn machine_call_is_ignored() {
    let mut em = machine_with(&[0x01, 0x23, 0x60, 0x01]);
    em.step(0).unwrap();
    assert_eq!(em.pc(), 0x202);
    em.step(0).unwrap();
    assert_eq!(em.register(0), 1);
}

#[test]
fn random_is_masked() {
    let mut em = machine_with(&[0xC4, 0x0F, 0xC5, 0x00]);
    em.step(0xAB).unwrap();
    assert_eq!(em.register(4), 0x0B);
    em.run().unwrap();
    assert_eq!(em.register(5), 0);
    assert_eq!(em.pc(), 0x204);
}

#[test]
fn timers_count_down_and_stop_at_zero() {
    let mut em = machine_with(&[0x60, 2, 0xF0, 0x15, 0xF0, 0x18, 0xF1, 0x07]);
    steps(&mut em, 3);
    assert_eq!(em.delay_timer(), 2);
    assert_eq!(em.sound_timer(), 2);
    assert!(em.is_sound_active());
    em.decrement_timers();
    em.step(0).unwrap();
    assert_eq!(em.register(1), 1);
    em.decrement_timers();
    em.decrement_timers();
    assert_eq!(em.delay_timer(), 0);
    assert_eq!(em.sound_timer(), 0);
    assert!(!em.is_sound_active());
}

#[test]
fn font_glyph_address() {
    let mut em = machine_with(&[0x60, 0x1A, 0xF0, 0x29]);
    steps(&mut em, 2);
    assert_eq!(em.index(), 0x50 + 5 * 0xA);
}

#[test]
fn bcd_digits_stored() {
    let mut em = machine_with(&[0x60, 156, 0xA3, 0x00, 0xF0, 0x33]);
    steps(&mut em, 3);
    assert_eq!(&em.memory()[0x300..0x303], &[1, 5, 6]);
    assert_eq!(em.index(), 0x300);
}

#[test]
fn store_and_load_registers() {
    let mut em = machine_with(&[0x60, 1, 0x61, 2, 0x62, 3, 0xA3, 0x00, 0xF1, 0x55, 0x60, 0, 0x61, 0, 0x62, 0, 0xF2, 0x65]);
    steps(&mut em, 5);
    assert_eq!(&em.memory()[0x300..0x303], &[1, 2, 0]);
    steps(&mut em, 4);
    assert_eq!(em.register(0), 1);
    assert_eq!(em.register(1), 2);
    assert_eq!(em.register(2), 0);
}

#[test]
fn memory_operations_past_the_end_fail() {
    let mut em = machine_with(&[0xAF, 0xFE, 0xF0, 0x33]);
    em.step(0).unwrap();
    assert_eq!(em.step(0), Err(Chip8Error::OutOfBoundsAccess));
    assert_eq!(em.pc(), 0x202);
    let mut em = machine_with(&[0xAF, 0xFD, 0xF3, 0x55]);
    em.step(0).unwrap();
    assert_eq!(em.step(0), Err(Chip8Error::OutOfBoundsAccess));
    let mut em = machine_with(&[0xAF, 0xFD, 0xF3, 0x65]);
    em.step(0).unwrap();
    assert_eq!(em.step(0), Err(Chip8Error::OutOfBoundsAccess));
    let mut em = machine_with(&[0xAF, 0xFE, 0xD0, 0x03]);
    em.step(0).unwrap();
    assert_eq!(em.step(0), Err(Chip8Error::OutOfBoundsAccess));
    assert!(em.get_display().iter().all(|c| *c == 0));
}

#[test]
fn fetch_past_the_end_fails() {
    let mut em = machine_with(&[0x1F, 0xFF]);
    em.step(0).unwrap();
    assert_eq!(em.pc(), 0xFFF);
    assert_eq!(em.step(0), Err(Chip8Error::OutOfBoundsAccess));
    assert_eq!(em.pc(), 0xFFF);
}

#[test]
fn unknown_opcode_is_skipped() {
    let mut em = machine_with(&[0x80, 0x08, 0xE0, 0x00, 0xF0, 0xFF, 0x60, 0x09]);
    assert_eq!(em.step(0), Err(Chip8Error::UnknownOpcode(0x8008)));
    assert_eq!(em.pc(), 0x202);
    assert_eq!(em.step(0), Err(Chip8Error::UnknownOpcode(0xE000)));
    assert_eq!(em.step(0), Err(Chip8Error::UnknownOpcode(0xF0FF)));
    em.step(0).unwrap();
    assert_eq!(em.register(0), 9);
}

#[test]
fn decode_names_fields() {
    assert_eq!(Instruction::decode(0xD12F), Instruction::Draw { x: 1, y: 2, n: 0xF });
    assert_eq!(Instruction::decode(0x2ABC), Instruction::Call { nnn: 0xABC });
    assert_eq!(Instruction::decode(0x8A5E), Instruction::ShiftLeft { x: 0xA, y: 5 });
    assert_eq!(Instruction::decode(0xF465), Instruction::LoadRegisters { x: 4 });
    assert_eq!(Instruction::decode(0x00E0), Instruction::ClearDisplay);
    assert_eq!(Instruction::decode(0x00EE), Instruction::Return);
    assert_eq!(Instruction::decode(0xE19F), Instruction::Unknown { opcode: 0xE19F });
}
