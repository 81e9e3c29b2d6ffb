use chip8::{Chip8, Chip8Error, Instruction};

fn at_start() -> Chip8 {
    let mut chip8 = Chip8::new();
    chip8.registers.pc = 0x200;
    chip8
}

fn snapshot(chip8: &Chip8) -> (Vec<u8>, [u8; 16], u16, u8, u8, u16, u8, Vec<u16>, Vec<bool>, [bool; 16], Option<u8>) {
    (
        chip8.memory.to_vec(),
        chip8.registers.v,
        chip8.registers.i,
        chip8.registers.dt,
        chip8.registers.st,
        chip8.registers.pc,
        chip8.registers.sp,
        chip8.stack.clone(),
        chip8.screen.to_vec(),
        chip8.keyboard,
        chip8.pending_key,
    )
}

#[test]
fn invalid_opcode_changes_nothing() {
    let mut chip8 = at_start();
    chip8.registers.v = [1, 2, 3, 4, 5, 6, 7, 8, 9, 10, 11, 12, 13, 14, 15, 16];
    chip8.registers.i = 0x123;
    let before = snapshot(&chip8);
    assert_eq!(chip8.dispatch(0xFFFF, 0), Err(Chip8Error::InvalidOpcode));
    assert_eq!(snapshot(&chip8), before);
    assert_eq!(chip8.dispatch(0x0000, 0), Err(Chip8Error::InvalidOpcode));
    assert_eq!(chip8.dispatch(0x8128, 0), Err(Chip8Error::InvalidOpcode));
    assert_eq!(snapshot(&chip8), before);
}

#[test]
fn invalid_opcode_is_reported_even_while_waiting_or_out_of_range() {
    let mut chip8 = at_start();
    chip8.pending_key = Some(2);
    assert_eq!(chip8.dispatch(0xFFFF, 0), Err(Chip8Error::InvalidOpcode));
    chip8.pending_key = None;
    chip8.registers.pc = 4094;
    assert_eq!(chip8.dispatch(0xFFFF, 0), Err(Chip8Error::InvalidOpcode));
}

#[test]
fn malformed_instruction_is_invalid() {
    let mut chip8 = at_start();
    let before = snapshot(&chip8);
    assert_eq!(
        chip8.execute(Instruction::LoadByte { x: 16, kk: 1 }, 0),
        Err(Chip8Error::InvalidOpcode)
    );
    assert_eq!(
        chip8.execute(Instruction::Jump { addr: 0x1000 }, 0),
        Err(Chip8Error::InvalidOpcode)
    );
    assert_eq!(snapshot(&chip8), before);
}

#[test]
fn dispatch_out_of_range_program_counter() {
    let mut chip8 = Chip8::new();
    chip8.registers.pc = 4094;
    let before = snapshot(&chip8);
    assert_eq!(chip8.dispatch(0x6001, 0), Err(Chip8Error::OutOfRange));
    assert_eq!(chip8.dispatch(0x1200, 0), Err(Chip8Error::OutOfRange));
    assert_eq!(snapshot(&chip8), before);
    chip8.registers.pc = 4093;
    assert_eq!(chip8.dispatch(0x6001, 0), Ok(()));
    assert_eq!(chip8.registers.pc, 4095);
    assert_eq!(chip8.registers.v[0], 1);
}

#[test]
fn clear_screen_turns_every_pixel_off() {
    let mut chip8 = at_start();
    chip8.screen[0] = true;
    chip8.screen[1000] = true;
    chip8.screen[2047] = true;
    assert_eq!(chip8.dispatch(0x00E0, 0), Ok(()));
    assert!(chip8.screen.iter().all(|p| !*p));
    assert_eq!(chip8.registers.pc, 0x202);
}

#[test]
fn jump_sets_the_program_counter() {
    let mut chip8 = at_start();
    assert_eq!(chip8.dispatch(0x1ABC, 0), Ok(()));
    assert_eq!(chip8.registers.pc, 0xABC);
}

#[test]
fn jump_offset_adds_v0() {
    let mut chip8 = at_start();
    chip8.registers.v[0] = 0xFF;
    assert_eq!(chip8.dispatch(0xBFFF, 0), Ok(()));
    assert_eq!(chip8.registers.pc, 0xFFF + 0xFF);
    let mut chip8 = at_start();
    chip8.registers.v[0] = 4;
    assert_eq!(chip8.dispatch(0xB300, 0), Ok(()));
    assert_eq!(chip8.registers.pc, 0x304);
}

#[test]
fn call_pushes_the_next_instruction() {
    let mut chip8 = at_start();
    assert_eq!(chip8.dispatch(0x2400, 0), Ok(()));
    assert_eq!(chip8.registers.pc, 0x400);
    assert_eq!(chip8.stack, vec![0x202]);
    assert_eq!(chip8.registers.sp, 1);
    assert!(chip8.is_well_formed());
}

#[test]
fn return_on_empty_stack_underflows() {
    let mut chip8 = at_start();
    let before = snapshot(&chip8);
    assert_eq!(chip8.dispatch(0x00EE, 0), Err(Chip8Error::StackUnderflow));
    assert_eq!(snapshot(&chip8), before);
}

#[test]
fn nested_calls_return_in_reverse_order() {
    let mut chip8 = at_start();
    let mut expected: Vec<u16> = Vec::new();
    for depth in 0..16u16 {
        let here = chip8.registers.pc;
        let target = 0x300 + 0x10 * depth;
        assert_eq!(chip8.dispatch(0x2000 | target, 0), Ok(()));
        expected.push(here + 2);
        assert_eq!(chip8.registers.pc, target);
        assert_eq!(chip8.stack, expected);
        assert_eq!(chip8.registers.sp as usize, expected.len());
    }
    let full = snapshot(&chip8);
    assert_eq!(chip8.dispatch(0x2500, 0), Err(Chip8Error::StackOverflow));
    assert_eq!(snapshot(&chip8), full);
    for _ in 0..16 {
        let back = expected.pop();
        assert_eq!(chip8.dispatch(0x00EE, 0), Ok(()));
        assert_eq!(Some(chip8.registers.pc), back);
        assert_eq!(chip8.stack, expected);
        assert_eq!(chip8.registers.sp as usize, expected.len());
    }
    assert_eq!(chip8.registers.pc, 0x202);
    assert_eq!(chip8.dispatch(0x00EE, 0), Err(Chip8Error::StackUnderflow));
}

#[test]
fn skips_on_byte_comparison() {
    let mut chip8 = at_start();
    chip8.registers.v[3] = 0x42;
    assert_eq!(chip8.dispatch(0x3342, 0), Ok(()));
    assert_eq!(chip8.registers.pc, 0x204);
    assert_eq!(chip8.dispatch(0x3343, 0), Ok(()));
    assert_eq!(chip8.registers.pc, 0x206);
    assert_eq!(chip8.dispatch(0x4342, 0), Ok(()));
    assert_eq!(chip8.registers.pc, 0x208);
    assert_eq!(chip8.dispatch(0x4343, 0), Ok(()));
    assert_eq!(chip8.registers.pc, 0x20C);
}

#[test]
fn skips_on_register_comparison() {
    let mut chip8 = at_start();
    chip8.registers.v[1] = 7;
    chip8.registers.v[2] = 7;
    chip8.registers.v[3] = 8;
    assert_eq!(chip8.dispatch(0x5120, 0), Ok(()));
    assert_eq!(chip8.registers.pc, 0x204);
    assert_eq!(chip8.dispatch(0x5130, 0), Ok(()));
    assert_eq!(chip8.registers.pc, 0x206);
    assert_eq!(chip8.dispatch(0x9120, 0), Ok(()));
    assert_eq!(chip8.registers.pc, 0x208);
    assert_eq!(chip8.dispatch(0x9130, 0), Ok(()));
    assert_eq!(chip8.registers.pc, 0x20C);
}

#[test]
fn skips_on_keys() {
    let mut chip8 = at_start();
    chip8.registers.v[1] = 0xA;
    chip8.keyboard[0xA] = true;
    assert_eq!(chip8.dispatch(0xE19E, 0), Ok(()));
    assert_eq!(chip8.registers.pc, 0x204);
    assert_eq!(chip8.dispatch(0xE1A1, 0), Ok(()));
    assert_eq!(chip8.registers.pc, 0x206);
    chip8.keyboard[0xA] = false;
    assert_eq!(chip8.dispatch(0xE19E, 0), Ok(()));
    assert_eq!(chip8.registers.pc, 0x208);
    assert_eq!(chip8.dispatch(0xE1A1, 0), Ok(()));
    assert_eq!(chip8.registers.pc, 0x20C);
}

#[test]
fn skip_on_a_key_that_does_not_exist_is_out_of_range() {
    let mut chip8 = at_start();
    chip8.registers.v[1] = 16;
    let before = snapshot(&chip8);
    assert_eq!(chip8.dispatch(0xE19E, 0), Err(Chip8Error::OutOfRange));
    assert_eq!(chip8.dispatch(0xE1A1, 0), Err(Chip8Error::OutOfRange));
    assert_eq!(snapshot(&chip8), before);
}

#[test]
fn load_and_add_byte() {
    let mut chip8 = at_start();
    assert_eq!(chip8.dispatch(0x6AFE, 0), Ok(()));
    assert_eq!(chip8.registers.v[0xA], 0xFE);
    assert_eq!(chip8.dispatch(0x7A03, 0), Ok(()));
    assert_eq!(chip8.registers.v[0xA], 0x01);
    assert_eq!(chip8.registers.v[0xF], 0);
    assert_eq!(chip8.registers.pc, 0x204);
}

#[test]
fn move_and_bitwise() {
    let mut chip8 = at_start();
    chip8.registers.v[1] = 0b1100_1010;
    chip8.registers.v[2] = 0b1010_0110;
    assert_eq!(chip8.dispatch(0x8320, 0), Ok(()));
    assert_eq!(chip8.registers.v[3], 0b1010_0110);
    assert_eq!(chip8.dispatch(0x8311, 0), Ok(()));
    assert_eq!(chip8.registers.v[3], 0b1110_1110);
    assert_eq!(chip8.dispatch(0x8312, 0), Ok(()));
    assert_eq!(chip8.registers.v[3], 0b1100_1010);
    assert_eq!(chip8.dispatch(0x8323, 0), Ok(()));
    assert_eq!(chip8.registers.v[3], 0b0110_1100);
    assert_eq!(chip8.registers.v[0xF], 0);
    assert_eq!(chip8.registers.pc, 0x208);
}

#[test]
fn add_registers_for_every_pair_of_bytes() {
    for a in 0..=255u16 {
        for b in 0..=255u16 {
            let mut chip8 = at_start();
            chip8.registers.v[4] = a as u8;
            chip8.registers.v[9] = b as u8;
            assert_eq!(chip8.dispatch(0x8494, 0), Ok(()));
            assert_eq!(chip8.registers.v[4] as u16, (a + b) % 256);
            assert_eq!(chip8.registers.v[0xF], if a + b > 255 { 1 } else { 0 });
            assert_eq!(chip8.registers.v[9], b as u8);
        }
    }
}

#[test]
fn add_register_to_itself() {
    let mut chip8 = at_start();
    chip8.registers.v[2] = 200;
    assert_eq!(chip8.dispatch(0x8224, 0), Ok(()));
    assert_eq!(chip8.registers.v[2], 144);
    assert_eq!(chip8.registers.v[0xF], 1);
}

#[test]
fn add_into_the_flag_register_keeps_the_sum() {
    let mut chip8 = at_start();
    chip8.registers.v[0xF] = 200;
    chip8.registers.v[1] = 100;
    assert_eq!(chip8.dispatch(0x8F14, 0), Ok(()));
    assert_eq!(chip8.registers.v[0xF], 44);
}

#[test]
fn subtract_registers() {
    let mut chip8 = at_start();
    chip8.registers.v[1] = 10;
    chip8.registers.v[2] = 3;
    assert_eq!(chip8.dispatch(0x8125, 0), Ok(()));
    assert_eq!(chip8.registers.v[1], 7);
    assert_eq!(chip8.registers.v[0xF], 1);
    chip8.registers.v[1] = 3;
    chip8.registers.v[2] = 10;
    assert_eq!(chip8.dispatch(0x8125, 0), Ok(()));
    assert_eq!(chip8.registers.v[1], 249);
    assert_eq!(chip8.registers.v[0xF], 0);
    chip8.registers.v[1] = 5;
    chip8.registers.v[2] = 5;
    assert_eq!(chip8.dispatch(0x8125, 0), Ok(()));
    assert_eq!(chip8.registers.v[1], 0);
    assert_eq!(chip8.registers.v[0xF], 0);
}

#[test]
fn subtract_from_register() {
    let mut chip8 = at_start();
    chip8.registers.v[1] = 3;
    chip8.registers.v[2] = 10;
    assert_eq!(chip8.dispatch(0x8127, 0), Ok(()));
    assert_eq!(chip8.registers.v[1], 7);
    assert_eq!(chip8.registers.v[0xF], 1);
    chip8.registers.v[1] = 10;
    chip8.registers.v[2] = 3;
    assert_eq!(chip8.dispatch(0x8127, 0), Ok(()));
    assert_eq!(chip8.registers.v[1], 249);
    assert_eq!(chip8.registers.v[0xF], 0);
}

#[test]
fn subtraction_sees_the_flag_it_has_just_written() {
    // The flag is written before the difference is taken, so a subtrahend in
    // the flag register is the new flag.
    let mut chip8 = at_start();
    chip8.registers.v[1] = 10;
    chip8.registers.v[0xF] = 3;
    assert_eq!(chip8.dispatch(0x81F5, 0), Ok(()));
    assert_eq!(chip8.registers.v[0xF], 1);
    assert_eq!(chip8.registers.v[1], 9);
}

#[test]
fn shift_right_for_every_byte() {
    for a in 0..=255u8 {
        let mut chip8 = at_start();
        chip8.registers.v[6] = a;
        assert_eq!(chip8.dispatch(0x8606, 0), Ok(()));
        assert_eq!(chip8.registers.v[6], a >> 1);
        assert_eq!(chip8.registers.v[0xF], a & 1);
    }
}

#[test]
fn shift_left_for_every_byte() {
    for a in 0..=255u8 {
        let mut chip8 = at_start();
        chip8.registers.v[6] = a;
        assert_eq!(chip8.dispatch(0x860E, 0), Ok(()));
        assert_eq!(chip8.registers.v[6], a << 1);
        assert_eq!(chip8.registers.v[0xF], a >> 7);
    }
}

#[test]
fn load_index_and_add_index() {
    let mut chip8 = at_start();
    assert_eq!(chip8.dispatch(0xAFFF, 0), Ok(()));
    assert_eq!(chip8.registers.i, 0xFFF);
    chip8.registers.v[2] = 0x10;
    assert_eq!(chip8.dispatch(0xF21E, 0), Ok(()));
    assert_eq!(chip8.registers.i, 0x100F);
    chip8.registers.i = 0xFFFF;
    chip8.registers.v[2] = 2;
    assert_eq!(chip8.dispatch(0xF21E, 0), Ok(()));
    assert_eq!(chip8.registers.i, 1);
    assert_eq!(chip8.registers.v[0xF], 0);
}

#[test]
fn random_is_masked_by_the_literal() {
    let mut chip8 = at_start();
    assert_eq!(chip8.dispatch(0xC10F, 0xAB), Ok(()));
    assert_eq!(chip8.registers.v[1], 0x0B);
    assert_eq!(chip8.dispatch(0xC1F0, 0xAB), Ok(()));
    assert_eq!(chip8.registers.v[1], 0xA0);
    assert_eq!(chip8.dispatch(0xC100, 0xFF), Ok(()));
    assert_eq!(chip8.registers.v[1], 0);
    assert_eq!(chip8.registers.pc, 0x206);
}

#[test]
fn timers_move_to_and_from_registers() {
    let mut chip8 = at_start();
    chip8.registers.v[1] = 30;
    chip8.registers.v[2] = 40;
    assert_eq!(chip8.dispatch(0xF115, 0), Ok(()));
    assert_eq!(chip8.dispatch(0xF218, 0), Ok(()));
    assert_eq!(chip8.registers.dt, 30);
    assert_eq!(chip8.registers.st, 40);
    assert_eq!(chip8.dispatch(0xF307, 0), Ok(()));
    assert_eq!(chip8.registers.v[3], 30);
    assert_eq!(chip8.registers.pc, 0x206);
}

#[test]
fn glyph_address_is_five_times_the_digit() {
    let mut chip8 = at_start();
    chip8.registers.v[1] = 0xA;
    assert_eq!(chip8.dispatch(0xF129, 0), Ok(()));
    assert_eq!(chip8.registers.i, 50);
    chip8.registers.v[1] = 0;
    assert_eq!(chip8.dispatch(0xF129, 0), Ok(()));
    assert_eq!(chip8.registers.i, 0);
    chip8.registers.v[1] = 255;
    assert_eq!(chip8.dispatch(0xF129, 0), Ok(()));
    assert_eq!(chip8.registers.i, 1275);
}

#[test]
fn decimal_digits_are_stored_hundreds_first() {
    let mut chip8 = at_start();
    chip8.registers.v[1] = 254;
    chip8.registers.i = 0x300;
    assert_eq!(chip8.dispatch(0xF133, 0), Ok(()));
    assert_eq!(&chip8.memory[0x300..0x303], &[2, 5, 4]);
    chip8.registers.v[1] = 7;
    chip8.registers.i = 4093;
    assert_eq!(chip8.dispatch(0xF133, 0), Ok(()));
    assert_eq!(&chip8.memory[4093..4096], &[0, 0, 7]);
    assert_eq!(chip8.registers.i, 4093);
}

#[test]
fn decimal_digits_past_the_end_of_memory() {
    let mut chip8 = at_start();
    chip8.registers.v[1] = 123;
    chip8.registers.i = 4094;
    let before = snapshot(&chip8);
    assert_eq!(chip8.dispatch(0xF133, 0), Err(Chip8Error::OutOfRange));
    assert_eq!(snapshot(&chip8), before);
}

#[test]
fn registers_are_stored_and_loaded() {
    let mut chip8 = at_start();
    chip8.registers.v = [10, 11, 12, 13, 14, 15, 16, 17, 18, 19, 20, 21, 22, 23, 24, 25];
    chip8.registers.i = 0x400;
    chip8.memory[0x404] = 0xEE;
    assert_eq!(chip8.dispatch(0xF355, 0), Ok(()));
    assert_eq!(&chip8.memory[0x400..0x405], &[10, 11, 12, 13, 0xEE]);
    assert_eq!(chip8.registers.i, 0x400);
    chip8.registers.v = [0; 16];
    chip8.registers.v[5] = 99;
    assert_eq!(chip8.dispatch(0xF465, 0), Ok(()));
    assert_eq!(&chip8.registers.v[0..6], &[10, 11, 12, 13, 0xEE, 99]);
    assert_eq!(chip8.registers.pc, 0x204);
}

#[test]
fn all_registers_are_stored_at_the_end_of_memory() {
    let mut chip8 = at_start();
    chip8.registers.v = [1, 2, 3, 4, 5, 6, 7, 8, 9, 10, 11, 12, 13, 14, 15, 16];
    chip8.registers.i = 4080;
    assert_eq!(chip8.dispatch(0xFF55, 0), Ok(()));
    assert_eq!(&chip8.memory[4080..4096], &[1, 2, 3, 4, 5, 6, 7, 8, 9, 10, 11, 12, 13, 14, 15, 16]);
    chip8.registers.i = 4081;
    let before = snapshot(&chip8);
    assert_eq!(chip8.dispatch(0xFF55, 0), Err(Chip8Error::OutOfRange));
    assert_eq!(chip8.dispatch(0xFF65, 0), Err(Chip8Error::OutOfRange));
    assert_eq!(snapshot(&chip8), before);
    assert_eq!(chip8.dispatch(0xFE65, 0), Ok(()));
    assert_eq!(&chip8.registers.v[0..15], &[2, 3, 4, 5, 6, 7, 8, 9, 10, 11, 12, 13, 14, 15, 16]);
}

#[test]
fn draw_instruction_reads_the_sprite_at_the_index() {
    let mut chip8 = at_start();
    chip8.memory[0x300] = 0b1010_0000;
    chip8.memory[0x301] = 0b0100_0000;
    chip8.registers.i = 0x300;
    chip8.registers.v[1] = 2;
    chip8.registers.v[2] = 3;
    assert_eq!(chip8.dispatch(0xD122, 0), Ok(()));
    assert_eq!(chip8.registers.v[0xF], 0);
    assert_eq!(chip8.registers.pc, 0x202);
    let lit: Vec<usize> = (0..2048).filter(|c| chip8.screen[*c]).collect();
    assert_eq!(lit, vec![2 + 64 * 3, 4 + 64 * 3, 3 + 64 * 4]);
    assert_eq!(chip8.dispatch(0xD121, 0), Ok(()));
    assert_eq!(chip8.registers.v[0xF], 1);
    let lit: Vec<usize> = (0..2048).filter(|c| chip8.screen[*c]).collect();
    assert_eq!(lit, vec![3 + 64 * 4]);
}

#[test]
fn draw_instruction_past_the_end_of_memory() {
    let mut chip8 = at_start();
    chip8.registers.i = 4090;
    chip8.registers.v[0xF] = 9;
    let before = snapshot(&chip8);
    assert_eq!(chip8.dispatch(0xD007, 0), Err(Chip8Error::OutOfRange));
    assert_eq!(snapshot(&chip8), before);
    assert_eq!(chip8.dispatch(0xD006, 0), Ok(()));
    assert_eq!(chip8.registers.v[0xF], 0);
}

#[test]
fn wait_for_key_suspends_until_a_key_goes_down() {
    let mut chip8 = at_start();
    chip8.keyboard[4] = true;
    assert_eq!(chip8.dispatch(0xF30A, 0), Ok(()));
    assert!(chip8.is_waiting_for_key());
    assert_eq!(chip8.pending_key, Some(3));
    assert_eq!(chip8.registers.pc, 0x202);
    // Suspended: instructions and cycles do nothing.
    let blocked = snapshot(&chip8);
    assert_eq!(chip8.dispatch(0x6155, 0), Ok(()));
    assert_eq!(chip8.cycle(0), Ok(()));
    assert_eq!(snapshot(&chip8), blocked);
    // A key that stays down, or goes up, is no key press.
    assert_eq!(chip8.set_key(4, true), Ok(()));
    assert!(chip8.is_waiting_for_key());
    assert_eq!(chip8.set_key(4, false), Ok(()));
    assert!(chip8.is_waiting_for_key());
    assert_eq!(chip8.set_key(0xB, true), Ok(()));
    assert!(!chip8.is_waiting_for_key());
    assert_eq!(chip8.registers.v[3], 0xB);
    assert!(chip8.keyboard[0xB]);
    assert_eq!(chip8.dispatch(0x6155, 0), Ok(()));
    assert_eq!(chip8.registers.v[1], 0x55);
    assert_eq!(chip8.registers.pc, 0x204);
}
