use chip8::{Chip8, Chip8Error, Registers, SPRITES};

fn loaded(rom: &[u8]) -> Chip8 {
    let mut chip8 = Chip8::new();
    assert_eq!(chip8.initialize(rom), Ok(()));
    chip8
}

#[test]
fn registers_start_at_zero() {
    let r = Registers::new();
    assert_eq!(r.v, [0u8; 16]);
    assert_eq!(r.i, 0);
    assert_eq!(r.dt, 0);
    assert_eq!(r.st, 0);
    assert_eq!(r.pc, 0);
    assert_eq!(r.sp, 0);
}

#[test]
fn machine_starts_blank() {
    let chip8 = Chip8::new();
    assert!(chip8.memory.iter().all(|b| *b == 0));
    assert!(chip8.screen.iter().all(|p| !*p));
    assert!(chip8.keyboard.iter().all(|k| !*k));
    assert!(chip8.stack.is_empty());
    assert_eq!(chip8.registers.pc, 0);
    assert_eq!(chip8.pending_key, None);
    assert!(chip8.is_well_formed());
    assert!(!chip8.is_waiting_for_key());
    assert!(!chip8.sound_active());
}

#[test]
fn well_formedness_tracks_the_stack() {
    let mut chip8 = Chip8::new();
    chip8.stack.push(0x202);
    assert!(!chip8.is_well_formed());
    chip8.registers.sp = 1;
    assert!(chip8.is_well_formed());
    chip8.pending_key = Some(16);
    assert!(!chip8.is_well_formed());
    chip8.pending_key = Some(15);
    assert!(chip8.is_well_formed());
    for _ in 0..16 {
        chip8.stack.push(0);
    }
    chip8.registers.sp = 17;
    assert!(!chip8.is_well_formed());
}

#[test]
fn initialize_places_font_and_program() {
    let rom = [0x60u8, 0x0A, 0x61, 0x05, 0x80, 0x14];
    let chip8 = loaded(&rom);
    assert_eq!(&chip8.memory[0..80], &SPRITES[..]);
    assert_eq!(&chip8.memory[0x200..0x206], &rom[..]);
    assert!(chip8.memory[80..0x200].iter().all(|b| *b == 0));
    assert!(chip8.memory[0x206..].iter().all(|b| *b == 0));
    assert_eq!(chip8.registers.pc, 0x200);
    assert_eq!(chip8.registers.sp, 0);
}

#[test]
fn initialize_keeps_memory_outside_font_and_program() {
    let mut chip8 = Chip8::new();
    chip8.memory[0x100] = 0xAB;
    chip8.memory[0x202] = 0xCD;
    chip8.memory[0xFFF] = 0xEF;
    assert_eq!(chip8.initialize(&[1, 2]), Ok(()));
    assert_eq!(chip8.memory[0x100], 0xAB);
    assert_eq!(chip8.memory[0x200], 1);
    assert_eq!(chip8.memory[0x201], 2);
    assert_eq!(chip8.memory[0x202], 0xCD);
    assert_eq!(chip8.memory[0xFFF], 0xEF);
}

#[test]
fn font_glyphs_are_the_standard_ones() {
    assert_eq!(SPRITES.len(), 80);
    assert_eq!(&SPRITES[0..5], &[0xF0, 0x90, 0x90, 0x90, 0xF0]);
    assert_eq!(&SPRITES[5..10], &[0x20, 0x60, 0x20, 0x20, 0x70]);
    assert_eq!(&SPRITES[75..80], &[0xF0, 0x80, 0xF0, 0x80, 0x80]);
}

#[test]
fn initialize_accepts_the_largest_program() {
    let rom = vec![0x12u8; 3584];
    let chip8 = loaded(&rom);
    assert_eq!(chip8.memory[0x200], 0x12);
    assert_eq!(chip8.memory[0xFFF], 0x12);
    assert_eq!(chip8.registers.pc, 0x200);
}

#[test]
fn initialize_refuses_a_program_too_large() {
    let rom = vec![0x12u8; 3585];
    let mut chip8 = Chip8::new();
    chip8.memory[0x300] = 7;
    assert_eq!(chip8.initialize(&rom), Err(Chip8Error::LoadTooLarge));
    assert!(chip8.memory[0..80].iter().all(|b| *b == 0));
    assert_eq!(chip8.memory[0x200], 0);
    assert_eq!(chip8.memory[0x300], 7);
    assert_eq!(chip8.registers.pc, 0);
}

#[test]
fn initialize_with_empty_program_leaves_the_program_counter() {
    let chip8 = loaded(&[]);
    assert_eq!(chip8.registers.pc, 0);
    assert_eq!(&chip8.memory[0..80], &SPRITES[..]);
    assert!(chip8.memory[0x200..].iter().all(|b| *b == 0));
}

#[test]
fn fetch_is_big_endian_and_does_not_move() {
    let chip8 = loaded(&[0xAB, 0xCD, 0x12, 0x34]);
    assert_eq!(chip8.get_next_op(), Ok(0xABCD));
    assert_eq!(chip8.get_next_op(), Ok(0xABCD));
    assert_eq!(chip8.registers.pc, 0x200);
}

#[test]
fn fetch_near_the_end_of_memory() {
    let mut chip8 = Chip8::new();
    chip8.memory[4092] = 0x01;
    chip8.memory[4093] = 0x02;
    chip8.registers.pc = 4093;
    chip8.memory[4094] = 0x03;
    assert_eq!(chip8.get_next_op(), Ok(0x0203));
    chip8.registers.pc = 4094;
    assert_eq!(chip8.get_next_op(), Err(Chip8Error::OutOfRange));
    chip8.registers.pc = 4095;
    assert_eq!(chip8.get_next_op(), Err(Chip8Error::OutOfRange));
    chip8.registers.pc = 0xFFFF;
    assert_eq!(chip8.get_next_op(), Err(Chip8Error::OutOfRange));
}

#[test]
fn timers_tick_down_and_stop_at_zero() {
    let mut chip8 = Chip8::new();
    chip8.registers.dt = 2;
    chip8.registers.st = 1;
    assert!(chip8.sound_active());
    chip8.tick_delay();
    chip8.tick_sound();
    assert_eq!(chip8.registers.dt, 1);
    assert_eq!(chip8.registers.st, 0);
    assert!(!chip8.sound_active());
    chip8.tick_delay();
    chip8.tick_sound();
    assert_eq!(chip8.registers.dt, 0);
    assert_eq!(chip8.registers.st, 0);
    chip8.tick_delay();
    chip8.tick_sound();
    assert_eq!(chip8.registers.dt, 0);
    assert_eq!(chip8.registers.st, 0);
}

#[test]
fn ticked_delay_is_what_the_program_reads() {
    let mut chip8 = loaded(&[0xF3, 0x07]);
    chip8.registers.dt = 9;
    chip8.tick_delay();
    assert_eq!(chip8.cycle(0), Ok(()));
    assert_eq!(chip8.registers.v[3], 8);
}

#[test]
fn three_cycles_add_two_registers() {
    let mut chip8 = loaded(&[0x60, 0x0A, 0x61, 0x05, 0x80, 0x14]);
    for _ in 0..3 {
        assert_eq!(chip8.cycle(0), Ok(()));
    }
    assert_eq!(chip8.registers.v[0], 15);
    assert_eq!(chip8.registers.v[1], 5);
    assert_eq!(chip8.registers.v[0xF], 0);
    assert_eq!(chip8.registers.pc, 0x206);
}

#[test]
fn call_and_return_through_a_program() {
    let mut chip8 = loaded(&[0x22, 0x08, 0x00, 0x00, 0x00, 0x00, 0x00, 0x00, 0x00, 0xEE]);
    assert_eq!(chip8.cycle(0), Ok(()));
    assert_eq!(chip8.registers.pc, 0x208);
    assert_eq!(chip8.stack, vec![0x202]);
    assert_eq!(chip8.registers.sp, 1);
    assert_eq!(chip8.cycle(0), Ok(()));
    assert_eq!(chip8.registers.pc, 0x202);
    assert_eq!(chip8.stack.len(), 0);
    assert_eq!(chip8.registers.sp, 0);
}

#[test]
fn cycle_reports_a_program_counter_out_of_range() {
    let mut chip8 = Chip8::new();
    chip8.registers.pc = 4094;
    assert_eq!(chip8.cycle(0), Err(Chip8Error::OutOfRange));
    assert_eq!(chip8.registers.pc, 4094);
}

#[test]
fn cycle_on_zeroed_memory_reports_an_invalid_opcode() {
    let mut chip8 = loaded(&[]);
    assert_eq!(chip8.cycle(0), Err(Chip8Error::InvalidOpcode));
    assert_eq!(chip8.registers.pc, 0);
}
