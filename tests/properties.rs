use chip8::{decode, Chip8, Instruction, LoadError, DISPLAY_SIZE, MAX_PROGRAM_LEN, MEM_SIZE, SCREEN_WIDTH};

const FONT: [u8; 80] = [
    0xF0, 0x90, 0x90, 0x90, 0xF0, 0x20, 0x60, 0x20, 0x20, 0x70, 0xF0, 0x10, 0xF0, 0x80, 0xF0, 0xF0,
    0x10, 0xF0, 0x10, 0xF0, 0x90, 0x90, 0xF0, 0x10, 0x10, 0xF0, 0x80, 0xF0, 0x10, 0xF0, 0xF0, 0x80,
    0xF0, 0x90, 0xF0, 0xF0, 0x10, 0x20, 0x40, 0x40, 0xF0, 0x90, 0xF0, 0x90, 0xF0, 0xF0, 0x90, 0xF0,
    0x10, 0xF0, 0xF0, 0x90, 0xF0, 0x90, 0x90, 0xE0, 0x90, 0xE0, 0x90, 0xE0, 0xF0, 0x80, 0x80, 0x80,
    0xF0, 0xE0, 0x90, 0x90, 0x90, 0xE0, 0xF0, 0x80, 0xF0, 0x80, 0xF0, 0xF0, 0x80, 0xF0, 0x80, 0x80,
];

fn pixel(chip: &Chip8, x: usize, y: usize) -> bool {
    chip.get_display()[y * SCREEN_WIDTH + x]
}

/// A machine running `program` from the start address.
fn loaded(program: &[u8]) -> Chip8 {
    let mut chip = Chip8::with_seed(1);
    chip.load_rom_data(program).unwrap();
    chip
}

fn steps(chip: &mut Chip8, n: usize) {
    for _ in 0..n {
        assert_eq!(chip.tick(), Ok(()));
    }
}

#[test]
fn construct_initial_state() {
    let chip = Chip8::new();
    assert_eq!(chip.pc(), 0x200);
    assert_eq!(chip.sp(), 0);
    assert_eq!(chip.delay_timer(), 0);
    assert_eq!(chip.sound_timer(), 0);
    assert_eq!(chip.keyboard(), 0);
    assert_eq!(chip.index(), 0);
    assert_eq!(chip.memory().len(), MEM_SIZE);
    assert_eq!(&chip.memory()[0..80], &FONT[..]);
    assert!(chip.memory()[80..].iter().all(|&b| b == 0));
    assert!(chip.registers().iter().all(|&v| v == 0));
    assert_eq!(chip.get_display().len(), DISPLAY_SIZE);
    assert!(chip.get_display().iter().all(|&p| !p));
}

#[test]
fn return_pops_the_stack() {
    // 0x200: jump to 0x333; 0x333: call 0x400; 0x400: return.
    let mut program = vec![0u8; 0x300];
    program[0..2].copy_from_slice(&[0x13, 0x33]);
    program[0x133..0x135].copy_from_slice(&[0x24, 0x00]);
    program[0x200..0x202].copy_from_slice(&[0x00, 0xEE]);
    let mut chip = loaded(&program);
    steps(&mut chip, 2);
    assert_eq!(chip.sp(), 1);
    assert_eq!(chip.stack()[0], 0x335);
    steps(&mut chip, 1);
    assert_eq!(chip.sp(), 0);
    assert_eq!(chip.pc(), 0x335);
}

#[test]
fn jump_step_sets_pc_exactly() {
    let mut chip = loaded(&[0x17, 0x27]);
    steps(&mut chip, 1);
    assert_eq!(chip.pc(), 0x727);
}

#[test]
fn call_step_pushes_advanced_pc() {
    let mut chip = loaded(&[0x27, 0x27]);
    steps(&mut chip, 1);
    assert_eq!(chip.sp(), 1);
    assert_eq!(chip.stack()[0], 0x202);
    assert_eq!(chip.pc(), 0x727);
}

#[test]
fn conditional_skip_adds_to_advanced_pc() {
    let mut chip = loaded(&[0x30, 0x00]);
    steps(&mut chip, 1);
    assert_eq!(chip.pc(), 0x204);
}

#[test]
fn draw_twice_toggles_and_collides() {
    // V0 = 0xFF; I = 0x300; store V0 at I; V1 = V2 = 0; draw twice.
    let mut chip = loaded(&[0x60, 0xFF, 0xA3, 0x00, 0xF0, 0x55, 0x61, 0x00, 0x62, 0x00, 0xD1, 0x21, 0xD1, 0x21]);
    steps(&mut chip, 6);
    assert!((0..8).all(|x| pixel(&chip, x, 0)));
    assert_eq!(chip.get_display().iter().filter(|&&p| p).count(), 8);
    assert_eq!(chip.registers()[0xF], 0);
    steps(&mut chip, 1);
    assert!(chip.get_display().iter().all(|&p| !p));
    assert_eq!(chip.registers()[0xF], 1);
}

#[test]
fn draw_wraps_columns_and_rows() {
    // V0 = 0x81; I = 0x300; store; V1 = 63, V2 = 31; draw one row twice tall.
    let mut chip = loaded(&[
        0x60, 0x81, 0xA3, 0x00, 0xF0, 0x55, 0x61, 0x3F, 0x62, 0x1F, 0xD1, 0x21,
    ]);
    steps(&mut chip, 6);
    // Column 0 lands on x = 63, column 7 wraps round to x = 6.
    assert!(pixel(&chip, 63, 31));
    assert!(pixel(&chip, 6, 31));
    assert_eq!(chip.get_display().iter().filter(|&&p| p).count(), 2);
    // A two-row sprite at y = 31 wraps to row 0.
    let mut chip = loaded(&[
        0x60, 0xFF, 0x61, 0xFF, 0xA3, 0x00, 0xF1, 0x55, 0x62, 0x00, 0x63, 0x1F, 0xD2, 0x32,
    ]);
    steps(&mut chip, 7);
    assert!((0..8).all(|x| pixel(&chip, x, 31) && pixel(&chip, x, 0)));
    assert_eq!(chip.get_display().iter().filter(|&&p| p).count(), 16);
}

#[test]
fn wait_for_key_holds_pc_until_pressed() {
    let mut chip = loaded(&[0xF3, 0x0A]);
    for _ in 0..5 {
        steps(&mut chip, 1);
        assert_eq!(chip.pc(), 0x200);
    }
    chip.keypress(9, true);
    steps(&mut chip, 1);
    assert_eq!(chip.pc(), 0x202);
    assert_eq!(chip.registers()[3], 9);
}

#[test]
fn wait_for_key_takes_the_lowest_key() {
    let mut chip = loaded(&[0xF3, 0x0A]);
    chip.keypress(12, true);
    chip.keypress(5, true);
    steps(&mut chip, 1);
    assert_eq!(chip.registers()[3], 5);
}

#[test]
fn keypress_sets_and_clears_bits() {
    let mut chip = Chip8::new();
    chip.keypress(3, true);
    chip.keypress(15, true);
    assert_eq!(chip.keyboard(), 0x8008);
    chip.keypress(3, false);
    assert_eq!(chip.keyboard(), 0x8000);
    chip.keypress(3, false);
    assert_eq!(chip.keyboard(), 0x8000);
}

#[test]
fn load_too_long_program_fails() {
    let mut chip = Chip8::new();
    let program = vec![0xAAu8; 4096 - 0x200 + 1];
    assert_eq!(chip.load_rom_data(&program), Err(LoadError { len: 3585 }));
    assert!(chip.memory()[0x200..].iter().all(|&b| b == 0));
}

#[test]
fn load_largest_program_fills_memory() {
    let mut chip = Chip8::new();
    let mut program = vec![0x11u8; MAX_PROGRAM_LEN];
    assert_eq!(program.len(), 4096 - 0x200);
    program[MAX_PROGRAM_LEN - 1] = 0xAB;
    assert_eq!(chip.load_rom_data(&program), Ok(()));
    assert_eq!(chip.memory()[4095], 0xAB);
    assert_eq!(chip.memory()[0x200], 0x11);
    assert_eq!(&chip.memory()[0..80], &FONT[..]);
}

#[test]
fn load_empty_program() {
    let mut chip = Chip8::new();
    assert_eq!(chip.load_rom_data(&[]), Ok(()));
    assert!(chip.memory()[0x200..].iter().all(|&b| b == 0));
}

#[test]
fn timers_count_down_to_zero() {
    let mut chip = loaded(&[0x60, 0x02, 0xF0, 0x15, 0x61, 0x01, 0xF1, 0x18]);
    steps(&mut chip, 4);
    chip.timer_tick();
    assert_eq!(chip.delay_timer(), 1);
    assert_eq!(chip.sound_timer(), 0);
    chip.timer_tick();
    chip.timer_tick();
    assert_eq!(chip.delay_timer(), 0);
    assert_eq!(chip.sound_timer(), 0);
}

#[test]
fn step_with_given_random_byte() {
    let mut chip = loaded(&[0xC4, 0xF0]);
    assert_eq!(chip.step_with(0x5A), Ok(()));
    assert_eq!(chip.registers()[4], 0x50);
    assert_eq!(chip.pc(), 0x202);
}

#[test]
fn decode_reads_nibbles() {
    assert_eq!(decode(0x00E0), Instruction::ClearScreen);
    assert_eq!(decode(0x00EE), Instruction::Return);
    assert_eq!(decode(0x1727), Instruction::Jump { addr: 0x727 });
    assert_eq!(decode(0xD12F), Instruction::Draw { x: 1, y: 2, n: 15 });
    assert_eq!(decode(0x8AB4), Instruction::AddCarry { x: 0xA, y: 0xB });
    assert_eq!(decode(0xF565), Instruction::LoadRegs { x: 5 });
    assert_eq!(decode(0x8128), Instruction::Unknown { opcode: 0x8128 });
    assert_eq!(decode(0x0123), Instruction::Unknown { opcode: 0x0123 });
}
