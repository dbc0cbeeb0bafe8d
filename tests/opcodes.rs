use chip8::{Chip8, Fault};

/// A fresh machine with its random generator seeded, for repeatable runs.
fn machine() -> Chip8 {
    Chip8::with_seed(7)
}

fn run(chip: &mut Chip8, ops: &[u16]) {
    for &op in ops {
        assert_eq!(chip.process_opcode(op), Ok(()));
    }
}

#[test]
fn opcode_ret() {
    let mut chip = machine();
    // Put 0x333 on the stack with the stack pointer at 1.
    run(&mut chip, &[0x1333, 0x2500]);
    assert_eq!(chip.stack()[0], 0x0333);
    assert_eq!(chip.sp(), 1);
    chip.process_opcode(0x00EE).unwrap();
    assert_eq!(chip.sp(), 0);
    assert_eq!(chip.pc(), 0x333);
}

#[test]
fn opcode_jp() {
    let mut chip = Chip8::new();
    chip.process_opcode(0x1727).unwrap();
    assert_eq!(chip.pc(), 0x727);
}

#[test]
fn opcode_call() {
    let mut chip = Chip8::new();
    chip.process_opcode(0x2727).unwrap();
    assert_eq!(chip.sp(), 1);
    assert_eq!(chip.stack()[0], 0x200);
    assert_eq!(chip.pc(), 0x727);
}

#[test]
fn clear_screen_turns_all_pixels_off() {
    let mut chip = machine();
    run(&mut chip, &[0xA000, 0xD005]);
    assert!(chip.get_display().iter().any(|&p| p));
    run(&mut chip, &[0x00E0]);
    assert!(chip.get_display().iter().all(|&p| !p));
}

#[test]
fn skips_on_immediate_compare() {
    let mut chip = machine();
    run(&mut chip, &[0x6342, 0x3342]);
    assert_eq!(chip.pc(), 0x202);
    run(&mut chip, &[0x3341]);
    assert_eq!(chip.pc(), 0x202);
    run(&mut chip, &[0x4341]);
    assert_eq!(chip.pc(), 0x204);
    run(&mut chip, &[0x4342]);
    assert_eq!(chip.pc(), 0x204);
}

#[test]
fn skips_on_register_compare() {
    let mut chip = machine();
    run(&mut chip, &[0x6107, 0x6207, 0x5120]);
    assert_eq!(chip.pc(), 0x202);
    run(&mut chip, &[0x9120]);
    assert_eq!(chip.pc(), 0x202);
    run(&mut chip, &[0x6208, 0x9120]);
    assert_eq!(chip.pc(), 0x204);
}

#[test]
fn add_immediate_wraps_without_flag() {
    let mut chip = machine();
    run(&mut chip, &[0x6F05, 0x61FF, 0x7102]);
    assert_eq!(chip.registers()[1], 0x01);
    assert_eq!(chip.registers()[0xF], 0x05);
}

#[test]
fn bitwise_operations() {
    let mut chip = machine();
    run(&mut chip, &[0x61F0, 0x623C, 0x8121]);
    assert_eq!(chip.registers()[1], 0xFC);
    run(&mut chip, &[0x61F0, 0x8122]);
    assert_eq!(chip.registers()[1], 0x30);
    run(&mut chip, &[0x61F0, 0x8123]);
    assert_eq!(chip.registers()[1], 0xCC);
    run(&mut chip, &[0x8320]);
    assert_eq!(chip.registers()[3], 0x3C);
}

#[test]
fn add_with_carry_sets_flag() {
    let mut chip = machine();
    run(&mut chip, &[0x61FF, 0x6202, 0x8124]);
    assert_eq!(chip.registers()[1], 0x01);
    assert_eq!(chip.registers()[0xF], 1);
    run(&mut chip, &[0x6110, 0x8124]);
    assert_eq!(chip.registers()[1], 0x12);
    assert_eq!(chip.registers()[0xF], 0);
}

#[test]
fn subtract_flag_is_not_borrow() {
    let mut chip = machine();
    run(&mut chip, &[0x6102, 0x6205, 0x8125]);
    assert_eq!(chip.registers()[1], 0xFD);
    assert_eq!(chip.registers()[0xF], 0);
    run(&mut chip, &[0x6105, 0x6202, 0x8125]);
    assert_eq!(chip.registers()[1], 0x03);
    assert_eq!(chip.registers()[0xF], 1);
}

#[test]
fn reverse_subtract_flag_is_not_borrow() {
    let mut chip = machine();
    run(&mut chip, &[0x6102, 0x6205, 0x8127]);
    assert_eq!(chip.registers()[1], 0x03);
    assert_eq!(chip.registers()[0xF], 1);
    run(&mut chip, &[0x6105, 0x6202, 0x8127]);
    assert_eq!(chip.registers()[1], 0xFD);
    assert_eq!(chip.registers()[0xF], 0);
}

#[test]
fn shifts_put_the_lost_bit_in_the_flag() {
    let mut chip = machine();
    run(&mut chip, &[0x6181, 0x8106]);
    assert_eq!(chip.registers()[1], 0x40);
    assert_eq!(chip.registers()[0xF], 1);
    run(&mut chip, &[0x6181, 0x810E]);
    assert_eq!(chip.registers()[1], 0x02);
    assert_eq!(chip.registers()[0xF], 1);
    run(&mut chip, &[0x6140, 0x810E]);
    assert_eq!(chip.registers()[1], 0x80);
    assert_eq!(chip.registers()[0xF], 0);
}

#[test]
fn index_and_offset_jump() {
    let mut chip = machine();
    run(&mut chip, &[0xA123]);
    assert_eq!(chip.index(), 0x123);
    run(&mut chip, &[0x6010, 0xF01E]);
    assert_eq!(chip.index(), 0x133);
    run(&mut chip, &[0x6005, 0xB300]);
    assert_eq!(chip.pc(), 0x305);
}

#[test]
fn font_glyph_address() {
    let mut chip = machine();
    run(&mut chip, &[0x630A, 0xF329]);
    assert_eq!(chip.index(), 50);
}

#[test]
fn random_is_masked() {
    let mut chip = machine();
    for _ in 0..20 {
        run(&mut chip, &[0xC30F]);
        assert!(chip.registers()[3] <= 0x0F);
    }
    run(&mut chip, &[0xC300]);
    assert_eq!(chip.registers()[3], 0);
}

#[test]
fn random_is_repeatable_with_a_seed() {
    let mut a = Chip8::with_seed(42);
    let mut b = Chip8::with_seed(42);
    let mut seen = Vec::new();
    for _ in 0..8 {
        run(&mut a, &[0xC0FF]);
        run(&mut b, &[0xC0FF]);
        assert_eq!(a.registers()[0], b.registers()[0]);
        seen.push(a.registers()[0]);
    }
    assert!(seen.iter().any(|&v| v != seen[0]));
}

#[test]
fn execute_uses_the_given_random_byte() {
    let mut chip = machine();
    chip.execute(chip8::Instruction::Random { x: 2, kk: 0x3C }, 0xA5).unwrap();
    assert_eq!(chip.registers()[2], 0x24);
}

#[test]
fn key_skips() {
    let mut chip = machine();
    run(&mut chip, &[0x6404, 0xE49E]);
    assert_eq!(chip.pc(), 0x200);
    run(&mut chip, &[0xE4A1]);
    assert_eq!(chip.pc(), 0x202);
    chip.keypress(4, true);
    run(&mut chip, &[0xE49E]);
    assert_eq!(chip.pc(), 0x204);
    run(&mut chip, &[0xE4A1]);
    assert_eq!(chip.pc(), 0x204);
}

#[test]
fn timers_are_read_and_written() {
    let mut chip = machine();
    run(&mut chip, &[0x6509, 0xF515, 0x6603, 0xF618]);
    assert_eq!(chip.delay_timer(), 9);
    assert_eq!(chip.sound_timer(), 3);
    run(&mut chip, &[0xF707]);
    assert_eq!(chip.registers()[7], 9);
}

#[test]
fn bcd_digits_are_stored() {
    let mut chip = machine();
    run(&mut chip, &[0x60EA, 0xA300, 0xF033]);
    assert_eq!(&chip.memory()[0x300..0x303], &[2, 3, 4]);
}

#[test]
fn register_block_round_trip() {
    let mut chip = machine();
    run(&mut chip, &[0x6011, 0x6122, 0x6233, 0x6344, 0xA400, 0xF255]);
    assert_eq!(&chip.memory()[0x400..0x404], &[0x11, 0x22, 0x33, 0x00]);
    run(&mut chip, &[0x6000, 0x6100, 0x6200, 0xF165]);
    assert_eq!(&chip.registers()[0..4], &[0x11, 0x22, 0x00, 0x44]);
}

#[test]
fn unknown_opcode_is_a_no_op() {
    let mut chip = machine();
    chip.process_opcode(0x5121).unwrap();
    assert_eq!(chip.pc(), 0x200);
    assert!(chip.registers().iter().all(|&v| v == 0));
    chip.load_rom_data(&[0xFF, 0xFF]).unwrap();
    assert_eq!(chip.tick(), Ok(()));
    assert_eq!(chip.pc(), 0x202);
}

#[test]
fn stack_overflow_faults_and_changes_nothing() {
    let mut chip = machine();
    for _ in 0..16 {
        run(&mut chip, &[0x2300]);
    }
    assert_eq!(chip.sp(), 16);
    assert_eq!(chip.process_opcode(0x2400), Err(Fault::StackOverflow));
    assert_eq!(chip.sp(), 16);
    assert_eq!(chip.pc(), 0x300);
}

#[test]
fn stack_underflow_faults_and_changes_nothing() {
    let mut chip = machine();
    assert_eq!(chip.process_opcode(0x00EE), Err(Fault::StackUnderflow));
    assert_eq!(chip.sp(), 0);
    assert_eq!(chip.pc(), 0x200);
}

#[test]
fn out_of_bounds_spans_fault() {
    let mut chip = machine();
    run(&mut chip, &[0xAFFF]);
    assert_eq!(chip.process_opcode(0xD002), Err(Fault::OutOfBounds));
    assert_eq!(chip.process_opcode(0xF033), Err(Fault::OutOfBounds));
    assert_eq!(chip.process_opcode(0xF155), Err(Fault::OutOfBounds));
    assert_eq!(chip.process_opcode(0xF165), Err(Fault::OutOfBounds));
    assert_eq!(chip.process_opcode(0xD001), Ok(()));
    assert_eq!(chip.process_opcode(0xF055), Ok(()));
}

#[test]
fn fetch_past_memory_faults() {
    let mut chip = machine();
    run(&mut chip, &[0x1FFF]);
    assert_eq!(chip.tick(), Err(Fault::OutOfBounds));
    assert_eq!(chip.pc(), 0xFFF);
}

#[test]
fn faulting_step_keeps_pc() {
    let mut chip = machine();
    chip.load_rom_data(&[0x00, 0xEE]).unwrap();
    assert_eq!(chip.tick(), Err(Fault::StackUnderflow));
    assert_eq!(chip.pc(), 0x200);
}
