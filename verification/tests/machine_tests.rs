use chip8_core::{decode, Chip8, Inst, Instruction, StepFault, START_ADDR};

fn run(rom: &[u8], steps: usize) -> Chip8 {
    let mut chip8 = Chip8::new(rom);
    for _ in 0..steps {
        assert_eq!(chip8.step_fault(), None);
        chip8.execute();
    }
    chip8
}

#[test]
fn new_loads_font_and_program() {
    let chip8 = Chip8::new(&[0x12, 0x34, 0xAB]);
    let ram = chip8.memory();
    assert_eq!(ram.len(), 4096);
    assert_eq!(&ram[0..5], &[0xF0, 0x90, 0x90, 0x90, 0xF0]);
    assert_eq!(&ram[75..80], &[0xF0, 0x80, 0xF0, 0x80, 0x80]);
    assert_eq!(ram[80], 0);
    assert_eq!(ram[0x1FF], 0);
    assert_eq!(&ram[0x200..0x203], &[0x12, 0x34, 0xAB]);
    assert_eq!(ram[0x203], 0);
    assert_eq!(chip8.pc(), START_ADDR);
    assert_eq!(chip8.index_register(), 0);
    assert_eq!(chip8.stack_pointer(), 0);
    assert_eq!(chip8.delay_timer(), 0);
    assert_eq!(chip8.sound_timer(), 0);
    assert!(chip8.registers().iter().all(|v| *v == 0));
    assert_eq!(chip8.get_display().len(), 64 * 32);
    assert!(chip8.get_display().iter().all(|p| !*p));
}

#[test]
fn new_accepts_largest_program() {
    let rom = vec![0x5Au8; 3584];
    let chip8 = Chip8::new(&rom);
    assert_eq!(chip8.memory()[4095], 0x5A);
    assert_eq!(chip8.memory()[0x200], 0x5A);
}

#[test]
fn inst_fields() {
    assert_eq!(Inst::new(), Inst { x: 0, y: 0, n: 0, nn: 0, nnn: 0 });
    assert_eq!(
        Inst::from_opcode(0xD123),
        Inst { x: 1, y: 2, n: 3, nn: 0x23, nnn: 0x123 }
    );
    assert_eq!(
        Inst::from_opcode(0xFABC),
        Inst { x: 0xA, y: 0xB, n: 0xC, nn: 0xBC, nnn: 0xABC }
    );
}

#[test]
fn decode_every_class() {
    assert_eq!(decode(0x00E0), Instruction::ClearScreen);
    assert_eq!(decode(0x00EE), Instruction::Return);
    assert_eq!(decode(0x1ABC), Instruction::Jump { nnn: 0xABC });
    assert_eq!(decode(0x2ABC), Instruction::Call { nnn: 0xABC });
    assert_eq!(decode(0x3A12), Instruction::SkipIfEqual { x: 0xA, nn: 0x12 });
    assert_eq!(decode(0x4A12), Instruction::SkipIfNotEqual { x: 0xA, nn: 0x12 });
    assert_eq!(decode(0x5AB0), Instruction::SkipIfRegistersEqual { x: 0xA, y: 0xB });
    assert_eq!(decode(0x5AB1), Instruction::Unknown);
    assert_eq!(decode(0x6A12), Instruction::SetRegister { x: 0xA, nn: 0x12 });
    assert_eq!(decode(0x7A12), Instruction::AddToRegister { x: 0xA, nn: 0x12 });
    assert_eq!(decode(0x8AB0), Instruction::CopyRegister { x: 0xA, y: 0xB });
    assert_eq!(decode(0x8AB1), Instruction::Or { x: 0xA, y: 0xB });
    assert_eq!(decode(0x8AB2), Instruction::And { x: 0xA, y: 0xB });
    assert_eq!(decode(0x8AB3), Instruction::Xor { x: 0xA, y: 0xB });
    assert_eq!(decode(0x8AB4), Instruction::AddRegisters { x: 0xA, y: 0xB });
    assert_eq!(decode(0x8AB5), Instruction::SubRegisters { x: 0xA, y: 0xB });
    assert_eq!(decode(0x8AB6), Instruction::ShiftRight { x: 0xA });
    assert_eq!(decode(0x8AB7), Instruction::SubReversed { x: 0xA, y: 0xB });
    assert_eq!(decode(0x8ABE), Instruction::ShiftLeft { x: 0xA });
    assert_eq!(decode(0x8AB8), Instruction::Unknown);
    assert_eq!(decode(0x9AB0), Instruction::SkipIfRegistersNotEqual { x: 0xA, y: 0xB });
    assert_eq!(decode(0xAABC), Instruction::SetIndex { nnn: 0xABC });
    assert_eq!(decode(0xBABC), Instruction::Unknown);
    assert_eq!(decode(0xCABC), Instruction::Unknown);
    assert_eq!(decode(0xDABC), Instruction::Draw { x: 0xA, y: 0xB, n: 0xC });
    assert_eq!(decode(0xEA9E), Instruction::Unknown);
    assert_eq!(decode(0xFA07), Instruction::ReadDelayTimer { x: 0xA });
    assert_eq!(decode(0xFA0A), Instruction::WaitForKey { x: 0xA });
    assert_eq!(decode(0xFA15), Instruction::SetDelayTimer { x: 0xA });
    assert_eq!(decode(0xFA18), Instruction::SetSoundTimer { x: 0xA });
    assert_eq!(decode(0xFA1E), Instruction::AddToIndex { x: 0xA });
    assert_eq!(decode(0xFA29), Instruction::FontCharacter { x: 0xA });
    assert_eq!(decode(0xFA33), Instruction::StoreBcd { x: 0xA });
    assert_eq!(decode(0xFA55), Instruction::StoreRegisters { x: 0xA });
    assert_eq!(decode(0xFA65), Instruction::LoadRegisters { x: 0xA });
    assert_eq!(decode(0xFA66), Instruction::Unknown);
    assert_eq!(decode(0x0123), Instruction::Unknown);
}

#[test]
fn fetch_advances_pc() {
    let chip8 = run(&[0x00, 0x00], 1);
    assert_eq!(chip8.pc(), 0x202);
}

#[test]
fn jump_sets_pc() {
    let chip8 = run(&[0x1A, 0xBC], 1);
    assert_eq!(chip8.pc(), 0xABC);
}

#[test]
fn call_and_return() {
    // 0x200: call 0x206; 0x202: (return target); 0x206: return
    let rom = [0x22, 0x06, 0x00, 0x00, 0x00, 0x00, 0x00, 0xEE];
    let mut chip8 = run(&rom, 1);
    assert_eq!(chip8.pc(), 0x206);
    assert_eq!(chip8.stack_pointer(), 1);
    chip8.execute();
    assert_eq!(chip8.pc(), 0x202);
    assert_eq!(chip8.stack_pointer(), 0);
}

#[test]
fn skip_if_equal_immediate() {
    let taken = run(&[0x60, 0x12, 0x30, 0x12], 2);
    assert_eq!(taken.pc(), 0x206);
    let not_taken = run(&[0x60, 0x12, 0x30, 0x13], 2);
    assert_eq!(not_taken.pc(), 0x204);
}

#[test]
fn skip_if_not_equal_immediate() {
    let taken = run(&[0x60, 0x12, 0x40, 0x13], 2);
    assert_eq!(taken.pc(), 0x206);
    let not_taken = run(&[0x60, 0x12, 0x40, 0x12], 2);
    assert_eq!(not_taken.pc(), 0x204);
}

#[test]
fn skip_on_register_comparison() {
    let eq_taken = run(&[0x60, 0x07, 0x61, 0x07, 0x50, 0x10], 3);
    assert_eq!(eq_taken.pc(), 0x208);
    let eq_not_taken = run(&[0x60, 0x07, 0x61, 0x08, 0x50, 0x10], 3);
    assert_eq!(eq_not_taken.pc(), 0x206);
    let ne_taken = run(&[0x60, 0x07, 0x61, 0x08, 0x90, 0x10], 3);
    assert_eq!(ne_taken.pc(), 0x208);
    let ne_not_taken = run(&[0x60, 0x07, 0x61, 0x07, 0x90, 0x10], 3);
    assert_eq!(ne_not_taken.pc(), 0x206);
}

#[test]
fn set_and_add_immediate_wraps_without_flag() {
    let chip8 = run(&[0x63, 0xF0, 0x73, 0x20], 2);
    assert_eq!(chip8.registers()[3], 0x10);
    assert_eq!(chip8.registers()[0xF], 0);
}

#[test]
fn register_logic() {
    let copy = run(&[0x60, 0x0C, 0x61, 0x0A, 0x80, 0x10], 3);
    assert_eq!(copy.registers()[0], 0x0A);
    let or = run(&[0x60, 0x0C, 0x61, 0x0A, 0x80, 0x11], 3);
    assert_eq!(or.registers()[0], 0x0E);
    let and = run(&[0x60, 0x0C, 0x61, 0x0A, 0x80, 0x12], 3);
    assert_eq!(and.registers()[0], 0x08);
    let xor = run(&[0x60, 0x0C, 0x61, 0x0A, 0x80, 0x13], 3);
    assert_eq!(xor.registers()[0], 0x06);
}

#[test]
fn add_registers_sets_carry() {
    let carry = run(&[0x60, 0xF0, 0x61, 0x20, 0x80, 0x14], 3);
    assert_eq!(carry.registers()[0], 0x10);
    assert_eq!(carry.registers()[0xF], 1);
    let no_carry = run(&[0x60, 0x10, 0x61, 0x20, 0x80, 0x14], 3);
    assert_eq!(no_carry.registers()[0], 0x30);
    assert_eq!(no_carry.registers()[0xF], 0);
}

#[test]
fn add_into_flag_register_keeps_carry() {
    // 8FE4 with VF = 0xFF, VE = 1: the sum 0 is overwritten by the carry 1.
    let chip8 = run(&[0x6F, 0xFF, 0x6E, 0x01, 0x8F, 0xE4], 3);
    assert_eq!(chip8.registers()[0xF], 1);
}

#[test]
fn sub_registers_sets_not_borrow() {
    let no_borrow = run(&[0x60, 0x30, 0x61, 0x10, 0x80, 0x15], 3);
    assert_eq!(no_borrow.registers()[0], 0x20);
    assert_eq!(no_borrow.registers()[0xF], 1);
    let borrow = run(&[0x60, 0x10, 0x61, 0x30, 0x80, 0x15], 3);
    assert_eq!(borrow.registers()[0], 0xE0);
    assert_eq!(borrow.registers()[0xF], 0);
    let equal = run(&[0x60, 0x10, 0x61, 0x10, 0x80, 0x15], 3);
    assert_eq!(equal.registers()[0], 0);
    assert_eq!(equal.registers()[0xF], 1);
}

#[test]
fn sub_reversed_sets_not_borrow() {
    let no_borrow = run(&[0x60, 0x10, 0x61, 0x30, 0x80, 0x17], 3);
    assert_eq!(no_borrow.registers()[0], 0x20);
    assert_eq!(no_borrow.registers()[0xF], 1);
    let borrow = run(&[0x60, 0x30, 0x61, 0x10, 0x80, 0x17], 3);
    assert_eq!(borrow.registers()[0], 0xE0);
    assert_eq!(borrow.registers()[0xF], 0);
}

#[test]
fn shifts_put_lost_bit_in_flag() {
    let right = run(&[0x60, 0x05, 0x80, 0x06], 2);
    assert_eq!(right.registers()[0], 0x02);
    assert_eq!(right.registers()[0xF], 1);
    let left = run(&[0x60, 0x81, 0x80, 0x0E], 2);
    assert_eq!(left.registers()[0], 0x02);
    assert_eq!(left.registers()[0xF], 1);
    let left_clear = run(&[0x60, 0x41, 0x80, 0x0E], 2);
    assert_eq!(left_clear.registers()[0], 0x82);
    assert_eq!(left_clear.registers()[0xF], 0);
}

#[test]
fn index_register_instructions() {
    let set = run(&[0xA1, 0x23], 1);
    assert_eq!(set.index_register(), 0x123);
    let add = run(&[0xA1, 0x23, 0x60, 0x10, 0xF0, 0x1E], 3);
    assert_eq!(add.index_register(), 0x133);
    let font = run(&[0x60, 0x0A, 0xF0, 0x29], 2);
    assert_eq!(font.index_register(), 50);
}

#[test]
fn timers() {
    let chip8 = run(&[0x60, 0x2A, 0xF0, 0x15, 0xF0, 0x18, 0xF1, 0x07], 4);
    assert_eq!(chip8.delay_timer(), 0x2A);
    assert_eq!(chip8.sound_timer(), 0x2A);
    assert_eq!(chip8.registers()[1], 0x2A);
}

#[test]
fn unimplemented_opcodes_only_advance() {
    let chip8 = run(&[0x60, 0x07, 0xF0, 0x33, 0xF0, 0x55, 0xF0, 0x65, 0xB1, 0x23], 5);
    assert_eq!(chip8.pc(), 0x20A);
    assert_eq!(chip8.registers()[0], 7);
    assert_eq!(chip8.index_register(), 0);
    assert!(chip8.memory()[0..5] == [0xF0, 0x90, 0x90, 0x90, 0xF0]);
}

#[test]
fn wait_for_key_blocks_without_key() {
    let mut chip8 = run(&[0xF3, 0x0A], 1);
    assert_eq!(chip8.pc(), 0x200);
    chip8.execute();
    assert_eq!(chip8.pc(), 0x200);
}

#[test]
fn wait_for_key_stores_lowest_key() {
    let mut chip8 = Chip8::new(&[0xF3, 0x0A]);
    chip8.set_key(9, true);
    chip8.set_key(5, true);
    chip8.execute();
    assert_eq!(chip8.pc(), 0x202);
    assert_eq!(chip8.registers()[3], 5);
}

#[test]
fn draw_font_glyph() {
    // I = 0 (glyph "0"), draw 5 rows at (0, 0).
    let chip8 = run(&[0xA0, 0x00, 0xD0, 0x05], 2);
    let d = chip8.get_display();
    let row = |y: usize| -> Vec<bool> { (0..8).map(|x| d[x + 64 * y]).collect() };
    assert_eq!(row(0), vec![true, true, true, true, false, false, false, false]);
    assert_eq!(row(1), vec![true, false, false, true, false, false, false, false]);
    assert_eq!(row(4), vec![true, true, true, true, false, false, false, false]);
    assert_eq!(d.iter().filter(|p| **p).count(), 14);
    assert_eq!(chip8.registers()[0xF], 0);
}

#[test]
fn draw_twice_erases_and_collides() {
    let rom = [0xA0, 0x00, 0x60, 0x03, 0x61, 0x04, 0xD0, 0x15, 0xD0, 0x15];
    let once = run(&rom, 4);
    assert!(once.get_display().iter().any(|p| *p));
    assert_eq!(once.registers()[0xF], 0);
    let twice = run(&rom, 5);
    assert!(twice.get_display().iter().all(|p| !*p));
    assert_eq!(twice.registers()[0xF], 1);
}

#[test]
fn draw_wraps_around_edges() {
    // Glyph "0" top row 0xF0 at x = 62, y = 31: columns 62, 63, 0, 1 of row 31.
    let chip8 = run(&[0xA0, 0x00, 0x60, 0x3E, 0x61, 0x1F, 0xD0, 0x11], 4);
    let d = chip8.get_display();
    assert!(d[62 + 64 * 31]);
    assert!(d[63 + 64 * 31]);
    assert!(d[0 + 64 * 31]);
    assert!(d[1 + 64 * 31]);
    assert_eq!(d.iter().filter(|p| **p).count(), 4);
}

#[test]
fn draw_coordinates_taken_modulo_screen() {
    // VX = 64 + 2, VY = 32 + 1 draws at (2, 1).
    let chip8 = run(&[0xA0, 0x00, 0x60, 0x42, 0x61, 0x21, 0xD0, 0x11], 4);
    let d = chip8.get_display();
    assert!(d[2 + 64]);
    assert!(d[5 + 64]);
    assert!(!d[6 + 64]);
}

#[test]
fn clear_screen_turns_everything_off() {
    let chip8 = run(&[0xA0, 0x00, 0xD0, 0x05, 0x00, 0xE0], 3);
    assert!(chip8.get_display().iter().all(|p| !*p));
}

#[test]
fn step_fault_pc_out_of_range() {
    let mut chip8 = run(&[0x1F, 0xFF], 1);
    assert_eq!(chip8.pc(), 0xFFF);
    assert_eq!(chip8.step_fault(), Some(StepFault::PcOutOfRange));
    chip8 = run(&[0x1F, 0xFE], 1);
    assert_eq!(chip8.step_fault(), None);
}

#[test]
fn step_fault_stack_full() {
    // Calls itself: after 16 calls the stack is full.
    let chip8 = run(&[0x22, 0x00], 16);
    assert_eq!(chip8.stack_pointer(), 16);
    assert_eq!(chip8.step_fault(), Some(StepFault::StackFull));
}

#[test]
fn step_fault_stack_empty() {
    let chip8 = Chip8::new(&[0x00, 0xEE]);
    assert_eq!(chip8.step_fault(), Some(StepFault::StackEmpty));
}

#[test]
fn step_fault_sprite_out_of_range() {
    let chip8 = run(&[0xAF, 0xFE, 0xD0, 0x03], 1);
    assert_eq!(chip8.step_fault(), Some(StepFault::SpriteOutOfRange));
    let fits = run(&[0xAF, 0xFE, 0xD0, 0x02], 1);
    assert_eq!(fits.step_fault(), None);
    let empty = run(&[0xAF, 0xFF, 0xD0, 0x00], 2);
    assert_eq!(empty.pc(), 0x204);
}

#[test]
fn call_then_return_law_on_values() {
    let rom = [0x60, 0x09, 0x22, 0x08, 0x00, 0x00, 0x00, 0x00, 0x00, 0xEE];
    let before = run(&rom, 1);
    let after = run(&rom, 3);
    assert_eq!(after.pc(), before.pc() + 2);
    assert_eq!(after.stack_pointer(), before.stack_pointer());
    assert_eq!(after.registers(), before.registers());
}

#[test]
fn add_carry_law_on_values() {
    for (a, b) in [(0u8, 0u8), (200, 100), (255, 1), (17, 38)] {
        let chip8 = run(&[0x62, a, 0x63, b, 0x82, 0x34], 3);
        let v = chip8.registers();
        assert_eq!(v[2] as u16 + 256 * v[0xF] as u16, a as u16 + b as u16);
    }
}

#[test]
fn font_character_law_on_values() {
    let chip8 = run(&[0x60, 0x07, 0xF0, 0x29], 2);
    let i = chip8.index_register() as usize;
    assert_eq!(i, 35);
    assert_eq!(&chip8.memory()[i..i + 5], &[0xF0, 0x10, 0x20, 0x40, 0x40]);
}

#[test]
fn shift_law_on_values() {
    for v in [0u8, 1, 0x80, 0xFF, 0x5A] {
        let right = run(&[0x64, v, 0x84, 0x06], 2);
        assert_eq!(2 * right.registers()[4] as u16 + right.registers()[0xF] as u16, v as u16);
        let left = run(&[0x64, v, 0x84, 0x0E], 2);
        assert_eq!(left.registers()[4] as u16 + 256 * left.registers()[0xF] as u16, 2 * v as u16);
    }
}

#[test]
fn draw_twice_law_on_values() {
    // Glyph "8" drawn over a lit pixel, then again: the screen returns to one lit pixel.
    let rom = [
        0xA0, 0x28, 0xD0, 0x11, // I = 0x28 ("8"), draw one row (0xF0) at (0, 0)
        0x60, 0x02, 0xA0, 0x28, 0xD0, 0x15, 0xD0, 0x15,
    ];
    let before = run(&rom, 2);
    let after = run(&rom, 6);
    assert_eq!(before.get_display(), after.get_display());
    assert_eq!(after.registers()[0xF], 1);
}
