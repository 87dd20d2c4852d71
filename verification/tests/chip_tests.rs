use chip8::chip8::{decode, Chip, Fault, Instruction, FONT_START, PROGRAM_START};

/// Splits opcodes into program bytes, high byte first.
fn program(ops: &[u16]) -> Vec<u8> {
    let mut bytes = Vec::new();
    for op in ops {
        bytes.push((op >> 8) as u8);
        bytes.push((op & 0xFF) as u8);
    }
    bytes
}

/// Loads the opcodes and runs `n` cycles, none of which may fault.
fn run(ops: &[u16], n: usize) -> Chip {
    let mut chip = Chip::new(&program(ops));
    for _ in 0..n {
        assert_eq!(None, chip.fault());
        chip.cycle();
    }
    chip
}

const FONT_BYTES: [u8; 10] = [0xF0, 0x90, 0x90, 0x90, 0xF0, 0x20, 0x60, 0x20, 0x20, 0x70];

#[test]
fn dumb_shift_test() {
    assert_eq!(2, 4 >> 1)
}

#[test]
fn instruction_test() {}

#[test]
fn new_loads_font_and_program() {
    let chip = Chip::new(&[0xAB, 0xCD, 0xEF]);
    assert_eq!(0x050, FONT_START);
    for i in 0..10 {
        assert_eq!(FONT_BYTES[i], chip.memory(0x050 + i));
    }
    assert_eq!(0xF0, chip.memory(0x050 + 75));
    assert_eq!(0x80, chip.memory(0x050 + 79));
    assert_eq!(0, chip.memory(0x0A0));
    assert_eq!(0, chip.memory(0x04F));
    assert_eq!(0, chip.memory(0));
    assert_eq!(0xAB, chip.memory(0x200));
    assert_eq!(0xCD, chip.memory(0x201));
    assert_eq!(0xEF, chip.memory(0x202));
    assert_eq!(0, chip.memory(0x203));
    assert_eq!(PROGRAM_START, chip.program_counter());
    assert_eq!(0, chip.index());
    assert_eq!(0, chip.stack_size());
    assert_eq!(0, chip.delay_timer());
    assert_eq!(0, chip.sound_timer());
    for r in 0..16 {
        assert_eq!(0, chip.register(r));
    }
}

#[test]
fn new_truncates_long_programs() {
    let mut bytes = vec![0x11u8; 0xE10];
    bytes[0xDFF] = 1;
    bytes[0xE00] = 2;
    let chip = Chip::new(&bytes);
    assert_eq!(0x11, chip.memory(0xFFE));
    assert_eq!(1, chip.memory(0xFFF));
    let chip = Chip::new(&bytes[..0xE00]);
    assert_eq!(1, chip.memory(0xFFF));
}

#[test]
fn decode_examples() {
    assert_eq!(Instruction::Cls, decode(0x00E0));
    assert_eq!(Instruction::Ret, decode(0x00EE));
    assert_eq!(Instruction::Jump(0x123), decode(0x0123));
    assert_eq!(Instruction::Jump(0x456), decode(0x1456));
    assert_eq!(Instruction::Jump(0x789), decode(0xA789));
    assert_eq!(Instruction::Call(0x300), decode(0x2300));
    assert_eq!(Instruction::SkipEqImm(4, 0x56), decode(0x3456));
    assert_eq!(Instruction::SkipEqReg(1, 2), decode(0x5120));
    assert_eq!(Instruction::Unknown(0x5121), decode(0x5121));
    assert_eq!(Instruction::AddReg(0xA, 0xB), decode(0x8AB4));
    assert_eq!(Instruction::ShiftLeft(3), decode(0x834E));
    assert_eq!(Instruction::Unknown(0x8128), decode(0x8128));
    assert_eq!(Instruction::Draw(1, 2, 5), decode(0xD125));
    assert_eq!(Instruction::SkipKey(7), decode(0xE79E));
    assert_eq!(Instruction::Unknown(0xE7A2), decode(0xE7A2));
    assert_eq!(Instruction::AddIndex(3), decode(0xF31E));
    assert_eq!(Instruction::AddIndex(3), decode(0xF329));
    assert_eq!(Instruction::Digits(9), decode(0xF933));
    assert_eq!(Instruction::LoadRegs(0xF), decode(0xFF65));
    assert_eq!(Instruction::Unknown(0xF0FF), decode(0xF0FF));
}

#[test]
fn load_and_add_immediate() {
    let chip = run(&[0x6A42, 0x6005, 0x7003], 3);
    assert_eq!(0x42, chip.register(0xA));
    assert_eq!(8, chip.register(0));
    assert_eq!(0x206, chip.program_counter());
}

#[test]
fn add_immediate_overflow_is_a_fault() {
    let chip = run(&[0x60FF, 0x7001], 1);
    assert_eq!(Some(Fault::Overflow), chip.fault());
}

#[test]
fn register_logic() {
    let chip = run(&[0x600C, 0x610A, 0x6200, 0x8201, 0x8011, 0x6309, 0x8312, 0x6405, 0x8413], 9);
    assert_eq!(0x0E, chip.register(0));
    assert_eq!(0x0C, chip.register(2));
    assert_eq!(0x08, chip.register(3));
    assert_eq!(0x0F, chip.register(4));
}

#[test]
fn add_registers_sets_carry() {
    let chip = run(&[0x60FF, 0x6102, 0x8014], 3);
    assert_eq!(1, chip.register(0));
    assert_eq!(1, chip.register(0xF));
    let chip = run(&[0x6010, 0x6120, 0x8014], 3);
    assert_eq!(0x30, chip.register(0));
    assert_eq!(0, chip.register(0xF));
}

#[test]
fn add_into_flag_register_keeps_the_sum() {
    let chip = run(&[0x6F10, 0x6120, 0x8F14], 3);
    assert_eq!(0x30, chip.register(0xF));
}

#[test]
fn subtract_registers() {
    let chip = run(&[0x6005, 0x6103, 0x8015], 3);
    assert_eq!(2, chip.register(0));
    assert_eq!(0, chip.register(0xF));
    let chip = run(&[0x6003, 0x6105, 0x8017], 3);
    assert_eq!(2, chip.register(0));
    assert_eq!(1, chip.register(0xF));
}

#[test]
fn subtraction_underflow_is_a_fault() {
    let chip = run(&[0x6003, 0x6105, 0x8015], 2);
    assert_eq!(Some(Fault::Overflow), chip.fault());
    let chip = run(&[0x6005, 0x6103, 0x8017], 2);
    assert_eq!(Some(Fault::Overflow), chip.fault());
}

#[test]
fn shifts_set_the_flag() {
    let chip = run(&[0x6005, 0x8006], 2);
    assert_eq!(2, chip.register(0));
    assert_eq!(1, chip.register(0xF));
    let chip = run(&[0x6081, 0x800E], 2);
    assert_eq!(2, chip.register(0));
    assert_eq!(1, chip.register(0xF));
    let chip = run(&[0x6040, 0x800E], 2);
    assert_eq!(0x80, chip.register(0));
    assert_eq!(0, chip.register(0xF));
}

#[test]
fn conditional_skips() {
    assert_eq!(0x206, run(&[0x6005, 0x3005], 2).program_counter());
    assert_eq!(0x204, run(&[0x6005, 0x3006], 2).program_counter());
    assert_eq!(0x206, run(&[0x6005, 0x4006], 2).program_counter());
    assert_eq!(0x204, run(&[0x6005, 0x4005], 2).program_counter());
    assert_eq!(0x208, run(&[0x6005, 0x6105, 0x5010], 3).program_counter());
    assert_eq!(0x206, run(&[0x6005, 0x6106, 0x5010], 3).program_counter());
    assert_eq!(0x208, run(&[0x6005, 0x6106, 0x9010], 3).program_counter());
    assert_eq!(0x206, run(&[0x6005, 0x6105, 0x9010], 3).program_counter());
}

#[test]
fn jumps() {
    assert_eq!(0x300, run(&[0x1300], 1).program_counter());
    assert_eq!(0x345, run(&[0xA345], 1).program_counter());
    assert_eq!(0x123, run(&[0x0123], 1).program_counter());
    assert_eq!(0x304, run(&[0x6004, 0xB300], 2).program_counter());
}

#[test]
fn call_and_return() {
    // 0x200: call 0x206; 0x206: return.
    let chip = run(&[0x2206, 0x0000, 0x0000, 0x00EE], 1);
    assert_eq!(0x206, chip.program_counter());
    assert_eq!(1, chip.stack_size());
    let chip = run(&[0x2206, 0x0000, 0x0000, 0x00EE], 2);
    assert_eq!(0x202, chip.program_counter());
    assert_eq!(0, chip.stack_size());
}

#[test]
fn return_with_empty_stack_is_a_fault() {
    let chip = Chip::new(&program(&[0x00EE]));
    assert_eq!(Some(Fault::EmptyStack), chip.fault());
}

#[test]
fn call_with_full_stack_still_jumps() {
    // 0x200: call 0x200, forever.
    let chip = run(&[0x2200], 16);
    assert_eq!(0x200, chip.program_counter());
    assert_eq!(15, chip.stack_size());
}

#[test]
fn random_masks_the_register() {
    let chip = run(&[0x60FF, 0xC00F], 2);
    assert_eq!(0x0F, chip.register(0));
    let chip = run(&[0x6030, 0xC00F], 2);
    assert_eq!(0, chip.register(0));
}

#[test]
fn draw_font_glyph_and_collide() {
    // I = 0x50, the glyph "0"; then draws its 5 bytes at column 0, row 1
    // (the register numbers).
    let setup = [0x6250, 0xF21E];
    let chip = run(&[setup[0], setup[1], 0xD015], 3);
    assert_eq!(0, chip.register(0xF));
    assert!(chip.display.get_pixel(0, 1));
    assert!(chip.display.get_pixel(3, 1));
    assert!(!chip.display.get_pixel(4, 1));
    assert!(chip.display.get_pixel(0, 2));
    assert!(!chip.display.get_pixel(1, 2));
    let chip = run(&[setup[0], setup[1], 0xD015, 0xD015], 4);
    assert_eq!(1, chip.register(0xF));
    assert!(!chip.display.get_pixel(0, 1));
    let chip = run(&[setup[0], setup[1], 0xD015, 0x00E0], 4);
    assert!(!chip.display.get_pixel(0, 1));
    assert!(!chip.display().get_pixel(3, 1));
}

#[test]
fn timers_count_down() {
    let chip = run(&[0x6005, 0xF015, 0xF107, 0x6203, 0xF218], 5);
    assert_eq!(4, chip.register(1));
    assert_eq!(1, chip.delay_timer());
    assert_eq!(2, chip.sound_timer());
    let chip = run(&[0x6001, 0xF015, 0x1204], 4);
    assert_eq!(0, chip.delay_timer());
}

#[test]
fn index_and_digits() {
    let chip = run(&[0x6020, 0xF01E, 0x6110, 0xF129, 0xF533], 5);
    assert_eq!(0x30, chip.index());
    assert_eq!(0, chip.memory(0x30));
    assert_eq!(0, chip.memory(0x31));
    assert_eq!(5, chip.memory(0x32));
    let chip = run(&[0x6020, 0xF01E, 0xFC33], 3);
    assert_eq!(1, chip.memory(0x21));
    assert_eq!(2, chip.memory(0x22));
}

#[test]
fn store_and_load_registers() {
    let chip = run(
        &[0x6011, 0x6122, 0x6210, 0xF21E, 0xF155, 0x6000, 0x6100, 0xF165],
        8,
    );
    assert_eq!(0x11, chip.memory(0x10));
    assert_eq!(0x22, chip.memory(0x11));
    assert_eq!(0x11, chip.register(0));
    assert_eq!(0x22, chip.register(1));
    assert_eq!(0x10, chip.register(2));
}

#[test]
fn keys_are_up() {
    assert_eq!(0x202, run(&[0xE09E], 1).program_counter());
    assert_eq!(0x204, run(&[0xE0A1], 1).program_counter());
    assert_eq!(0x202, run(&[0xF00A], 1).program_counter());
}

#[test]
fn unknown_opcode_is_reported() {
    let mut chip = Chip::new(&program(&[0x6005, 0x5011, 0x8008]));
    assert_eq!(None, chip.cycle());
    assert_eq!(Some(0x5011), chip.cycle());
    assert_eq!(Some(0x8008), chip.cycle());
    assert_eq!(5, chip.register(0));
    assert_eq!(0x206, chip.program_counter());
}

#[test]
fn running_off_memory_is_a_fault() {
    let chip = run(&[0x1FFF], 1);
    assert_eq!(Some(Fault::ProgramCounter), chip.fault());
    let chip = run(&[0x1FFE], 1);
    assert_eq!(None, chip.fault());
}

#[test]
fn digits_at_end_of_memory_is_a_fault() {
    let mut ops = vec![0x60FF];
    for _ in 0..16 {
        ops.push(0xF01E);
    }
    ops.push(0x6E0E);
    ops.push(0xFE1E);
    ops.push(0xF033);
    let chip = run(&ops, 19);
    assert_eq!(4094, chip.index());
    assert_eq!(Some(Fault::MemoryAccess), chip.fault());
}

#[test]
fn index_overflow_is_a_fault() {
    // V0 = 255; loop { I += V0 }
    let mut chip = Chip::new(&program(&[0x60FF, 0xF01E, 0x1202]));
    let mut cycles = 0;
    while chip.fault().is_none() {
        chip.cycle();
        cycles += 1;
        assert!(cycles < 10_000);
    }
    assert_eq!(Some(Fault::Overflow), chip.fault());
    assert_eq!(65535, chip.index());
}

#[test]
fn picture_test_lights_a_pixel() {
    let mut chip = Chip::new(&[]);
    chip.picture_test(12, 7);
    assert!(chip.display.get_pixel(12, 7));
    assert_eq!(1, chip.display.mem[12][7]);
}
