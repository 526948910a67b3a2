use chip8::{binary_coded_decimal, decode, u16_from_nibbles_3, u8_from_nibbles_2};
use chip8::{Chip, ChipException, Instruction, LOAD_ADDR, MEMORY_SIZE, SCREEN_CELLS};

fn run_words(chip: &mut Chip, words: &[u16]) -> Vec<Result<(), ChipException>> {
    words.iter().map(|w| chip.exec(*w)).collect()
}

#[test]
fn nibble_helpers_join_fields() {
    assert_eq!(u16_from_nibbles_3(0xA, 0xB, 0xC), 0xABC);
    assert_eq!(u16_from_nibbles_3(0, 0, 0), 0);
    assert_eq!(u8_from_nibbles_2(0xF, 0x3), 0xF3);
    assert_eq!(binary_coded_decimal(205), (2, 0, 5));
    assert_eq!(binary_coded_decimal(9), (0, 0, 9));
    assert_eq!(binary_coded_decimal(255), (2, 5, 5));
}

#[test]
fn decode_distinguishes_shapes() {
    assert_eq!(decode(0x00E0), Some(Instruction::ClearScreen));
    assert_eq!(decode(0x00EE), Some(Instruction::Return));
    assert_eq!(decode(0x0123), Some(Instruction::MachineCall { addr: 0x123 }));
    assert_eq!(decode(0x8AB4), Some(Instruction::AddCarry { x: 0xA, y: 0xB }));
    assert_eq!(decode(0x8ABE), Some(Instruction::ShiftLeft { x: 0xA, y: 0xB }));
    assert_eq!(decode(0xD125), Some(Instruction::Draw { x: 1, y: 2, n: 5 }));
    assert_eq!(decode(0xC3F0), Some(Instruction::Random { x: 3, mask: 0xF0 }));
    assert_eq!(decode(0xF265), Some(Instruction::LoadRegs { x: 2 }));
    assert_eq!(decode(0x5121), None);
    assert_eq!(decode(0x8128), None);
    assert_eq!(decode(0xE0A2), None);
    assert_eq!(decode(0xF0FF), None);
}

#[test]
fn new_machine_holds_glyphs_and_starts_at_load_address() {
    let chip = Chip::new();
    assert_eq!(chip.ip, LOAD_ADDR);
    assert_eq!(chip.memory.len(), MEMORY_SIZE);
    assert_eq!(chip.video_memory.len(), SCREEN_CELLS);
    assert_eq!(&chip.memory[0..5], &[0xF0, 0x90, 0x90, 0x90, 0xF0]);
    assert_eq!(&chip.memory[75..80], &[0xF0, 0x80, 0xF0, 0x80, 0x80]);
    assert!(chip.memory[80..].iter().all(|b| *b == 0));
    assert!(chip.stack.is_empty());
    let d = Chip::default();
    assert_eq!(d.memory, chip.memory);
}

#[test]
fn illegal_word_is_rejected() {
    let mut chip = Chip::new();
    assert_eq!(chip.exec(0x5121), Err(ChipException::IllegalInstruction));
    assert_eq!(chip.exec(0xFFFF), Err(ChipException::IllegalInstruction));
}

#[test]
fn register_operand_above_fifteen_is_rejected() {
    let mut chip = Chip::new();
    let r = chip.execute(Instruction::LoadImm { x: 16, value: 1 }, 0);
    assert_eq!(r, Err(ChipException::InvalidRegister));
    assert_eq!(chip.data_regs, [0; 16]);
    assert_eq!(chip.resume_wait_for_key(16, 3), Err(ChipException::InvalidRegister));
}

#[test]
fn load_then_add_wraps() {
    let mut chip = Chip::new();
    let r = run_words(&mut chip, &[0x63F0, 0x7320]);
    assert!(r.iter().all(|x| x.is_ok()));
    assert_eq!(chip.data_regs[3], 0x10);
    assert_eq!(chip.data_regs[15], 0);
    run_words(&mut chip, &[0x6E05, 0x7E07]);
    assert_eq!(chip.data_regs[0xE], 12);
}

#[test]
fn add_with_carry_sets_flag() {
    let mut chip = Chip::new();
    run_words(&mut chip, &[0x61C8, 0x6264, 0x8124]);
    assert_eq!(chip.data_regs[1], 44);
    assert_eq!(chip.data_regs[15], 1);
    run_words(&mut chip, &[0x6110, 0x6220, 0x8124]);
    assert_eq!(chip.data_regs[1], 0x30);
    assert_eq!(chip.data_regs[15], 0);
    run_words(&mut chip, &[0x61FF, 0x6201, 0x8124]);
    assert_eq!(chip.data_regs[1], 0);
    assert_eq!(chip.data_regs[15], 1);
}

#[test]
fn subtract_sets_borrow_flag() {
    let mut chip = Chip::new();
    run_words(&mut chip, &[0x6105, 0x620A, 0x8125]);
    assert_eq!(chip.data_regs[1], 251);
    assert_eq!(chip.data_regs[15], 1);
    run_words(&mut chip, &[0x610A, 0x6205, 0x8125]);
    assert_eq!(chip.data_regs[1], 5);
    assert_eq!(chip.data_regs[15], 0);
    run_words(&mut chip, &[0x6105, 0x620A, 0x8127]);
    assert_eq!(chip.data_regs[1], 5);
    assert_eq!(chip.data_regs[15], 0);
    run_words(&mut chip, &[0x610A, 0x6205, 0x8127]);
    assert_eq!(chip.data_regs[1], 251);
    assert_eq!(chip.data_regs[15], 1);
}

#[test]
fn shifts_report_the_bit_shifted_out() {
    let mut chip = Chip::new();
    run_words(&mut chip, &[0x6205, 0x8126]);
    assert_eq!(chip.data_regs[1], 2);
    assert_eq!(chip.data_regs[15], 1);
    run_words(&mut chip, &[0x6281, 0x812E]);
    assert_eq!(chip.data_regs[1], 2);
    assert_eq!(chip.data_regs[15], 1);
    run_words(&mut chip, &[0x6240, 0x822E]);
    assert_eq!(chip.data_regs[2], 0x80);
    assert_eq!(chip.data_regs[15], 0);
}

#[test]
fn logic_and_move() {
    let mut chip = Chip::new();
    run_words(&mut chip, &[0x61F0, 0x623C, 0x8121]);
    assert_eq!(chip.data_regs[1], 0xFC);
    run_words(&mut chip, &[0x61F0, 0x8122]);
    assert_eq!(chip.data_regs[1], 0x30);
    run_words(&mut chip, &[0x61F0, 0x8123]);
    assert_eq!(chip.data_regs[1], 0xCC);
    run_words(&mut chip, &[0x8320]);
    assert_eq!(chip.data_regs[3], 0x3C);
}

#[test]
fn skips_and_jumps_move_the_pointer() {
    let mut chip = Chip::new();
    chip.ip = 0x300;
    run_words(&mut chip, &[0x6107, 0x3107]);
    assert_eq!(chip.ip, 0x302);
    run_words(&mut chip, &[0x4107]);
    assert_eq!(chip.ip, 0x302);
    run_words(&mut chip, &[0x6207, 0x5120]);
    assert_eq!(chip.ip, 0x304);
    run_words(&mut chip, &[0x9120]);
    assert_eq!(chip.ip, 0x304);
    run_words(&mut chip, &[0x1ABC]);
    assert_eq!(chip.ip, 0xABC);
    run_words(&mut chip, &[0x60FF, 0xBFFF]);
    assert_eq!(chip.ip, 0xFF + 0xFFF);
}

#[test]
fn call_then_return_resumes_after_the_call() {
    let mut chip = Chip::new();
    chip.load_program(&[0x23, 0x00]);
    chip.memory[0x300] = 0x00;
    chip.memory[0x301] = 0xEE;
    assert_eq!(chip.cycle(), Ok(()));
    assert_eq!(chip.ip, 0x300);
    assert_eq!(chip.stack, vec![0x202]);
    assert_eq!(chip.cycle(), Ok(()));
    assert_eq!(chip.ip, 0x202);
    assert!(chip.stack.is_empty());
    assert_eq!(chip.exec(0x00EE), Err(ChipException::ReturnOutsideSubroutine));
    assert_eq!(chip.ip, 0x202);
}

#[test]
fn machine_call_behaves_as_call() {
    let mut chip = Chip::new();
    chip.ip = 0x206;
    assert_eq!(chip.exec(0x0456), Ok(()));
    assert_eq!(chip.ip, 0x456);
    assert_eq!(chip.stack, vec![0x206]);
}

#[test]
fn glyph_address_is_five_per_digit() {
    let mut chip = Chip::new();
    run_words(&mut chip, &[0x650A, 0xF529]);
    assert_eq!(chip.addr_reg, 50);
    run_words(&mut chip, &[0x6510]);
    assert_eq!(chip.exec(0xF529), Err(ChipException::InvalidFontCodePoint));
    assert_eq!(chip.addr_reg, 50);
}

#[test]
fn decimal_digits_are_stored() {
    let mut chip = Chip::new();
    let r = run_words(&mut chip, &[0x64CD, 0xA300, 0xF433]);
    assert!(r.iter().all(|x| x.is_ok()));
    assert_eq!(&chip.memory[0x300..0x303], &[2, 0, 5]);
}

#[test]
fn store_and_load_registers() {
    let mut chip = Chip::new();
    run_words(&mut chip, &[0x6011, 0x6122, 0x6233, 0x6344, 0xA400, 0xF255]);
    assert_eq!(&chip.memory[0x400..0x404], &[0x11, 0x22, 0x33, 0]);
    chip.memory[0x500] = 9;
    chip.memory[0x501] = 8;
    run_words(&mut chip, &[0xA500, 0xF165]);
    assert_eq!(&chip.data_regs[0..4], &[9, 8, 0x33, 0x44]);
}

#[test]
fn address_register_adds_with_wrap() {
    let mut chip = Chip::new();
    chip.addr_reg = 0xFFFF;
    run_words(&mut chip, &[0x6102, 0xF11E]);
    assert_eq!(chip.addr_reg, 1);
}

#[test]
fn timers_are_set_read_and_decay() {
    let mut chip = Chip::new();
    run_words(&mut chip, &[0x6103, 0xF115, 0x6201, 0xF218, 0xF307]);
    assert_eq!(chip.delay_timer, 3);
    assert_eq!(chip.sound_timer, 1);
    assert_eq!(chip.data_regs[3], 3);
    chip.tick_timers();
    assert_eq!((chip.delay_timer, chip.sound_timer), (2, 0));
    chip.tick_timers();
    chip.tick_timers();
    chip.tick_timers();
    assert_eq!((chip.delay_timer, chip.sound_timer), (0, 0));
}

#[test]
fn random_byte_is_masked() {
    let mut chip = Chip::new();
    assert_eq!(chip.execute(Instruction::Random { x: 2, mask: 0xF0 }, 0xAB), Ok(()));
    assert_eq!(chip.data_regs[2], 0xA0);
    assert_eq!(chip.exec_with_random(0xC30F, 0xAB), Ok(()));
    assert_eq!(chip.data_regs[3], 0x0B);
    for _ in 0..20 {
        assert_eq!(chip.exec(0xC40F), Ok(()));
        assert_eq!(chip.data_regs[4] & 0xF0, 0);
    }
}

#[test]
fn clear_draw_and_draw_again() {
    let mut chip = Chip::new();
    let r = run_words(&mut chip, &[0x00E0, 0xA000, 0x6002, 0x6103, 0xD015]);
    assert!(r.iter().all(|x| x.is_ok()));
    assert_eq!(chip.data_regs[15], 0);
    // first row of the zero glyph: 0xF0 at row 3, columns 2..6
    for col in 0..8usize {
        let lit = chip.video_memory[3 * 64 + 2 + col];
        assert_eq!(lit, if col < 4 { 1 } else { 0 });
    }
    assert_eq!(chip.video_memory.iter().filter(|c| **c == 1).count(), 14);
    assert_eq!(chip.exec(0xD015), Ok(()));
    assert_eq!(chip.data_regs[15], 1);
    assert!(chip.video_memory.iter().all(|c| *c == 0));
}

#[test]
fn drawing_past_the_bottom_stops_with_offset() {
    let mut chip = Chip::new();
    let r = run_words(&mut chip, &[0xA000, 0x6000, 0x611F]);
    assert!(r.iter().all(|x| x.is_ok()));
    assert_eq!(chip.exec(0xD012), Err(ChipException::DrawingOutOfBounds { offset: 2048 }));
    // the first row was drawn before the overrun and stays drawn
    assert_eq!(&chip.video_memory[31 * 64..31 * 64 + 4], &[1, 1, 1, 1]);
}

#[test]
fn key_outcomes_suspend_and_resume() {
    let mut chip = Chip::new();
    chip.ip = 0x300;
    run_words(&mut chip, &[0x6505]);
    let out = chip.exec(0xE59E);
    assert_eq!(out, Err(ChipException::SkipIfPressed { register: 5 }));
    let mut keys = [false; 16];
    keys[5] = true;
    assert_eq!(chip.resolve_skip(ChipException::SkipIfPressed { register: 5 }, &keys), Ok(()));
    assert_eq!(chip.ip, 0x302);
    assert_eq!(chip.exec(0xE5A1), Err(ChipException::SkipIfNotPressed { register: 5 }));
    assert_eq!(chip.resolve_skip(ChipException::SkipIfNotPressed { register: 5 }, &keys), Ok(()));
    assert_eq!(chip.ip, 0x302);
    keys[5] = false;
    assert_eq!(chip.resolve_skip(ChipException::SkipIfNotPressed { register: 5 }, &keys), Ok(()));
    assert_eq!(chip.ip, 0x304);
    assert_eq!(
        chip.resolve_skip(ChipException::IllegalInstruction, &keys),
        Err(ChipException::IllegalInstruction)
    );
    assert_eq!(chip.exec(0xF70A), Err(ChipException::WaitForKey { register: 7 }));
    assert_eq!(chip.resume_wait_for_key(7, 0xC), Ok(()));
    assert_eq!(chip.data_regs[7], 0xC);
    assert_eq!(chip.ip, 0x304);
}

#[test]
fn oversized_program_is_truncated() {
    let mut chip = Chip::new();
    let program: Vec<u8> = (0..4000u32).map(|i| (i % 251) as u8 + 1).collect();
    let n = chip.load_program(&program);
    assert_eq!(n, MEMORY_SIZE - 0x200);
    assert_eq!(chip.memory.len(), MEMORY_SIZE);
    assert_eq!(&chip.memory[0x200..], &program[..n]);
    assert_eq!(&chip.memory[0..5], &[0xF0, 0x90, 0x90, 0x90, 0xF0]);
    let mut small = Chip::new();
    assert_eq!(small.load_program(&[1, 2, 3]), 3);
    assert_eq!(&small.memory[0x200..0x204], &[1, 2, 3, 0]);
}
