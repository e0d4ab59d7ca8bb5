use chip8_core::model::{CpuError, SCREEN_SIZE, SCREEN_WIDTH};
use chip8_core::Cpu;

fn machine_with(program: &[u8]) -> Cpu {
    let mut cpu = Cpu::new();
    cpu.load(program).unwrap();
    cpu
}

fn run(program: &[u8], ticks: usize) -> Cpu {
    let mut cpu = machine_with(program);
    for _ in 0..ticks {
        cpu.tick_with(0).unwrap();
    }
    cpu
}

fn lit(cpu: &Cpu, x: usize, y: usize) -> bool {
    cpu.get_display()[x + SCREEN_WIDTH * y]
}

#[test]
fn new_machine_state() {
    let cpu = Cpu::new();
    assert_eq!(cpu.pc(), 0x200);
    assert_eq!(cpu.memory().len(), 4096);
    assert_eq!(&cpu.memory()[0..5], &[0xF0, 0x90, 0x90, 0x90, 0xF0]);
    assert_eq!(&cpu.memory()[75..80], &[0xF0, 0x80, 0xF0, 0x80, 0x80]);
    assert!(cpu.memory()[80..].iter().all(|&b| b == 0));
    assert_eq!(cpu.get_display().len(), SCREEN_SIZE);
    assert!(cpu.get_display().iter().all(|&p| !p));
    assert_eq!(cpu.registers(), &[0u8; 16]);
    assert_eq!(cpu.index_register(), 0);
    assert_eq!(cpu.stack_pointer(), 0);
    assert_eq!(cpu.delay_timer(), 0);
    assert_eq!(cpu.sound_timer(), 0);
}

#[test]
fn load_then_add_immediate() {
    let cpu = run(&[0x60, 0x0A, 0x70, 0x05], 2);
    assert_eq!(cpu.registers()[0], 0x0F);
    assert_eq!(cpu.pc(), 0x204);
}

#[test]
fn load_copies_at_load_address() {
    let cpu = machine_with(&[1, 2, 3]);
    assert_eq!(&cpu.memory()[0x200..0x204], &[1, 2, 3, 0]);
    assert_eq!(cpu.memory()[0x1FF], 0);
}

#[test]
fn load_largest_program_fits() {
    let mut cpu = Cpu::new();
    let data = vec![7u8; 4096 - 0x200];
    assert_eq!(cpu.load(&data), Ok(()));
    assert_eq!(cpu.memory()[4095], 7);
}

#[test]
fn load_too_large_is_refused_untouched() {
    let mut cpu = Cpu::new();
    let data = vec![7u8; 4096 - 0x200 + 1];
    assert_eq!(cpu.load(&data), Err(CpuError::ProgramTooLarge { len: 3585 }));
    assert!(cpu.memory()[0x200..].iter().all(|&b| b == 0));
}

#[test]
fn add_immediate_wraps_without_flag() {
    let cpu = run(&[0x60, 0xFF, 0x70, 0x03], 2);
    assert_eq!(cpu.registers()[0], 0x02);
    assert_eq!(cpu.registers()[15], 0);
}

#[test]
fn clear_screen_blanks_every_pixel() {
    // I = 0 (glyph "0"), draw it at (0, 0), then clear.
    let mut cpu = run(&[0xA0, 0x00, 0xD0, 0x05], 2);
    assert!(cpu.get_display().iter().any(|&p| p));
    cpu.load(&[0xA0, 0x00, 0xD0, 0x05, 0x00, 0xE0]).unwrap();
    cpu.tick_with(0).unwrap();
    assert!(cpu.get_display().iter().all(|&p| !p));
}

#[test]
fn call_then_return() {
    let mut program = vec![0u8; 0x102];
    program[0] = 0x23;
    program[1] = 0x00;
    program[0x100] = 0x00;
    program[0x101] = 0xEE;
    let mut cpu = machine_with(&program);
    cpu.tick_with(0).unwrap();
    assert_eq!(cpu.pc(), 0x300);
    assert_eq!(cpu.stack_pointer(), 1);
    cpu.tick_with(0).unwrap();
    assert_eq!(cpu.pc(), 0x202);
    assert_eq!(cpu.stack_pointer(), 0);
}

#[test]
fn key_wait_blocks_until_a_key() {
    let mut cpu = machine_with(&[0xF1, 0x0A]);
    cpu.tick_with(0).unwrap();
    assert_eq!(cpu.pc(), 0x200);
    cpu.tick_with(0).unwrap();
    assert_eq!(cpu.pc(), 0x200);
    cpu.keypress(5, true).unwrap();
    cpu.tick_with(0).unwrap();
    assert_eq!(cpu.pc(), 0x202);
    assert_eq!(cpu.registers()[1], 5);
}

#[test]
fn key_wait_takes_lowest_pressed_key() {
    let mut cpu = machine_with(&[0xF2, 0x0A]);
    cpu.keypress(9, true).unwrap();
    cpu.keypress(4, true).unwrap();
    cpu.tick_with(0).unwrap();
    assert_eq!(cpu.registers()[2], 4);
}

#[test]
fn add_registers_with_carry() {
    let cpu = run(&[0x60, 0xFF, 0x61, 0x02, 0x80, 0x14], 3);
    assert_eq!(cpu.registers()[0], 0x01);
    assert_eq!(cpu.registers()[15], 1);
}

#[test]
fn add_registers_without_carry() {
    let cpu = run(&[0x60, 0x10, 0x61, 0x20, 0x80, 0x14], 3);
    assert_eq!(cpu.registers()[0], 0x30);
    assert_eq!(cpu.registers()[15], 0);
}

#[test]
fn add_registers_exactly_256_carries() {
    let cpu = run(&[0x60, 0x80, 0x61, 0x80, 0x80, 0x14], 3);
    assert_eq!(cpu.registers()[0], 0);
    assert_eq!(cpu.registers()[15], 1);
}

#[test]
fn subtract_with_borrow() {
    let cpu = run(&[0x60, 0x05, 0x61, 0x07, 0x80, 0x15], 3);
    assert_eq!(cpu.registers()[0], 0xFE);
    assert_eq!(cpu.registers()[15], 0);
}

#[test]
fn subtract_without_borrow() {
    let cpu = run(&[0x60, 0x07, 0x61, 0x07, 0x80, 0x15], 3);
    assert_eq!(cpu.registers()[0], 0);
    assert_eq!(cpu.registers()[15], 1);
}

#[test]
fn reverse_subtract() {
    let cpu = run(&[0x60, 0x07, 0x61, 0x05, 0x80, 0x17], 3);
    assert_eq!(cpu.registers()[0], 0xFE);
    assert_eq!(cpu.registers()[15], 0);
    let cpu = run(&[0x60, 0x05, 0x61, 0x07, 0x80, 0x17], 3);
    assert_eq!(cpu.registers()[0], 2);
    assert_eq!(cpu.registers()[15], 1);
}

#[test]
fn shift_right_keeps_low_bit_in_flag() {
    let cpu = run(&[0x60, 0x05, 0x80, 0x06], 2);
    assert_eq!(cpu.registers()[0], 2);
    assert_eq!(cpu.registers()[15], 1);
    let cpu = run(&[0x60, 0x04, 0x80, 0x06], 2);
    assert_eq!(cpu.registers()[0], 2);
    assert_eq!(cpu.registers()[15], 0);
}

#[test]
fn shift_left_keeps_high_bit_in_flag() {
    let cpu = run(&[0x60, 0x81, 0x80, 0x0E], 2);
    assert_eq!(cpu.registers()[0], 0x02);
    assert_eq!(cpu.registers()[15], 1);
}

#[test]
fn bitwise_operations() {
    let cpu = run(&[0x60, 0x0C, 0x61, 0x0A, 0x62, 0x0C, 0x63, 0x0C, 0x80, 0x11, 0x82, 0x12, 0x83, 0x13, 0x84, 0x10], 8);
    assert_eq!(cpu.registers()[0], 0x0E);
    assert_eq!(cpu.registers()[2], 0x08);
    assert_eq!(cpu.registers()[3], 0x06);
    assert_eq!(cpu.registers()[4], 0x0A);
}

#[test]
fn draw_twice_restores_screen() {
    // V0 = 3, V1 = 2, I = glyph "8", draw, draw again.
    let mut cpu = run(&[0x60, 0x03, 0x61, 0x02, 0xA0, 0x28, 0xD0, 0x15, 0xD0, 0x15], 4);
    assert_eq!(cpu.registers()[15], 0);
    assert!(lit(&cpu, 3, 2));
    cpu.tick_with(0).unwrap();
    assert!(cpu.get_display().iter().all(|&p| !p));
    assert_eq!(cpu.registers()[15], 1);
}

#[test]
fn draw_wraps_horizontally() {
    // V0 = 63, V1 = 0, I = glyph "0" (first row 0xF0: four columns).
    let cpu = run(&[0x60, 0x3F, 0x61, 0x00, 0xA0, 0x00, 0xD0, 0x11], 4);
    assert!(lit(&cpu, 63, 0));
    assert!(lit(&cpu, 0, 0));
    assert!(lit(&cpu, 1, 0));
    assert!(lit(&cpu, 2, 0));
    assert!(!lit(&cpu, 3, 0));
    assert_eq!(cpu.get_display().iter().filter(|&&p| p).count(), 4);
}

#[test]
fn draw_wraps_vertically() {
    // V0 = 0, V1 = 31, I = glyph "1": rows 0x20, 0x60.
    let cpu = run(&[0x60, 0x00, 0x61, 0x1F, 0xA0, 0x05, 0xD0, 0x12], 4);
    assert!(lit(&cpu, 2, 31));
    assert!(lit(&cpu, 1, 0));
    assert!(lit(&cpu, 2, 0));
    assert_eq!(cpu.get_display().iter().filter(|&&p| p).count(), 3);
}

#[test]
fn draw_coordinates_beyond_screen_wrap() {
    // V0 = 64 + 5, V1 = 32 + 1: same as drawing at (5, 1).
    let cpu = run(&[0x60, 0x45, 0x61, 0x21, 0xA0, 0x05, 0xD0, 0x11], 4);
    assert!(lit(&cpu, 7, 1));
    assert_eq!(cpu.get_display().iter().filter(|&&p| p).count(), 1);
}

#[test]
fn draw_past_memory_end_is_refused() {
    // I = 0xFFF, draw two rows.
    let mut cpu = run(&[0xAF, 0xFF, 0xD0, 0x02], 1);
    assert_eq!(cpu.tick_with(0), Err(CpuError::MemoryOutOfBounds { addr: 4096 }));
    assert_eq!(cpu.pc(), 0x202);
    assert!(cpu.get_display().iter().all(|&p| !p));
}

#[test]
fn reset_restores_initial_state() {
    let mut cpu = run(&[0x60, 0x03, 0xA0, 0x28, 0xD0, 0x15, 0xF0, 0x15, 0xF0, 0x18, 0x22, 0x00], 6);
    cpu.keypress(2, true).unwrap();
    assert_ne!(cpu.stack_pointer(), 0);
    cpu.reset();
    let fresh = Cpu::new();
    assert_eq!(cpu.pc(), fresh.pc());
    assert_eq!(cpu.memory(), fresh.memory());
    assert_eq!(cpu.get_display(), fresh.get_display());
    assert_eq!(cpu.registers(), fresh.registers());
    assert_eq!(cpu.index_register(), fresh.index_register());
    assert_eq!(cpu.stack_pointer(), fresh.stack_pointer());
    assert_eq!(cpu.delay_timer(), fresh.delay_timer());
    assert_eq!(cpu.sound_timer(), fresh.sound_timer());
    // The key was released by the reset: a key wait now blocks.
    cpu.load(&[0xF0, 0x0A]).unwrap();
    cpu.tick_with(0).unwrap();
    assert_eq!(cpu.pc(), 0x200);
}

#[test]
fn unknown_opcode_is_reported_and_nothing_changes() {
    let mut cpu = machine_with(&[0x50, 0x01]);
    assert_eq!(cpu.tick_with(0), Err(CpuError::UnknownOpcode { op: 0x5001 }));
    assert_eq!(cpu.pc(), 0x200);
    let mut cpu = machine_with(&[0xFF, 0xFF]);
    assert_eq!(cpu.tick_with(0), Err(CpuError::UnknownOpcode { op: 0xFFFF }));
    let mut cpu = machine_with(&[0x00, 0x01]);
    assert_eq!(cpu.tick_with(0), Err(CpuError::UnknownOpcode { op: 0x0001 }));
    let mut cpu = machine_with(&[0x80, 0x08]);
    assert_eq!(cpu.tick_with(0), Err(CpuError::UnknownOpcode { op: 0x8008 }));
}

#[test]
fn zero_word_is_a_no_op() {
    let cpu = run(&[0x00, 0x00], 1);
    assert_eq!(cpu.pc(), 0x202);
}

#[test]
fn return_on_empty_stack_underflows() {
    let mut cpu = machine_with(&[0x00, 0xEE]);
    assert_eq!(cpu.tick_with(0), Err(CpuError::StackUnderflow));
    assert_eq!(cpu.pc(), 0x200);
}

#[test]
fn seventeenth_nested_call_overflows() {
    // The instruction at 0x200 calls itself.
    let mut cpu = machine_with(&[0x22, 0x00]);
    for _ in 0..16 {
        cpu.tick_with(0).unwrap();
    }
    assert_eq!(cpu.stack_pointer(), 16);
    assert_eq!(cpu.tick_with(0), Err(CpuError::StackOverflow));
    assert_eq!(cpu.stack_pointer(), 16);
    assert_eq!(cpu.pc(), 0x200);
}

#[test]
fn fetch_past_memory_end_is_refused() {
    let mut cpu = run(&[0x1F, 0xFF], 1);
    assert_eq!(cpu.pc(), 0xFFF);
    assert_eq!(cpu.tick_with(0), Err(CpuError::MemoryOutOfBounds { addr: 4096 }));
    assert_eq!(cpu.pc(), 0xFFF);
}

#[test]
fn keypress_out_of_range_is_refused() {
    let mut cpu = Cpu::new();
    assert_eq!(cpu.keypress(16, true), Err(CpuError::KeyOutOfRange { key: 16 }));
    assert_eq!(cpu.keypress(15, true), Ok(()));
}

#[test]
fn skip_if_key_pressed_or_not() {
    let mut cpu = machine_with(&[0x60, 0x07, 0xE0, 0x9E]);
    cpu.keypress(7, true).unwrap();
    cpu.tick_with(0).unwrap();
    cpu.tick_with(0).unwrap();
    assert_eq!(cpu.pc(), 0x206);
    let cpu = run(&[0x60, 0x07, 0xE0, 0x9E], 2);
    assert_eq!(cpu.pc(), 0x204);
    let cpu = run(&[0x60, 0x07, 0xE0, 0xA1], 2);
    assert_eq!(cpu.pc(), 0x206);
}

#[test]
fn key_register_out_of_range_is_refused() {
    let mut cpu = run(&[0x60, 0x10, 0xE0, 0x9E], 1);
    assert_eq!(cpu.tick_with(0), Err(CpuError::KeyOutOfRange { key: 16 }));
    assert_eq!(cpu.pc(), 0x202);
}

#[test]
fn conditional_skips() {
    assert_eq!(run(&[0x60, 0x05, 0x30, 0x05], 2).pc(), 0x206);
    assert_eq!(run(&[0x60, 0x05, 0x30, 0x06], 2).pc(), 0x204);
    assert_eq!(run(&[0x60, 0x05, 0x40, 0x06], 2).pc(), 0x206);
    assert_eq!(run(&[0x60, 0x05, 0x40, 0x05], 2).pc(), 0x204);
    assert_eq!(run(&[0x60, 0x05, 0x61, 0x05, 0x50, 0x10], 3).pc(), 0x208);
    assert_eq!(run(&[0x60, 0x05, 0x61, 0x06, 0x50, 0x10], 3).pc(), 0x206);
    assert_eq!(run(&[0x60, 0x05, 0x61, 0x06, 0x90, 0x10], 3).pc(), 0x208);
    assert_eq!(run(&[0x60, 0x05, 0x61, 0x05, 0x90, 0x10], 3).pc(), 0x206);
}

#[test]
fn jumps() {
    assert_eq!(run(&[0x13, 0x45], 1).pc(), 0x345);
    assert_eq!(run(&[0x60, 0x04, 0xB3, 0x00], 2).pc(), 0x304);
}

#[test]
fn random_byte_is_masked() {
    let mut cpu = machine_with(&[0xC0, 0xF0, 0xC1, 0x00]);
    cpu.tick_with(0xAB).unwrap();
    assert_eq!(cpu.registers()[0], 0xA0);
    cpu.tick().unwrap();
    assert_eq!(cpu.registers()[1], 0);
}

#[test]
fn timers_count_down_to_zero() {
    let mut cpu = run(&[0x60, 0x02, 0xF0, 0x15, 0x61, 0x01, 0xF1, 0x18], 4);
    assert_eq!(cpu.delay_timer(), 2);
    assert_eq!(cpu.sound_timer(), 1);
    cpu.tick_timers();
    assert_eq!(cpu.delay_timer(), 1);
    assert_eq!(cpu.sound_timer(), 0);
    cpu.tick_timers();
    cpu.tick_timers();
    assert_eq!(cpu.delay_timer(), 0);
    assert_eq!(cpu.sound_timer(), 0);
}

#[test]
fn delay_timer_into_register() {
    let cpu = run(&[0x60, 0x09, 0xF0, 0x15, 0xF3, 0x07], 3);
    assert_eq!(cpu.registers()[3], 9);
}

#[test]
fn index_register_operations() {
    assert_eq!(run(&[0xA1, 0x23], 1).index_register(), 0x123);
    assert_eq!(run(&[0xA1, 0x23, 0x60, 0x10, 0xF0, 0x1E], 3).index_register(), 0x133);
    assert_eq!(run(&[0x60, 0x0A, 0xF0, 0x29], 2).index_register(), 50);
}

#[test]
fn decimal_digits_of_register() {
    let cpu = run(&[0x60, 0xEA, 0xA3, 0x00, 0xF0, 0x33], 3);
    assert_eq!(&cpu.memory()[0x300..0x303], &[2, 3, 4]);
    let cpu = run(&[0x60, 0x07, 0xA3, 0x00, 0xF0, 0x33], 3);
    assert_eq!(&cpu.memory()[0x300..0x303], &[0, 0, 7]);
}

#[test]
fn decimal_digits_past_memory_end_is_refused() {
    let mut cpu = run(&[0xAF, 0xFE, 0xF0, 0x33], 1);
    assert_eq!(cpu.tick_with(0), Err(CpuError::MemoryOutOfBounds { addr: 4096 }));
}

#[test]
fn store_and_load_registers() {
    let cpu = run(&[0x60, 0x01, 0x61, 0x02, 0x62, 0x03, 0xA3, 0x00, 0xF1, 0x55], 5);
    assert_eq!(&cpu.memory()[0x300..0x303], &[1, 2, 0]);
    let cpu = run(&[0xA0, 0x00, 0xF2, 0x65], 2);
    assert_eq!(&cpu.registers()[0..4], &[0xF0, 0x90, 0x90, 0]);
}

#[test]
fn store_registers_past_memory_end_is_refused() {
    let mut cpu = run(&[0xAF, 0xFF, 0xF1, 0x55], 1);
    assert_eq!(cpu.tick_with(0), Err(CpuError::MemoryOutOfBounds { addr: 4096 }));
    let mut cpu = run(&[0xAF, 0xFF, 0xF1, 0x65], 1);
    assert_eq!(cpu.tick_with(0), Err(CpuError::MemoryOutOfBounds { addr: 4096 }));
}
