use mos6502::cpu::Cpu;
use mos6502::errors::CpuError;
use mos6502::flags::{negative_flag, zero_flag};

#[test]
fn fetch_byte_reads_at_pc_and_advances() {
    let mut cpu = Cpu::reset();
    cpu.mem.write_addr(0xFFFC, 0x42).unwrap();
    let mut cycles: u32 = 3;
    assert_eq!(cpu.fetch_byte(&mut cycles), Ok(0x42));
    assert_eq!(cpu.pc, 0xFFFD);
    assert_eq!(cycles, 2);
}

#[test]
fn fetch_byte_fails_on_exhausted_budget() {
    let mut cpu = Cpu::reset();
    cpu.mem.write_addr(0xFFFC, 0x42).unwrap();
    let mut cycles: u32 = 0;
    assert_eq!(
        cpu.fetch_byte(&mut cycles),
        Err(CpuError::CycleBudgetExhausted)
    );
    assert_eq!(cpu.pc, 0xFFFC);
    assert_eq!(cycles, 0);
}

#[test]
fn fetch_byte_wraps_program_counter() {
    let mut cpu = Cpu::reset();
    cpu.pc = 0xFFFF;
    cpu.mem.write_addr(0xFFFF, 0x7E).unwrap();
    let mut cycles: u32 = 1;
    assert_eq!(cpu.fetch_byte(&mut cycles), Ok(0x7E));
    assert_eq!(cpu.pc, 0x0000);
    assert_eq!(cycles, 0);
}

#[test]
fn read_byte_leaves_pc_alone() {
    let mut cpu = Cpu::reset();
    cpu.mem.write_addr(0x0123, 0x5A).unwrap();
    let mut cycles: u32 = 2;
    assert_eq!(cpu.read_byte(0x0123, &mut cycles), Ok(0x5A));
    assert_eq!(cpu.pc, 0xFFFC);
    assert_eq!(cycles, 1);
}

#[test]
fn read_byte_fails_on_exhausted_budget() {
    let mut cpu = Cpu::reset();
    let mut cycles: u32 = 0;
    assert_eq!(
        cpu.read_byte(0x0123, &mut cycles),
        Err(CpuError::CycleBudgetExhausted)
    );
}

#[test]
fn fetch_word_is_little_endian() {
    let mut cpu = Cpu::reset();
    cpu.mem.write_addr(0xFFFC, 0x34).unwrap();
    cpu.mem.write_addr(0xFFFD, 0x12).unwrap();
    let mut cycles: u32 = 5;
    assert_eq!(cpu.fetch_word(&mut cycles), Ok(0x1234));
    assert_eq!(cpu.pc, 0xFFFE);
    assert_eq!(cycles, 3);
}

#[test]
fn fetch_word_fails_on_exhausted_budget() {
    let mut cpu = Cpu::reset();
    let mut cycles: u32 = 0;
    assert_eq!(
        cpu.fetch_word(&mut cycles),
        Err(CpuError::CycleBudgetExhausted)
    );
    assert_eq!(cpu.pc, 0xFFFC);
}

#[test]
fn fetch_word_with_one_cycle_completes_and_empties_budget() {
    let mut cpu = Cpu::reset();
    cpu.mem.write_addr(0xFFFC, 0xCD).unwrap();
    cpu.mem.write_addr(0xFFFD, 0xAB).unwrap();
    let mut cycles: u32 = 1;
    assert_eq!(cpu.fetch_word(&mut cycles), Ok(0xABCD));
    assert_eq!(cycles, 0);
}

#[test]
fn fetch_word_wraps_across_top_of_memory() {
    let mut cpu = Cpu::reset();
    cpu.pc = 0xFFFF;
    cpu.mem.write_addr(0xFFFF, 0x78).unwrap();
    cpu.mem.write_addr(0x0000, 0x56).unwrap();
    let mut cycles: u32 = 2;
    assert_eq!(cpu.fetch_word(&mut cycles), Ok(0x5678));
    assert_eq!(cpu.pc, 0x0001);
}

#[test]
fn write_word_is_little_endian() {
    let mut cpu = Cpu::reset();
    let mut cycles: u32 = 4;
    assert_eq!(cpu.write_word(0x0200, 0xABCD, &mut cycles), Ok(()));
    assert_eq!(cpu.mem.read_addr(0x0200), Ok(0xCD));
    assert_eq!(cpu.mem.read_addr(0x0201), Ok(0xAB));
    assert_eq!(cycles, 2);
}

#[test]
fn write_word_wraps_across_top_of_memory() {
    let mut cpu = Cpu::reset();
    let mut cycles: u32 = 2;
    assert_eq!(cpu.write_word(0xFFFF, 0x1234, &mut cycles), Ok(()));
    assert_eq!(cpu.mem.read_addr(0xFFFF), Ok(0x34));
    assert_eq!(cpu.mem.read_addr(0x0000), Ok(0x12));
}

#[test]
fn write_word_fails_on_exhausted_budget() {
    let mut cpu = Cpu::reset();
    let mut cycles: u32 = 0;
    assert_eq!(
        cpu.write_word(0x0200, 0x1234, &mut cycles),
        Err(CpuError::CycleBudgetExhausted)
    );
    assert_eq!(cpu.mem.read_addr(0x0200), Ok(0x00));
}

#[test]
fn flag_evaluators_are_pure_threshold_checks() {
    assert!(zero_flag(0));
    assert!(!zero_flag(1));
    assert!(!zero_flag(0x80));
    assert!(negative_flag(0x80));
    assert!(negative_flag(0xFF));
    assert!(!negative_flag(0x7F));
    assert!(!negative_flag(0));
}
