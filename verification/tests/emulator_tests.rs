use cpu16::cpu::Cpu;
use cpu16::emulator::{EmulationError, Emulator};
use cpu16::flag::{get_flag, Flag};
use cpu16::isa::{Instruction, Target};
use cpu16::memory::{Cartridge, Memory};
use cpu16::register::Register;

fn image_with_vector(low: u8, high: u8) -> Vec<u8> {
    let mut image = vec![0u8; 0x8000];
    image[0x7FFE] = low;
    image[0x7FFF] = high;
    image
}

#[test]
fn reset_loads_program_counter_from_vector() {
    let rom = Cartridge::from_image(&image_with_vector(0x34, 0x12));
    let mut emu = Emulator::new(rom);
    emu.reset();
    assert_eq!(emu.cpu.pc, 0x1234);
    assert!(!get_flag(emu.cpu.flags, Flag::Halt));
    assert!(emu.is_running());
    assert_eq!(emu.cpu.sp, 0x7F00);
}

#[test]
fn reset_with_zero_vector_halts() {
    let rom = Cartridge::from_image(&vec![0u8; 0x8000]);
    let mut emu = Emulator::new(rom);
    emu.reset();
    assert!(get_flag(emu.cpu.flags, Flag::Halt));
    assert!(!emu.is_running());
    assert_eq!(emu.cpu.pc, 0);
}

#[test]
fn increment_wraps_and_sets_zero_and_carry() {
    let mut emu = Emulator::new(Cartridge::new());
    emu.cpu = Cpu::new();
    emu.cpu.a = 0xFFFF;
    emu.execute(Instruction::Increment(Register::A)).unwrap();
    assert_eq!(emu.cpu.a, 0x0000);
    assert!(get_flag(emu.cpu.flags, Flag::Zero));
    assert!(get_flag(emu.cpu.flags, Flag::Carry));
    assert!(!get_flag(emu.cpu.flags, Flag::Sign));
    assert!(!get_flag(emu.cpu.flags, Flag::Overflow));
}

#[test]
fn add_reports_signed_overflow() {
    let mut emu = Emulator::new(Cartridge::new());
    emu.cpu = Cpu::new();
    emu.cpu.a = 0x7FFF;
    emu.cpu.b = 1;
    emu.execute(Instruction::Add(Register::B)).unwrap();
    assert_eq!(emu.cpu.a, 0x8000);
    assert!(get_flag(emu.cpu.flags, Flag::Sign));
    assert!(get_flag(emu.cpu.flags, Flag::Overflow));
    assert!(!get_flag(emu.cpu.flags, Flag::Carry));
    assert!(!get_flag(emu.cpu.flags, Flag::Zero));
}

#[test]
fn push_then_pop_restores_value_and_stack_pointer() {
    let mut emu = Emulator::new(Cartridge::new());
    emu.cpu = Cpu::new();
    emu.cpu.sp = 0x1000;
    emu.cpu.a = 0xBEEF;
    emu.execute(Instruction::PushRegister(Register::A)).unwrap();
    assert_eq!(emu.cpu.sp, 0x0FFE);
    emu.execute(Instruction::PopRegister(Register::C)).unwrap();
    assert_eq!(emu.cpu.c, 0xBEEF);
    assert_eq!(emu.cpu.sp, 0x1000);
}

#[test]
fn push_at_reset_stack_pointer_is_an_address_error() {
    let mut emu = Emulator::new(Cartridge::new());
    emu.cpu = Cpu::new();
    let before = emu.clone();
    let res = emu.execute(Instruction::PushRegister(Register::A));
    assert_eq!(res, Err(EmulationError::AddressError(0x7EFE)));
    assert_eq!(emu, before);
}

#[test]
fn step_runs_program_and_halts() {
    let mut rom = Cartridge::new();
    let program = Instruction::make_bytes(&[
        Ok(Instruction::LoadImmediate(Register::A, 0x0041)),
        Ok(Instruction::StoreAddressAbsolute(0x7F00)),
        Ok(Instruction::Jump(Target::Relative(0))),
        Ok(Instruction::SetFlags(0x0080)),
    ]);
    rom.load(0, &program);
    rom.load(0x7FFE, &[0x00, 0x80]);
    rom.lock();
    let mut emu = Emulator::new(rom);
    assert_eq!(emu.cpu.pc, 0x8000);
    let steps = emu.run(100).ok().unwrap();
    assert_eq!(steps, 4);
    assert!(!emu.is_running());
    assert_eq!(emu.memory.take_output(), vec![0x41]);
    assert_eq!(emu.cpu.pc, 0x8000 + program.len() as u16);
}

#[test]
fn default_emulator_is_halted_over_an_empty_cartridge() {
    let emu = Emulator::default();
    assert!(!emu.is_running());
    assert_eq!(emu.cpu, Cpu { flags: 0x0080, ..Cpu::default() });
    assert_eq!(Cpu::default(), Cpu::new());
    assert_eq!(emu, Emulator::new(Cartridge::default()));
    assert!(!emu.memory.rom.locked);
}

#[test]
fn store_to_locked_cartridge_is_ignored_and_noted() {
    let mut rom = Cartridge::new();
    rom.load(0, &Instruction::make_bytes(&[
        Ok(Instruction::LoadImmediate(Register::A, 0x1234)),
        Ok(Instruction::StoreWordAbsolute(0x9000)),
        Ok(Instruction::SetFlags(0x0080)),
    ]));
    rom.load(0x7FFE, &[0x00, 0x80]);
    rom.lock();
    let mut emu = Emulator::new(rom);
    assert_eq!(emu.run(10), Ok(3));
    assert_eq!(emu.memory.read_word(0x9000), Ok(0));
    assert_eq!(emu.memory.take_ignored(), vec![0x9000, 0x9001]);
}
