use cpu16::chained_io::{ChainedIO, Part, SeekFrom};
use cpu16::condition::ConditionCode;
use cpu16::cpu::Cpu;
use cpu16::emulator::{EmulationError, Emulator};
use cpu16::flag::{get_flag, Flag};
use cpu16::isa::{Instruction, Target};
use cpu16::memory::{AddressError, Cartridge, Memory, Mmu, RAM};
use cpu16::register::Register;

fn machine() -> Emulator {
    let mut emu = Emulator::new(Cartridge::new());
    emu.cpu = Cpu::new();
    emu.cpu.sp = 0x2000;
    emu
}

fn flags_of(emu: &Emulator) -> (bool, bool, bool, bool) {
    (
        get_flag(emu.cpu.flags, Flag::Zero),
        get_flag(emu.cpu.flags, Flag::Sign),
        get_flag(emu.cpu.flags, Flag::Carry),
        get_flag(emu.cpu.flags, Flag::Overflow),
    )
}

#[test]
fn memory_map_regions() {
    let mut mmu = Mmu::new(RAM::new(), Cartridge::new());
    assert!(Mmu::is_mapped(0x0000) && Mmu::is_mapped(0x2FFF));
    assert!(!Mmu::is_mapped(0x3000) && !Mmu::is_mapped(0x7EFF) && !Mmu::is_mapped(0x7F01));
    assert!(Mmu::is_mapped(0x7F00) && Mmu::is_mapped(0x8000) && Mmu::is_mapped(0xFFFF));
    assert_eq!(mmu.write_byte(0x2FFF, 0xAB), Ok(()));
    assert_eq!(mmu.read_byte(0x2FFF), Ok(0xAB));
    assert_eq!(mmu.read_byte(0x3000), Err(AddressError { address: 0x3000 }));
    assert_eq!(mmu.write_byte(0x7000, 1), Err(AddressError { address: 0x7000 }));
    assert_eq!(mmu.write_word(0x2FFF, 0x1234), Err(AddressError { address: 0x3000 }));
    assert_eq!(mmu.read_byte(0x2FFF), Ok(0xAB));
    assert_eq!(mmu.read_word(0x7F00), Err(AddressError { address: 0x7F01 }));
}

#[test]
fn words_are_little_endian_and_wrap() {
    let mut mmu = Mmu::new(RAM::new(), Cartridge::new());
    assert_eq!(mmu.write_word(0x0010, 0x1234), Ok(()));
    assert_eq!(mmu.read_byte(0x0010), Ok(0x34));
    assert_eq!(mmu.read_byte(0x0011), Ok(0x12));
    assert_eq!(mmu.read_word(0x0010), Ok(0x1234));
    assert_eq!(mmu.write_word(0xFFFF, 0xBEEF), Ok(()));
    assert_eq!(mmu.read_byte(0xFFFF), Ok(0xEF));
    assert_eq!(mmu.read_byte(0x0000), Ok(0xBE));
    assert_eq!(mmu.read_word(0xFFFF), Ok(0xBEEF));
}

#[test]
fn locked_cartridge_ignores_writes() {
    let mut mmu = Mmu::new(RAM::new(), Cartridge::new());
    assert_eq!(mmu.write_byte(0x8000, 0x11), Ok(()));
    mmu.rom.lock();
    assert_eq!(mmu.write_byte(0x8000, 0x22), Ok(()));
    assert_eq!(mmu.read_byte(0x8000), Ok(0x11));
    assert_eq!(mmu.write_word(0xFFFF, 0x2222), Ok(()));
    assert_eq!(mmu.read_byte(0x0000), Ok(0x22));
    assert_eq!(mmu.take_ignored(), vec![0x8000, 0xFFFF]);
    assert_eq!(mmu.take_ignored(), Vec::<u16>::new());
    mmu.rom.unlock();
    assert_eq!(mmu.write_byte(0x8000, 0x33), Ok(()));
    assert_eq!(mmu.read_byte(0x8000), Ok(0x33));
    mmu.rom.lock();
    mmu.write_rom_word(0xFFFC, 0xCAFE);
    assert_eq!(mmu.read_word(0xFFFC), Ok(0xCAFE));
}

#[test]
fn port_reads_input_in_order_and_collects_output() {
    let mut mmu = Mmu::new(RAM::new(), Cartridge::new());
    assert_eq!(mmu.read_byte(0x7F00), Ok(0xFF));
    mmu.send_input(b"ab");
    assert_eq!(mmu.peek_byte(0x7F00), Ok(b'a'));
    assert_eq!(mmu.read_byte(0x7F00), Ok(b'a'));
    assert_eq!(mmu.read_byte(0x7F00), Ok(b'b'));
    assert_eq!(mmu.read_byte(0x7F00), Ok(0xFF));
    assert_eq!(mmu.write_byte(0x7F00, b'x'), Ok(()));
    assert_eq!(mmu.write_byte(0x7F00, b'y'), Ok(()));
    assert_eq!(mmu.take_output(), vec![b'x', b'y']);
    assert_eq!(mmu.take_output(), Vec::<u8>::new());
}

#[test]
fn segments_load_and_dump() {
    let mut ram = RAM::new();
    assert!(ram.contains(0x2FFF) && !ram.contains(0x3000));
    ram.load(4, &[1, 2, 3]);
    assert_eq!(ram.dump(3, 5), vec![0, 1, 2, 3, 0]);
    ram.write_word(0x10, 0xABCD);
    assert_eq!(ram.read_word(0x10), 0xABCD);
    assert_eq!(ram.read(0x10), 0xCD);
    let mut rom = Cartridge::from_image(&[9, 8, 7]);
    assert_eq!(rom.dump(0, 4), vec![9, 8, 7, 0]);
    rom.write(0, 1);
    rom.load(1, &[5, 5]);
    assert_eq!(rom.dump(0, 4), vec![9, 8, 7, 0]);
}

#[test]
fn reset_twice_is_reset_once() {
    let mut image = vec![0u8; 0x8000];
    image[0x7FFE] = 0x34;
    image[0x7FFF] = 0x12;
    let mut emu = Emulator::new(Cartridge::from_image(&image));
    emu.cpu.a = 7;
    emu.cpu.flags = 0xFFFF;
    emu.cpu.sp = 3;
    emu.memory.write_byte(0x0100, 0x55).unwrap();
    emu.reset();
    let once = emu.clone();
    emu.reset();
    assert_eq!(emu, once);
    assert_eq!(emu.cpu, Cpu { a: 0, b: 0, c: 0, d: 0, sp: 0x7F00, pc: 0x1234, flags: 0 });
    assert_eq!(emu.memory.read_byte(0x0100), Ok(0));
}

#[test]
fn logical_operations_keep_carry_and_overflow() {
    for preset in [0x0000u16, 0x000C, 0x0004, 0x0008] {
        for instruction in [
            Instruction::And(Register::B),
            Instruction::Or(Register::B),
            Instruction::Xor(Register::B),
            Instruction::Not(Register::B),
            Instruction::Test(Register::B),
            Instruction::TestImmediate(Register::B, 0x00F0),
            Instruction::RotateLeft(Register::B),
            Instruction::RotateRight(Register::B),
        ] {
            let mut emu = machine();
            emu.cpu.a = 0x8001;
            emu.cpu.b = 0x00FF;
            emu.cpu.flags = preset;
            emu.execute(instruction).unwrap();
            assert_eq!(emu.cpu.flags & 0x000C, preset, "{instruction:?}");
        }
    }
    let mut emu = machine();
    emu.cpu.a = 0x00F0;
    emu.cpu.b = 0x000F;
    emu.execute(Instruction::And(Register::B)).unwrap();
    assert_eq!(emu.cpu.a, 0);
    assert_eq!(flags_of(&emu), (true, false, false, false));
    emu.cpu.a = 0x8000;
    emu.execute(Instruction::Or(Register::B)).unwrap();
    assert_eq!(emu.cpu.a, 0x800F);
    assert_eq!(flags_of(&emu), (false, true, false, false));
    emu.execute(Instruction::Xor(Register::A)).unwrap();
    assert_eq!(emu.cpu.a, 0);
    emu.execute(Instruction::Not(Register::B)).unwrap();
    assert_eq!(emu.cpu.a, 0xFFF0);
}

#[test]
fn arithmetic_sets_all_four_flags() {
    let mut emu = machine();
    emu.cpu.a = 0x8000;
    emu.cpu.b = 0x8000;
    emu.execute(Instruction::Add(Register::B)).unwrap();
    assert_eq!(emu.cpu.a, 0);
    assert_eq!(flags_of(&emu), (true, false, true, true));
    emu.cpu.a = 1;
    emu.cpu.b = 2;
    emu.execute(Instruction::Subtract(Register::B)).unwrap();
    assert_eq!(emu.cpu.a, 0xFFFF);
    assert_eq!(flags_of(&emu), (false, true, true, false));
    // carry is set: ADC adds it, SBB subtracts it
    emu.cpu.a = 0x0010;
    emu.cpu.b = 0x0001;
    emu.execute(Instruction::AddWithCarry(Register::B)).unwrap();
    assert_eq!(emu.cpu.a, 0x0012);
    assert_eq!(flags_of(&emu), (false, false, false, false));
    emu.cpu.flags = 0x0004;
    emu.cpu.a = 0x8000;
    emu.cpu.b = 0x0000;
    emu.execute(Instruction::SubtractWithBorrow(Register::B)).unwrap();
    assert_eq!(emu.cpu.a, 0x7FFF);
    assert_eq!(flags_of(&emu), (false, false, false, true));
    emu.cpu.b = 0x8000;
    emu.execute(Instruction::Negate(Register::B)).unwrap();
    assert_eq!(emu.cpu.a, 0x8000);
    assert_eq!(flags_of(&emu), (false, true, true, true));
    emu.cpu.c = 0x8000;
    emu.execute(Instruction::Decrement(Register::C)).unwrap();
    assert_eq!(emu.cpu.c, 0x7FFF);
    assert_eq!(flags_of(&emu), (false, false, false, true));
    emu.cpu.a = 5;
    emu.cpu.b = 5;
    emu.execute(Instruction::Compare(Register::B)).unwrap();
    assert_eq!(emu.cpu.a, 5);
    assert_eq!(flags_of(&emu), (true, false, false, false));
    emu.execute(Instruction::CompareImmediate(Register::A, 6)).unwrap();
    assert_eq!(flags_of(&emu), (false, true, true, false));
}

#[test]
fn shifts_take_the_count_modulo_sixteen() {
    let mut emu = machine();
    emu.cpu.a = 0x8001;
    emu.cpu.b = 1;
    emu.execute(Instruction::ShiftLeft(Register::B)).unwrap();
    assert_eq!(emu.cpu.a, 0x0002);
    assert_eq!(flags_of(&emu), (false, false, true, false));
    emu.cpu.a = 0x8001;
    emu.cpu.b = 17;
    emu.execute(Instruction::ShiftRight(Register::B)).unwrap();
    assert_eq!(emu.cpu.a, 0x4000);
    assert_eq!(flags_of(&emu), (false, false, true, false));
    emu.cpu.a = 0x8001;
    emu.cpu.b = 16;
    emu.cpu.flags = 0x0004;
    emu.execute(Instruction::ShiftLeft(Register::B)).unwrap();
    assert_eq!(emu.cpu.a, 0x8001);
    assert_eq!(flags_of(&emu), (false, true, false, false));
    emu.cpu.b = 4;
    emu.execute(Instruction::RotateLeft(Register::B)).unwrap();
    assert_eq!(emu.cpu.a, 0x0018);
    emu.cpu.b = 20;
    emu.execute(Instruction::RotateRight(Register::B)).unwrap();
    assert_eq!(emu.cpu.a, 0x8001);
    emu.cpu.a = 0x0001;
    emu.cpu.b = 15;
    emu.execute(Instruction::ShiftLeft(Register::B)).unwrap();
    assert_eq!(emu.cpu.a, 0x8000);
    emu.cpu.b = 1;
    emu.execute(Instruction::ShiftLeft(Register::B)).unwrap();
    assert_eq!(emu.cpu.a, 0);
    assert_eq!(flags_of(&emu), (true, false, true, false));
}

#[test]
fn loads_and_stores() {
    let mut emu = machine();
    emu.memory.write_word(0x0100, 0xBEEF).unwrap();
    emu.execute(Instruction::LoadAddressAbsolute(0x0100)).unwrap();
    assert_eq!(emu.cpu.a, 0x00EF);
    emu.execute(Instruction::LoadWordAbsolute(0x0100)).unwrap();
    assert_eq!(emu.cpu.a, 0xBEEF);
    emu.cpu.sp = 0x0102;
    emu.execute(Instruction::LoadWordStackOffset(-2)).unwrap();
    assert_eq!(emu.cpu.a, 0xBEEF);
    emu.execute(Instruction::LoadAddressStackOffset(-1)).unwrap();
    assert_eq!(emu.cpu.a, 0x00BE);
    emu.cpu.b = 0x00FF;
    emu.execute(Instruction::LoadWordIndirect(0x0001, Register::B)).unwrap();
    assert_eq!(emu.cpu.a, 0xBEEF);
    emu.cpu.b = 0x0101;
    emu.execute(Instruction::LoadAddressIndirect(0xFFFF, Register::B)).unwrap();
    assert_eq!(emu.cpu.a, 0x00EF);
    emu.cpu.a = 0x1234;
    emu.execute(Instruction::StoreAddressAbsolute(0x0200)).unwrap();
    assert_eq!(emu.memory.read_word(0x0200), Ok(0x0034));
    emu.execute(Instruction::StoreWordStackOffset(2)).unwrap();
    assert_eq!(emu.memory.read_word(0x0104), Ok(0x1234));
    emu.execute(Instruction::StoreWordIndirect(0x0100, Register::B)).unwrap();
    assert_eq!(emu.memory.read_word(0x0201), Ok(0x1234));
    emu.execute(Instruction::StoreAddressStackOffset(0)).unwrap();
    assert_eq!(emu.memory.read_byte(0x0102), Ok(0x34));
    emu.execute(Instruction::StoreWordAbsolute(0x0300)).unwrap();
    emu.execute(Instruction::StoreAddressIndirect(0x0300, Register::A)).unwrap();
    assert_eq!(emu.memory.read_byte(0x1534), Ok(0x34));
    emu.memory.send_input(b"Q");
    emu.execute(Instruction::LoadAddressAbsolute(0x7F00)).unwrap();
    assert_eq!(emu.cpu.a, b'Q' as u16);
    emu.execute(Instruction::LoadAddressAbsolute(0x7F00)).unwrap();
    assert_eq!(emu.cpu.a, 0x00FF);
}

#[test]
fn moves_and_immediates() {
    let mut emu = machine();
    emu.execute(Instruction::LoadImmediate(Register::D, 0x4321)).unwrap();
    assert_eq!(emu.cpu.d, 0x4321);
    emu.execute(Instruction::MoveRegister(Register::Sp, Register::D)).unwrap();
    assert_eq!(emu.cpu.sp, 0x4321);
    assert_eq!(emu.register(Register::Sp), 0x4321);
    emu.write_register(Register::C, 9);
    assert_eq!(emu.read_register(Register::C), 9);
    *emu.mut_register(Register::B) = 11;
    assert_eq!(emu.cpu.b, 11);
    *emu.cpu.register_mut(Register::Flags) = 0x0080;
    assert!(!emu.is_running());
    emu.resume();
    assert!(emu.is_running());
    emu.halt();
    assert!(!emu.is_running());
    emu.execute(Instruction::ClearFlags(0x0080)).unwrap();
    assert_eq!(emu.cpu.flags, 0);
    emu.execute(Instruction::SetFlags(0x0041)).unwrap();
    assert_eq!(emu.cpu.flags, 0x0041);
    assert!(emu.check_condition(ConditionCode::Z));
    emu.set_operation_flags(0x8000);
    assert_eq!(emu.cpu.flags, 0x0042);
}

#[test]
fn branches_resolve_every_kind_of_target() {
    let mut emu = machine();
    emu.cpu.pc = 0x8010;
    emu.execute(Instruction::Jump(Target::Relative(-0x10))).unwrap();
    assert_eq!(emu.cpu.pc, 0x8000);
    emu.execute(Instruction::Jump(Target::Absolute(0x9000))).unwrap();
    assert_eq!(emu.cpu.pc, 0x9000);
    emu.execute(Instruction::Jump(Target::StackOffset(4))).unwrap();
    assert_eq!(emu.cpu.pc, 0x2004);
    emu.cpu.c = 0xFFFF;
    emu.execute(Instruction::Jump(Target::Indexed(0x0011, Register::C))).unwrap();
    assert_eq!(emu.cpu.pc, 0x0010);
    emu.execute(Instruction::JumpIf(ConditionCode::Z, Target::Absolute(0x1111))).unwrap();
    assert_eq!(emu.cpu.pc, 0x0010);
    emu.execute(Instruction::JumpIf(ConditionCode::NZ, Target::Absolute(0x1111))).unwrap();
    assert_eq!(emu.cpu.pc, 0x1111);
    emu.execute(Instruction::Call(Target::Absolute(0x2222))).unwrap();
    assert_eq!(emu.cpu.pc, 0x2222);
    assert_eq!(emu.cpu.sp, 0x1FFE);
    assert_eq!(emu.memory.read_word(0x1FFE), Ok(0x1111));
    emu.execute(Instruction::PopRegister(Register::Pc)).unwrap();
    assert_eq!(emu.cpu.pc, 0x1111);
    assert_eq!(emu.cpu.sp, 0x2000);
}

#[test]
fn interrupts_are_dispatched_at_the_top_of_a_step() {
    let mut rom = Cartridge::new();
    rom.load(0, &Instruction::make_bytes(&[
        Ok(Instruction::SetFlags(0x0040)),
        Ok(Instruction::MoveRegister(Register::A, Register::A)),
        Ok(Instruction::SetFlags(0x0080)),
    ]));
    rom.load(0x100, &Instruction::make_bytes(&[
        Ok(Instruction::LoadWordAbsolute(0xFFFC)),
        Ok(Instruction::ReturnFromInterrupt),
    ]));
    rom.load(0x7FFE, &[0x00, 0x80]);
    rom.lock();
    let mut emu = Emulator::new(rom);
    emu.cpu.sp = 0x1000;
    emu.interrupt(0x0007);
    assert!(emu.pending);
    emu.step().unwrap();
    assert_eq!(emu.cpu.pc, 0x8003);
    assert!(emu.pending);
    emu.memory.rom.unlock();
    emu.memory.write_word(0xFFFE, 0x8100).unwrap();
    emu.memory.rom.lock();
    emu.step().unwrap();
    assert!(!emu.pending);
    assert_eq!(emu.cpu.pc, 0x8100);
    assert_eq!(emu.cpu.sp, 0x0FFC);
    assert_eq!(emu.memory.read_word(0x0FFE), Ok(0x8003));
    assert_eq!(emu.memory.read_word(0x0FFC), Ok(0x0040));
    emu.step().unwrap();
    assert_eq!(emu.cpu.a, 0x0007);
    emu.step().unwrap();
    assert_eq!(emu.cpu.pc, 0x8003);
    assert_eq!(emu.cpu.sp, 0x1000);
    assert_eq!(emu.cpu.flags, 0x0040);
    assert_eq!(emu.run(10), Ok(2));
    assert!(!emu.is_running());
    // a halted machine does not move
    let halted = emu.clone();
    emu.step().unwrap();
    assert_eq!(emu, halted);
    assert_eq!(emu.handle_interrupt(), Ok(()));
    assert_eq!(emu, halted);
}

#[test]
fn software_interrupt_and_return() {
    let mut emu = machine();
    emu.memory.write_word(0xFFFE, 0x9000).unwrap();
    emu.cpu.pc = 0x8002;
    emu.cpu.flags = 0x0005;
    emu.execute(Instruction::Interrupt(3)).unwrap();
    assert_eq!(emu.cpu.pc, 0x9000);
    assert_eq!(emu.cpu.sp, 0x1FFC);
    assert_eq!(emu.memory.read_word(0x1FFE), Ok(0x8002));
    assert_eq!(emu.memory.read_word(0x1FFC), Ok(0x0005));
    emu.cpu.flags = 0;
    emu.handle_interrupt_return().unwrap();
    assert_eq!(emu.cpu.pc, 0x8002);
    assert_eq!(emu.cpu.flags, 0x0005);
    assert_eq!(emu.cpu.sp, 0x2000);
    emu.cpu.sp = 0x2FFE;
    let before = emu.clone();
    assert_eq!(emu.handle_return_from_interrupt(), Err(EmulationError::AddressError(0x3000)));
    assert_eq!(emu, before);
    emu.cpu.sp = 0x3002;
    let before = emu.clone();
    assert_eq!(emu.execute(Instruction::Interrupt(0)), Err(EmulationError::AddressError(0x3000)));
    assert_eq!(emu, before);
    // the first push would succeed, the second would not: nothing is written
    emu.cpu.sp = 0x8002;
    let before = emu.clone();
    assert_eq!(emu.execute(Instruction::Interrupt(0)), Err(EmulationError::AddressError(0x7FFE)));
    assert_eq!(emu, before);
}

#[test]
fn failed_steps_change_nothing() {
    let mut rom = Cartridge::new();
    rom.load(0, &[0x01]);
    rom.load(0x10, &[0x40, 0x04]);
    rom.load(0x20, &[0xC8, 0x0C, 0x00, 0x00]);
    rom.load(0x30, &Instruction::LoadWordAbsolute(0x2FFF).to_bytes());
    rom.load(0x40, &Instruction::PushRegister(Register::A).to_bytes());
    rom.load(0x7FFE, &[0x00, 0x80]);
    let mut emu = Emulator::new(rom);
    let cases = [
        (0x8000u16, EmulationError::InvalidOpcode(0x01)),
        (0x8010, EmulationError::RegisterIndexError(0x04)),
        (0x8020, EmulationError::InvalidCondition(0x0C)),
        (0x8030, EmulationError::AddressError(0x3000)),
        (0x8040, EmulationError::AddressError(0x7EFE)),
        (0x3000, EmulationError::AddressError(0x3000)),
        (0x2FFF, EmulationError::AddressError(0x3000)),
    ];
    emu.memory.write_byte(0x2FFF, 0x04).unwrap();
    for (pc, error) in cases {
        emu.cpu.pc = pc;
        let before = emu.clone();
        if pc < 0x8030 {
            assert_eq!(emu.next_instruction(), Err(error));
        }
        assert_eq!(emu.step(), Err(error));
        assert_eq!(emu.advance(), Err(error));
        assert_eq!(emu.advance_cpu(), Err(error));
        assert_eq!(emu, before);
    }
    assert_eq!(emu.run(5), Err(EmulationError::AddressError(0x3000)));
}

#[test]
fn fetch_helpers_move_the_program_counter() {
    let mut emu = machine();
    emu.memory.write_word(0x0100, 0x1234).unwrap();
    emu.cpu.pc = 0x0100;
    assert_eq!(emu.read_memory_byte(0x0100), Ok(0x34));
    assert_eq!(emu.read_memory(0x0100), Ok(0x1234));
    assert_eq!(emu.next_byte(), Ok(0x34));
    assert_eq!(emu.cpu.pc, 0x0101);
    emu.cpu.pc = 0x0100;
    assert_eq!(emu.next_word(), Ok(0x1234));
    assert_eq!(emu.cpu.pc, 0x0102);
    emu.cpu.pc = 0x2FFF;
    assert_eq!(emu.next_word(), Err(EmulationError::AddressError(0x3000)));
    assert_eq!(emu.cpu.pc, 0x2FFF);
    assert_eq!(emu.read_memory(0x7F00), Err(EmulationError::AddressError(0x7F01)));
    emu.cpu.pc = 0x0200;
    assert_eq!(emu.next_cpu_instruction(), Ok((Instruction::LoadImmediate(Register::A, 0), 4)));
    assert_eq!(emu.next_instruction(), emu.next_cpu_instruction());
    assert_eq!(emu.cpu.pc, 0x0200);
}

#[test]
fn chained_positions() {
    let mut chain = ChainedIO::new(10, 5);
    assert_eq!(chain.total_len(), 15);
    assert_eq!(chain.locate(), Part::First(0));
    assert_eq!(chain.seek(SeekFrom::Start(9)), Ok(9));
    assert_eq!(chain.locate(), Part::First(9));
    assert_eq!(chain.seek(SeekFrom::Current(1)), Ok(10));
    assert_eq!(chain.locate(), Part::Second(0));
    assert_eq!(chain.seek(SeekFrom::End(-1)), Ok(14));
    assert_eq!(chain.locate(), Part::Second(4));
    assert!(chain.advance(1));
    assert_eq!(chain.locate(), Part::End);
    assert_eq!(chain.seek(SeekFrom::End(-16)), Err(()));
    assert_eq!(chain.pos, 15);
    assert_eq!(chain.seek(SeekFrom::End(3)), Ok(18));
    assert_eq!(chain.locate(), Part::End);
    assert!(!chain.advance(u64::MAX));
    assert_eq!(chain.pos, 18);
    assert_eq!(chain.seek(SeekFrom::Current(-19)), Err(()));
}
