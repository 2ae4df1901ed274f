//! The execution engine: the machine state, what each instruction does to
//! it, interrupt entry and return, reset, and the step that runs one
//! instruction.

use vstd::prelude::*;
use crate::alu::{result_flags, with_result_flags, wrapped};
use crate::condition::{evaluate, ConditionCode};
use crate::cpu::Cpu;
use crate::execution::{
    indexed_address, offset_address, spec_indexed_address, spec_is_register_only,
    spec_offset_address,
};
use crate::flag::{flag_is_set, get_flag, set_flag, with_flag, Flag};
use crate::isa::{decode, operand_length, spec_layout, Instruction, InstructionError};
use crate::memory::{
    high_byte, low_byte, split_word, word_fault, word_of, AddressError,
    Cartridge, MemoryMap, Mmu, INTERRUPT_PORT, RAM, RAM_SIZE, RESET_VECTOR, ROM_START,
};
use crate::register::Register;

verus! {

/// Why a step did not run.
#[derive(Debug, Clone, Copy, PartialEq, Eq, Structural, Hash)]
pub enum EmulationError {
    /// An access to an address that no region of the memory map holds.
    AddressError(u16),
    /// An operand byte that should name a register does not.
    RegisterIndexError(u8),
    /// The byte at the program counter is no opcode.
    InvalidOpcode(u8),
    /// An operand byte that should hold a condition code holds none.
    InvalidCondition(u8),
    /// The instruction's bytes end before the instruction does.
    EndOfInput,
}

/// The emulator: register file, memory map, and whether an interrupt request
/// waits to be dispatched.
#[derive(Debug, Clone, PartialEq, Eq, Hash)]
pub struct Emulator {
    pub cpu: Cpu,
    pub memory: Mmu,
    pub pending: bool,
}

/// The state of the machine, as plain values.
pub ghost struct Machine {
    pub cpu: Cpu,
    pub memory: MemoryMap,
    /// Whether an interrupt request waits to be dispatched.
    pub pending: bool,
}

impl View for Emulator {
    type V = Machine;

    open spec fn view(&self) -> Machine {
        Machine { cpu: self.cpu, memory: self.memory@, pending: self.pending }
    }
}

/// The error that reports an addressing fault.
pub open spec fn fault(e: AddressError) -> EmulationError {
    EmulationError::AddressError(e.address)
}

/// The error of a step for a failure of the decoder.
pub open spec fn decode_fault(e: InstructionError) -> EmulationError {
    match e {
        InstructionError::InvalidOpcode(byte) => EmulationError::InvalidOpcode(byte),
        InstructionError::EndOfInput => EmulationError::EndOfInput,
        InstructionError::InvalidRegister(byte) => EmulationError::RegisterIndexError(byte),
        InstructionError::InvalidCondition(byte) => EmulationError::InvalidCondition(byte),
    }
}

impl Machine {
    /// Whether the memory map is well formed.
    pub open spec fn wf(self) -> bool {
        self.memory.wf()
    }

    /// Whether HALT is set.
    pub open spec fn halted(self) -> bool {
        flag_is_set(self.cpu.flags, Flag::Halt)
    }

    /// A receives the byte at an address, zero-extended.
    pub open spec fn load_byte(self, address: u16) -> Result<Machine, EmulationError> {
        match self.memory.read_byte(address) {
            Ok((value, memory)) => Ok(
                Machine { cpu: Cpu { a: value as u16, ..self.cpu }, memory, ..self },
            ),
            Err(e) => Err(fault(e)),
        }
    }

    /// A receives the little-endian word at an address.
    pub open spec fn load_word(self, address: u16) -> Result<Machine, EmulationError> {
        match self.memory.read_word(address) {
            Ok((value, memory)) => Ok(Machine { cpu: Cpu { a: value, ..self.cpu }, memory, ..self }),
            Err(e) => Err(fault(e)),
        }
    }

    /// The low byte of A goes to an address.
    pub open spec fn store_byte(self, address: u16) -> Result<Machine, EmulationError> {
        match self.memory.write_byte(address, low_byte(self.cpu.a)) {
            Ok(memory) => Ok(Machine { memory, ..self }),
            Err(e) => Err(fault(e)),
        }
    }

    /// A goes to an address, low byte first.
    pub open spec fn store_word(self, address: u16) -> Result<Machine, EmulationError> {
        match self.memory.write_word(address, self.cpu.a) {
            Ok(memory) => Ok(Machine { memory, ..self }),
            Err(e) => Err(fault(e)),
        }
    }

    /// The stack pointer goes down by two, then the word is written where it
    /// points.
    pub open spec fn push(self, value: u16) -> Result<Machine, EmulationError> {
        let sp = wrapped(self.cpu.sp - 2);
        match self.memory.write_word(sp, value) {
            Ok(memory) => Ok(Machine { cpu: Cpu { sp, ..self.cpu }, memory, ..self }),
            Err(e) => Err(fault(e)),
        }
    }

    /// The word where the stack pointer points is read, then the stack
    /// pointer goes up by two.
    pub open spec fn pop(self) -> Result<(u16, Machine), EmulationError> {
        match self.memory.read_word(self.cpu.sp) {
            Ok((value, memory)) => Ok(
                (
                    value,
                    Machine { cpu: Cpu { sp: wrapped(self.cpu.sp + 2), ..self.cpu }, memory, ..self },
                ),
            ),
            Err(e) => Err(fault(e)),
        }
    }

    /// Interrupt entry: the program counter and then the flags are pushed,
    /// and the program counter is loaded from the vector.
    pub open spec fn enter_interrupt(self) -> Result<Machine, EmulationError> {
        match self.push(self.cpu.pc) {
            Ok(first) => match first.push(self.cpu.flags) {
                Ok(second) => match second.memory.read_word(RESET_VECTOR) {
                    Ok((vector, memory)) => Ok(
                        Machine { cpu: Cpu { pc: vector, ..second.cpu }, memory, ..second },
                    ),
                    Err(e) => Err(fault(e)),
                },
                Err(e) => Err(e),
            },
            Err(e) => Err(e),
        }
    }

    /// Interrupt return: the flags and then the program counter are popped.
    pub open spec fn leave_interrupt(self) -> Result<Machine, EmulationError> {
        match self.pop() {
            Ok((flags, first)) => match first.pop() {
                Ok((pc, second)) => Ok(Machine { cpu: Cpu { flags, pc, ..second.cpu }, ..second }),
                Err(e) => Err(e),
            },
            Err(e) => Err(e),
        }
    }

    /// The machine after an instruction, the program counter already being
    /// past it; or the error, in which case the machine stays as it was.
    pub open spec fn execute(self, instruction: Instruction) -> Result<Machine, EmulationError> {
        let cpu = self.cpu;
        match instruction {
            Instruction::LoadAddressAbsolute(address) => self.load_byte(address),
            Instruction::LoadAddressStackOffset(offset) => self.load_byte(
                spec_offset_address(cpu.sp, offset),
            ),
            Instruction::LoadAddressIndirect(address, reg) => self.load_byte(
                spec_indexed_address(address, cpu.spec_register(reg)),
            ),
            Instruction::LoadWordAbsolute(address) => self.load_word(address),
            Instruction::LoadWordStackOffset(offset) => self.load_word(
                spec_offset_address(cpu.sp, offset),
            ),
            Instruction::LoadWordIndirect(address, reg) => self.load_word(
                spec_indexed_address(address, cpu.spec_register(reg)),
            ),
            Instruction::StoreAddressAbsolute(address) => self.store_byte(address),
            Instruction::StoreAddressStackOffset(offset) => self.store_byte(
                spec_offset_address(cpu.sp, offset),
            ),
            Instruction::StoreAddressIndirect(address, reg) => self.store_byte(
                spec_indexed_address(address, cpu.spec_register(reg)),
            ),
            Instruction::StoreWordAbsolute(address) => self.store_word(address),
            Instruction::StoreWordStackOffset(offset) => self.store_word(
                spec_offset_address(cpu.sp, offset),
            ),
            Instruction::StoreWordIndirect(address, reg) => self.store_word(
                spec_indexed_address(address, cpu.spec_register(reg)),
            ),
            Instruction::Call(target) => match self.push(cpu.pc) {
                Ok(pushed) => Ok(
                    Machine {
                        cpu: Cpu { pc: pushed.cpu.spec_resolve(target), ..pushed.cpu },
                        ..pushed
                    },
                ),
                Err(e) => Err(e),
            },
            Instruction::PushRegister(reg) => self.push(cpu.spec_register(reg)),
            Instruction::PopRegister(reg) => match self.pop() {
                Ok((value, popped)) => Ok(
                    Machine { cpu: popped.cpu.with_register(reg, value), ..popped },
                ),
                Err(e) => Err(e),
            },
            Instruction::Interrupt(_) => self.enter_interrupt(),
            Instruction::ReturnFromInterrupt => self.leave_interrupt(),
            _ => Ok(Machine { cpu: cpu.spec_compute(instruction), ..self }),
        }
    }

    /// The instruction at the program counter and the number of bytes it
    /// takes. The opcode is looked at first, then as many operand bytes as
    /// its layout asks for; none of this uses up port input.
    pub open spec fn fetch(self) -> Result<(Instruction, nat), EmulationError> {
        match self.memory.peek_byte(self.cpu.pc) {
            Err(e) => Err(fault(e)),
            Ok(opcode) => match spec_layout(opcode) {
                None => Err(EmulationError::InvalidOpcode(opcode)),
                Some(layout) => match self.memory.peek_bytes(
                    self.cpu.pc,
                    (1 + layout.spec_width()) as nat,
                ) {
                    Err(e) => Err(fault(e)),
                    Ok(bytes) => match decode(bytes) {
                        Ok(found) => Ok(found),
                        Err(e) => Err(decode_fault(e)),
                    },
                },
            },
        }
    }

    /// The machine after the instruction at the program counter: the program
    /// counter moves past the instruction, then the instruction is carried
    /// out.
    pub open spec fn advance_cpu(self) -> Result<Machine, EmulationError> {
        match self.fetch() {
            Ok((instruction, length)) => (Machine {
                cpu: Cpu { pc: wrapped(self.cpu.pc + length), ..self.cpu },
                ..self
            }).execute(instruction),
            Err(e) => Err(e),
        }
    }

    /// Whether an interrupt is due: ENABLE_INTERRUPT is set and a request
    /// waits.
    pub open spec fn interrupt_due(self) -> bool {
        flag_is_set(self.cpu.flags, Flag::EnableInterrupt) && self.pending
    }

    /// The machine after a waiting interrupt request has been dispatched.
    pub open spec fn dispatch(self) -> Result<Machine, EmulationError> {
        match self.enter_interrupt() {
            Ok(entered) => Ok(Machine { pending: false, ..entered }),
            Err(e) => Err(e),
        }
    }

    /// The machine after one step. A halted machine stays as it is. If an
    /// interrupt is due the step dispatches it and does nothing else.
    /// Otherwise it runs the instruction at the program counter.
    pub open spec fn step(self) -> Result<Machine, EmulationError> {
        if self.halted() {
            Ok(self)
        } else if self.interrupt_due() {
            self.dispatch()
        } else {
            self.advance_cpu()
        }
    }

    /// The word that the reset vector holds.
    pub open spec fn reset_vector(self) -> u16 {
        word_of(
            self.memory.rom[RESET_VECTOR - ROM_START],
            self.memory.rom[RESET_VECTOR - ROM_START + 1],
        )
    }

    /// The machine after reset: registers zero, the stack pointer at its
    /// reset value, the program counter from the reset vector, HALT set if
    /// that vector is zero, and RAM zeroed. Cartridge, port and a waiting
    /// interrupt request stay.
    pub open spec fn reset(self) -> Machine {
        let vector = self.reset_vector();
        Machine {
            cpu: Cpu {
                pc: vector,
                flags: with_flag(0, Flag::Halt, vector == 0),
                ..Cpu::spec_new()
            },
            memory: MemoryMap { ram: Seq::new(RAM_SIZE as nat, |i: int| 0u8), ..self.memory },
            pending: self.pending,
        }
    }

    /// The machine over a cartridge, with zeroed RAM, an idle port and no
    /// interrupt request, after reset.
    pub open spec fn fresh(rom: Seq<u8>, locked: bool) -> Machine {
        (Machine {
            cpu: Cpu::spec_new(),
            memory: MemoryMap {
                ram: Seq::new(RAM_SIZE as nat, |i: int| 0u8),
                rom,
                locked,
                input: Seq::<u8>::empty(),
                output: Seq::<u8>::empty(),
                ignored: Seq::<u16>::empty(),
            },
            pending: false,
        }).reset()
    }

    /// The machine with an interrupt requested: the argument stored in the
    /// interrupt port, and the request waiting.
    pub open spec fn interrupt(self, argument: u16) -> Machine {
        Machine {
            memory: self.memory.with_rom_word(INTERRUPT_PORT, argument),
            pending: true,
            ..self
        }
    }
}

/// The machine after `count` successful steps, if each of them succeeds.
pub open spec fn steps_from(machine: Machine, count: nat) -> Option<Machine>
    decreases count,
{
    if count == 0 {
        Some(machine)
    } else {
        match steps_from(machine, (count - 1) as nat) {
            Some(before) => match before.step() {
                Ok(after) => Some(after),
                Err(_) => None,
            },
            None => None,
        }
    }
}

/// The error that reports an addressing fault.
fn address_fault(e: AddressError) -> (error: EmulationError)
    ensures
        error == fault(e),
{
    EmulationError::AddressError(e.address)
}

/// The error of a step for a failure of the decoder.
fn decoder_fault(e: InstructionError) -> (error: EmulationError)
    ensures
        error == decode_fault(e),
{
    match e {
        InstructionError::InvalidOpcode(byte) => EmulationError::InvalidOpcode(byte),
        InstructionError::EndOfInput => EmulationError::EndOfInput,
        InstructionError::InvalidRegister(byte) => EmulationError::RegisterIndexError(byte),
        InstructionError::InvalidCondition(byte) => EmulationError::InvalidCondition(byte),
    }
}

/// A word plus a small number, modulo 65536.
fn advanced(base: u16, by: u32) -> (address: u16)
    requires
        by <= 0x10000,
    ensures
        address == wrapped(base + by),
{
    let sum: u32 = base as u32 + by;
    if sum > 0xFFFF {
        (sum - 0x10000) as u16
    } else {
        sum as u16
    }
}

/// A word minus two, modulo 65536.
fn two_below(base: u16) -> (address: u16)
    ensures
        address == wrapped(base - 2),
{
    if base >= 2 {
        base - 2
    } else {
        (base as u32 + 0xFFFE) as u16
    }
}

impl Emulator {
    /// Whether the memory map is well formed.
    pub open spec fn wf(&self) -> bool {
        self.memory.wf()
    }

    /// An emulator over the given cartridge, with zeroed RAM and an idle
    /// port, after reset.
    pub fn new(rom: Cartridge) -> (emu: Emulator)
        requires
            rom.wf(),
        ensures
            emu.wf(),
            emu@ == Machine::fresh(rom.data@, rom.locked),
    {
        let mut emu = Emulator { cpu: Cpu::new(), memory: Mmu::new(RAM::new(), rom), pending: false };
        emu.reset();
        emu
    }

    /// Resets the machine: registers zero, the stack pointer at its reset
    /// value, RAM zeroed, the program counter loaded from the reset vector,
    /// and HALT set if that vector is zero.
    pub fn reset(&mut self)
        requires
            old(self).wf(),
        ensures
            final(self).wf(),
            final(self)@ == old(self)@.reset(),
    {
        self.cpu = Cpu::new();
        self.memory.ram = RAM::new();
        let low = self.memory.rom.data[0x7FFE];
        let high = self.memory.rom.data[0x7FFF];
        let vector = crate::memory::make_word(low, high);
        self.cpu.pc = vector;
        set_flag(&mut self.cpu.flags, Flag::Halt, vector == 0);
    }

    /// Whether the machine runs, that is, HALT is clear.
    pub fn is_running(&self) -> (running: bool)
        ensures
            running == !self@.halted(),
    {
        !get_flag(self.cpu.flags, Flag::Halt)
    }

    /// Sets HALT.
    pub fn halt(&mut self)
        ensures
            final(self).cpu == (Cpu {
                flags: with_flag(old(self).cpu.flags, Flag::Halt, true),
                ..old(self).cpu
            }),
            final(self).memory == old(self).memory,
            final(self).pending == old(self).pending,
    {
        set_flag(&mut self.cpu.flags, Flag::Halt, true);
    }

    /// Clears HALT.
    pub fn resume(&mut self)
        ensures
            final(self).cpu == (Cpu {
                flags: with_flag(old(self).cpu.flags, Flag::Halt, false),
                ..old(self).cpu
            }),
            final(self).memory == old(self).memory,
            final(self).pending == old(self).pending,
    {
        set_flag(&mut self.cpu.flags, Flag::Halt, false);
    }

    /// Requests an interrupt: stores the argument in the interrupt port,
    /// whether or not the cartridge is locked, and leaves the request
    /// waiting until a step dispatches it.
    pub fn interrupt(&mut self, port: u16)
        requires
            old(self).wf(),
        ensures
            final(self).wf(),
            final(self)@ == old(self)@.interrupt(port),
    {
        self.memory.write_rom_word(INTERRUPT_PORT, port);
        self.pending = true;
    }

    /// The value of a register.
    pub fn register(&self, reg: Register) -> (value: u16)
        ensures
            value == self.cpu.spec_register(reg),
    {
        self.cpu.register(reg)
    }

    /// The cell of a register, for writing: what the caller leaves in it is
    /// the register's new value, and nothing else changes.
    pub fn mut_register(&mut self, reg: Register) -> (cell: &mut u16)
        ensures
            *cell == old(self).cpu.spec_register(reg),
            final(self).cpu == old(self).cpu.with_register(reg, *final(cell)),
            final(self).memory == old(self).memory,
            final(self).pending == old(self).pending,
    {
        self.cpu.register_mut(reg)
    }

    /// The value of a register.
    pub fn read_register(&self, reg: Register) -> (value: u16)
        ensures
            value == self.cpu.spec_register(reg),
    {
        self.cpu.register(reg)
    }

    /// Replaces the value of one register.
    pub fn write_register(&mut self, reg: Register, value: u16)
        ensures
            final(self).cpu == old(self).cpu.with_register(reg, value),
            final(self).memory == old(self).memory,
            final(self).pending == old(self).pending,
    {
        self.cpu.set_register(reg, value);
    }

    /// The byte that a read of an address would yield, without using up
    /// port input; `AddressError` if the address is unmapped.
    pub fn read_memory_byte(&self, address: u16) -> (res: Result<u8, EmulationError>)
        requires
            self.wf(),
        ensures
            match self@.memory.peek_byte(address) {
                Ok(value) => res == Ok::<u8, EmulationError>(value),
                Err(e) => res == Err::<u8, EmulationError>(fault(e)),
            },
    {
        match self.memory.peek_byte(address) {
            Ok(value) => Ok(value),
            Err(e) => Err(address_fault(e)),
        }
    }

    /// The little-endian word that a read of an address would yield, the
    /// second byte coming from the next address; `AddressError` with the
    /// first of the two addresses that is unmapped.
    pub fn read_memory(&self, address: u16) -> (res: Result<u16, EmulationError>)
        requires
            self.wf(),
        ensures
            match self@.memory.peek_bytes(address, 2) {
                Ok(bytes) => res == Ok::<u16, EmulationError>(word_of(bytes[0], bytes[1])),
                Err(e) => res == Err::<u16, EmulationError>(fault(e)),
            },
    {
        match self.memory.peek_bytes(address, 2) {
            Ok(bytes) => Ok(crate::memory::make_word(bytes[0], bytes[1])),
            Err(e) => Err(address_fault(e)),
        }
    }

    /// Whether the flags meet a condition.
    pub fn check_condition(&self, cond: ConditionCode) -> (met: bool)
        ensures
            met == evaluate(cond, self.cpu.flags),
    {
        cond.meets(self.cpu.flags)
    }

    /// Sets ZERO and SIGN from a result and leaves every other flag.
    pub fn set_operation_flags(&mut self, value: u16)
        ensures
            final(self).cpu == (Cpu {
                flags: with_result_flags(old(self).cpu.flags, value),
                ..old(self).cpu
            }),
            final(self).memory == old(self).memory,
            final(self).pending == old(self).pending,
    {
        self.cpu.flags = result_flags(self.cpu.flags, value);
    }

    /// Pushes a word: the stack pointer goes down by two, then the word is
    /// written where it points, low byte first. If either address is
    /// unmapped nothing changes.
    pub fn push(&mut self, value: u16) -> (res: Result<(), EmulationError>)
        requires
            old(self).wf(),
        ensures
            final(self).wf(),
            match old(self)@.push(value) {
                Ok(after) => res is Ok && final(self)@ == after,
                Err(e) => res == Err::<(), EmulationError>(e) && final(self)@ == old(self)@,
            },
    {
        let sp = two_below(self.cpu.sp);
        match self.memory.write_word(sp, value) {
            Ok(()) => {
                self.cpu.sp = sp;
                Ok(())
            },
            Err(e) => Err(address_fault(e)),
        }
    }

    /// Pops a word: reads it where the stack pointer points, then the stack
    /// pointer goes up by two. If either address is unmapped nothing
    /// changes.
    pub fn pop(&mut self) -> (res: Result<u16, EmulationError>)
        requires
            old(self).wf(),
        ensures
            final(self).wf(),
            match old(self)@.pop() {
                Ok((value, after)) => res == Ok::<u16, EmulationError>(value) && final(self)@
                    == after,
                Err(e) => res == Err::<u16, EmulationError>(e) && final(self)@ == old(self)@,
            },
    {
        match self.memory.read_word(self.cpu.sp) {
            Ok(value) => {
                self.cpu.sp = advanced(self.cpu.sp, 2);
                Ok(value)
            },
            Err(e) => Err(address_fault(e)),
        }
    }

    /// A receives the byte at an address, zero-extended.
    fn load_byte(&mut self, address: u16) -> (res: Result<(), EmulationError>)
        requires
            old(self).wf(),
        ensures
            final(self).wf(),
            match old(self)@.load_byte(address) {
                Ok(after) => res is Ok && final(self)@ == after,
                Err(e) => res == Err::<(), EmulationError>(e) && final(self)@ == old(self)@,
            },
    {
        match self.memory.read_byte(address) {
            Ok(value) => {
                self.cpu.a = value as u16;
                Ok(())
            },
            Err(e) => Err(address_fault(e)),
        }
    }

    /// A receives the word at an address.
    fn load_word(&mut self, address: u16) -> (res: Result<(), EmulationError>)
        requires
            old(self).wf(),
        ensures
            final(self).wf(),
            match old(self)@.load_word(address) {
                Ok(after) => res is Ok && final(self)@ == after,
                Err(e) => res == Err::<(), EmulationError>(e) && final(self)@ == old(self)@,
            },
    {
        match self.memory.read_word(address) {
            Ok(value) => {
                self.cpu.a = value;
                Ok(())
            },
            Err(e) => Err(address_fault(e)),
        }
    }

    /// The low byte of A goes to an address.
    fn store_byte(&mut self, address: u16) -> (res: Result<(), EmulationError>)
        requires
            old(self).wf(),
        ensures
            final(self).wf(),
            match old(self)@.store_byte(address) {
                Ok(after) => res is Ok && final(self)@ == after,
                Err(e) => res == Err::<(), EmulationError>(e) && final(self)@ == old(self)@,
            },
    {
        let (low, _) = split_word(self.cpu.a);
        match self.memory.write_byte(address, low) {
            Ok(()) => Ok(()),
            Err(e) => Err(address_fault(e)),
        }
    }

    /// A goes to an address, low byte first.
    fn store_word(&mut self, address: u16) -> (res: Result<(), EmulationError>)
        requires
            old(self).wf(),
        ensures
            final(self).wf(),
            match old(self)@.store_word(address) {
                Ok(after) => res is Ok && final(self)@ == after,
                Err(e) => res == Err::<(), EmulationError>(e) && final(self)@ == old(self)@,
            },
    {
        match self.memory.write_word(address, self.cpu.a) {
            Ok(()) => Ok(()),
            Err(e) => Err(address_fault(e)),
        }
    }

    /// Interrupt entry: pushes the program counter and then the flags, and
    /// loads the program counter from the vector. If a push would meet an
    /// unmapped address nothing changes.
    fn enter_interrupt(&mut self) -> (res: Result<(), EmulationError>)
        requires
            old(self).wf(),
        ensures
            final(self).wf(),
            match old(self)@.enter_interrupt() {
                Ok(after) => res is Ok && final(self)@ == after,
                Err(e) => res == Err::<(), EmulationError>(e) && final(self)@ == old(self)@,
            },
    {
        let first = two_below(self.cpu.sp);
        let second = two_below(first);
        match Mmu::check_word(first) {
            Ok(()) => {},
            Err(e) => {
                return Err(address_fault(e));
            },
        }
        match Mmu::check_word(second) {
            Ok(()) => {},
            Err(e) => {
                return Err(address_fault(e));
            },
        }
        let pc = self.cpu.pc;
        let flags = self.cpu.flags;
        match self.push(pc) {
            Ok(()) => {},
            Err(e) => {
                return Err(e);
            },
        }
        match self.push(flags) {
            Ok(()) => {},
            Err(e) => {
                return Err(e);
            },
        }
        match self.memory.read_word(RESET_VECTOR) {
            Ok(vector) => {
                self.cpu.pc = vector;
                Ok(())
            },
            Err(e) => Err(address_fault(e)),
        }
    }

    /// Interrupt return: pops the flags and then the program counter. If a
    /// pop would meet an unmapped address nothing changes.
    fn leave_interrupt(&mut self) -> (res: Result<(), EmulationError>)
        requires
            old(self).wf(),
        ensures
            final(self).wf(),
            match old(self)@.leave_interrupt() {
                Ok(after) => res is Ok && final(self)@ == after,
                Err(e) => res == Err::<(), EmulationError>(e) && final(self)@ == old(self)@,
            },
    {
        let sp = self.cpu.sp;
        let next = advanced(sp, 2);
        match Mmu::check_word(sp) {
            Ok(()) => {},
            Err(e) => {
                return Err(address_fault(e));
            },
        }
        match Mmu::check_word(next) {
            Ok(()) => {},
            Err(e) => {
                return Err(address_fault(e));
            },
        }
        let flags = match self.pop() {
            Ok(value) => value,
            Err(e) => {
                return Err(e);
            },
        };
        let pc = match self.pop() {
            Ok(value) => value,
            Err(e) => {
                return Err(e);
            },
        };
        self.cpu.flags = flags;
        self.cpu.pc = pc;
        Ok(())
    }

    /// Dispatches a waiting interrupt request if ENABLE_INTERRUPT is set:
    /// the request is taken, the program counter and the flags are pushed,
    /// and the program counter is loaded from the vector. Otherwise nothing
    /// happens.
    pub fn handle_interrupt(&mut self) -> (res: Result<(), EmulationError>)
        requires
            old(self).wf(),
        ensures
            final(self).wf(),
            match (if old(self)@.interrupt_due() {
                old(self)@.dispatch()
            } else {
                Ok(old(self)@)
            }) {
                Ok(after) => res is Ok && final(self)@ == after,
                Err(e) => res == Err::<(), EmulationError>(e) && final(self)@ == old(self)@,
            },
    {
        if get_flag(self.cpu.flags, Flag::EnableInterrupt) && self.pending {
            match self.enter_interrupt() {
                Ok(()) => {
                    self.pending = false;
                    Ok(())
                },
                Err(e) => Err(e),
            }
        } else {
            Ok(())
        }
    }

    /// Returns from an interrupt; see `handle_interrupt_return`.
    pub fn handle_return_from_interrupt(&mut self) -> (res: Result<(), EmulationError>)
        requires
            old(self).wf(),
        ensures
            final(self).wf(),
            match old(self)@.leave_interrupt() {
                Ok(after) => res is Ok && final(self)@ == after,
                Err(e) => res == Err::<(), EmulationError>(e) && final(self)@ == old(self)@,
            },
    {
        self.leave_interrupt()
    }

    /// Returns from an interrupt: pops the flags and then the program
    /// counter.
    pub fn handle_interrupt_return(&mut self) -> (res: Result<(), EmulationError>)
        requires
            old(self).wf(),
        ensures
            final(self).wf(),
            match old(self)@.leave_interrupt() {
                Ok(after) => res is Ok && final(self)@ == after,
                Err(e) => res == Err::<(), EmulationError>(e) && final(self)@ == old(self)@,
            },
    {
        self.leave_interrupt()
    }

    /// Carries out one instruction, the program counter already being past
    /// it. Loads and stores go through the memory map, pushes and pops
    /// through the stack, and everything else works on the register file
    /// alone. A write to the locked cartridge is ignored and noted in the
    /// memory map; it is no error. An access to an unmapped address is an
    /// error, and then nothing has changed.
    pub fn execute_cpu_instruction(&mut self, instruction: &Instruction) -> (res: Result<
        (),
        EmulationError,
    >)
        requires
            old(self).wf(),
        ensures
            final(self).wf(),
            match old(self)@.execute(*instruction) {
                Ok(after) => res is Ok && final(self)@ == after,
                Err(e) => res == Err::<(), EmulationError>(e) && final(self)@ == old(self)@,
            },
    {
        match *instruction {
            Instruction::LoadAddressAbsolute(address) => self.load_byte(address),
            Instruction::LoadAddressStackOffset(offset) => {
                let address = offset_address(self.cpu.sp, offset);
                self.load_byte(address)
            },
            Instruction::LoadAddressIndirect(address, reg) => {
                let address = indexed_address(address, self.cpu.register(reg));
                self.load_byte(address)
            },
            Instruction::LoadWordAbsolute(address) => self.load_word(address),
            Instruction::LoadWordStackOffset(offset) => {
                let address = offset_address(self.cpu.sp, offset);
                self.load_word(address)
            },
            Instruction::LoadWordIndirect(address, reg) => {
                let address = indexed_address(address, self.cpu.register(reg));
                self.load_word(address)
            },
            Instruction::StoreAddressAbsolute(address) => self.store_byte(address),
            Instruction::StoreAddressStackOffset(offset) => {
                let address = offset_address(self.cpu.sp, offset);
                self.store_byte(address)
            },
            Instruction::StoreAddressIndirect(address, reg) => {
                let address = indexed_address(address, self.cpu.register(reg));
                self.store_byte(address)
            },
            Instruction::StoreWordAbsolute(address) => self.store_word(address),
            Instruction::StoreWordStackOffset(offset) => {
                let address = offset_address(self.cpu.sp, offset);
                self.store_word(address)
            },
            Instruction::StoreWordIndirect(address, reg) => {
                let address = indexed_address(address, self.cpu.register(reg));
                self.store_word(address)
            },
            Instruction::Call(target) => {
                let pc = self.cpu.pc;
                match self.push(pc) {
                    Ok(()) => {
                        self.cpu.pc = self.cpu.resolve(&target);
                        Ok(())
                    },
                    Err(e) => Err(e),
                }
            },
            Instruction::PushRegister(reg) => {
                let value = self.cpu.register(reg);
                self.push(value)
            },
            Instruction::PopRegister(reg) => {
                match self.pop() {
                    Ok(value) => {
                        self.cpu.set_register(reg, value);
                        Ok(())
                    },
                    Err(e) => Err(e),
                }
            },
            Instruction::Interrupt(_) => self.enter_interrupt(),
            Instruction::ReturnFromInterrupt => self.leave_interrupt(),
            _ => {
                self.cpu.compute(instruction);
                Ok(())
            },
        }
    }

    /// Carries out one instruction; see `execute_cpu_instruction`.
    pub fn execute(&mut self, instruction: Instruction) -> (res: Result<(), EmulationError>)
        requires
            old(self).wf(),
        ensures
            final(self).wf(),
            match old(self)@.execute(instruction) {
                Ok(after) => res is Ok && final(self)@ == after,
                Err(e) => res == Err::<(), EmulationError>(e) && final(self)@ == old(self)@,
            },
    {
        self.execute_cpu_instruction(&instruction)
    }

    /// Decodes the instruction at the program counter and says how many
    /// bytes it takes, without changing anything: the opcode is looked at
    /// first, then exactly the operand bytes that its layout asks for.
    /// `AddressError` if one of those bytes is unmapped, `InvalidOpcode` if
    /// the first byte is no opcode, `RegisterIndexError` or
    /// `InvalidCondition` if an operand byte does not hold what it should.
    pub fn next_instruction(&self) -> (res: Result<(Instruction, u32), EmulationError>)
        requires
            self.wf(),
        ensures
            match self@.fetch() {
                Ok((instruction, length)) => res == Ok::<(Instruction, u32), EmulationError>(
                    (instruction, length as u32),
                ) && 1 <= length <= 5,
                Err(e) => res == Err::<(Instruction, u32), EmulationError>(e),
            },
    {
        let opcode = match self.memory.peek_byte(self.cpu.pc) {
            Ok(byte) => byte,
            Err(e) => {
                return Err(address_fault(e));
            },
        };
        let width = match operand_length(opcode) {
            Some(width) => width,
            None => {
                return Err(EmulationError::InvalidOpcode(opcode));
            },
        };
        let bytes = match self.memory.peek_bytes(self.cpu.pc, 1 + width) {
            Ok(bytes) => bytes,
            Err(e) => {
                return Err(address_fault(e));
            },
        };
        match Instruction::try_from_iter(bytes.as_slice()) {
            Ok(found) => Ok(found),
            Err(e) => Err(decoder_fault(e)),
        }
    }

    /// Decodes the instruction at the program counter; see
    /// `next_instruction`.
    pub fn next_cpu_instruction(&self) -> (res: Result<(Instruction, u32), EmulationError>)
        requires
            self.wf(),
        ensures
            match self@.fetch() {
                Ok((instruction, length)) => res == Ok::<(Instruction, u32), EmulationError>(
                    (instruction, length as u32),
                ) && 1 <= length <= 5,
                Err(e) => res == Err::<(Instruction, u32), EmulationError>(e),
            },
    {
        self.next_instruction()
    }

    /// Runs the instruction at the program counter: decodes it, moves the
    /// program counter past it, and carries it out. On any error nothing
    /// has changed, the program counter included.
    pub fn advance_cpu(&mut self) -> (res: Result<(), EmulationError>)
        requires
            old(self).wf(),
        ensures
            final(self).wf(),
            match old(self)@.advance_cpu() {
                Ok(after) => res is Ok && final(self)@ == after,
                Err(e) => res == Err::<(), EmulationError>(e) && final(self)@ == old(self)@,
            },
    {
        let (instruction, length) = match self.next_instruction() {
            Ok(found) => found,
            Err(e) => {
                return Err(e);
            },
        };
        let pc = self.cpu.pc;
        self.cpu.pc = advanced(pc, length);
        match self.execute_cpu_instruction(&instruction) {
            Ok(()) => Ok(()),
            Err(e) => {
                self.cpu.pc = pc;
                Err(e)
            },
        }
    }

    /// Advances the machine by one step. A halted machine stays as it is.
    /// If ENABLE_INTERRUPT is set and an interrupt request waits, the step
    /// dispatches it and does nothing else. Otherwise the step runs the
    /// instruction at the program counter. On any error nothing has changed.
    pub fn step(&mut self) -> (res: Result<(), EmulationError>)
        requires
            old(self).wf(),
        ensures
            final(self).wf(),
            match old(self)@.step() {
                Ok(after) => res is Ok && final(self)@ == after,
                Err(e) => res == Err::<(), EmulationError>(e) && final(self)@ == old(self)@,
            },
    {
        if !self.is_running() {
            Ok(())
        } else if get_flag(self.cpu.flags, Flag::EnableInterrupt) && self.pending {
            self.handle_interrupt()
        } else {
            self.advance_cpu()
        }
    }

    /// Advances the machine by one step; see `step`.
    pub fn advance(&mut self) -> (res: Result<(), EmulationError>)
        requires
            old(self).wf(),
        ensures
            final(self).wf(),
            match old(self)@.step() {
                Ok(after) => res is Ok && final(self)@ == after,
                Err(e) => res == Err::<(), EmulationError>(e) && final(self)@ == old(self)@,
            },
    {
        self.step()
    }

    /// Steps until the machine halts, an error occurs, or `limit` steps
    /// have run, and says how many steps ran. Every step that ran succeeded
    /// according to `Machine::step`; after an error the machine is as the
    /// last successful step left it.
    pub fn run(&mut self, limit: u64) -> (res: Result<u64, EmulationError>)
        requires
            old(self).wf(),
        ensures
            final(self).wf(),
            match res {
                Ok(steps) => steps <= limit && steps_from(old(self)@, steps as nat) == Some(
                    final(self)@,
                ) && (steps < limit ==> final(self)@.halted()),
                Err(e) => exists|steps: nat|
                    steps < limit && #[trigger] steps_from(old(self)@, steps) == Some(
                        final(self)@,
                    ) && final(self)@.step() == Err::<Machine, EmulationError>(e),
            },
    {
        let mut steps: u64 = 0;
        while steps < limit && self.is_running()
            invariant
                self.wf(),
                steps <= limit,
                steps_from(old(self)@, steps as nat) == Some(self@),
            decreases limit - steps,
        {
            match self.step() {
                Ok(()) => {},
                Err(e) => {
                    return Err(e);
                },
            }
            steps = steps + 1;
        }
        Ok(steps)
    }

    /// Reads the byte at the program counter, without using up port input,
    /// and moves the program counter past it.
    pub fn next_byte(&mut self) -> (res: Result<u8, EmulationError>)
        requires
            old(self).wf(),
        ensures
            final(self).wf(),
            final(self).memory == old(self).memory,
            final(self).pending == old(self).pending,
            match old(self)@.memory.peek_byte(old(self).cpu.pc) {
                Ok(value) => res == Ok::<u8, EmulationError>(value) && final(self).cpu == (Cpu {
                    pc: wrapped(old(self).cpu.pc + 1),
                    ..old(self).cpu
                }),
                Err(e) => res == Err::<u8, EmulationError>(fault(e)) && final(self).cpu == old(
                    self,
                ).cpu,
            },
    {
        match self.memory.peek_byte(self.cpu.pc) {
            Ok(value) => {
                self.cpu.pc = advanced(self.cpu.pc, 1);
                Ok(value)
            },
            Err(e) => Err(address_fault(e)),
        }
    }

    /// Reads the little-endian word at the program counter, without using
    /// up port input, and moves the program counter past it. If either byte
    /// is unmapped nothing changes.
    pub fn next_word(&mut self) -> (res: Result<u16, EmulationError>)
        requires
            old(self).wf(),
        ensures
            final(self).wf(),
            final(self).memory == old(self).memory,
            final(self).pending == old(self).pending,
            match old(self)@.memory.peek_bytes(old(self).cpu.pc, 2) {
                Ok(bytes) => res == Ok::<u16, EmulationError>(word_of(bytes[0], bytes[1]))
                    && final(self).cpu == (Cpu {
                    pc: wrapped(old(self).cpu.pc + 2),
                    ..old(self).cpu
                }),
                Err(e) => res == Err::<u16, EmulationError>(fault(e)) && final(self).cpu == old(
                    self,
                ).cpu,
            },
    {
        match self.memory.peek_bytes(self.cpu.pc, 2) {
            Ok(bytes) => {
                self.cpu.pc = advanced(self.cpu.pc, 2);
                Ok(crate::memory::make_word(bytes[0], bytes[1]))
            },
            Err(e) => Err(address_fault(e)),
        }
    }
}

impl Default for Emulator {
    /// An emulator over a cartridge of zero bytes, after reset: halted, for
    /// the reset vector is zero.
    fn default() -> (emu: Emulator)
        ensures
            emu.wf(),
            emu@ == Machine::fresh(Seq::new(crate::memory::ROM_SIZE as nat, |i: int| 0u8), false),
            emu@.halted(),
    {
        let emu = Emulator::new(Cartridge::new());
        assert(crate::memory::word_of(0, 0) == 0);
        proof {
            crate::flag::lemma_with_flag(0, Flag::Halt, true, Flag::Halt);
        }
        emu
    }
}

/// Whether an instruction is a logical operation or a rotate: one that sets
/// ZERO and SIGN from its result and no other flag.
pub open spec fn is_logical(instruction: Instruction) -> bool {
    match instruction {
        Instruction::And(_)
        | Instruction::Or(_)
        | Instruction::Xor(_)
        | Instruction::Not(_)
        | Instruction::Test(_)
        | Instruction::TestImmediate(_, _)
        | Instruction::RotateLeft(_)
        | Instruction::RotateRight(_) => true,
        _ => false,
    }
}

/// The exact result of an arithmetic instruction on a register file, before
/// it is cut to 16 bits: read as unsigned numbers, and read as signed
/// numbers. `None` for an instruction that is not arithmetic.
pub open spec fn arithmetic_outcome(cpu: Cpu, instruction: Instruction) -> Option<(int, int)> {
    let carry: int = if flag_is_set(cpu.flags, Flag::Carry) {
        1
    } else {
        0
    };
    let a = cpu.a;
    match instruction {
        Instruction::Add(reg) => {
            let b = cpu.spec_register(reg);
            Some((a + b, crate::alu::signed(a) + crate::alu::signed(b)))
        },
        Instruction::AddWithCarry(reg) => {
            let b = cpu.spec_register(reg);
            Some((a + b + carry, crate::alu::signed(a) + crate::alu::signed(b) + carry))
        },
        Instruction::Subtract(reg) | Instruction::Compare(reg) => {
            let b = cpu.spec_register(reg);
            Some((a - b, crate::alu::signed(a) - crate::alu::signed(b)))
        },
        Instruction::SubtractWithBorrow(reg) => {
            let b = cpu.spec_register(reg);
            Some((a - b - carry, crate::alu::signed(a) - crate::alu::signed(b) - carry))
        },
        Instruction::Negate(reg) => {
            let b = cpu.spec_register(reg);
            Some((-b, -crate::alu::signed(b)))
        },
        Instruction::CompareImmediate(reg, value) => {
            let b = cpu.spec_register(reg);
            Some((b - value, crate::alu::signed(b) - crate::alu::signed(value)))
        },
        Instruction::Increment(reg) => {
            let b = cpu.spec_register(reg);
            Some((b + 1, crate::alu::signed(b) + 1))
        },
        Instruction::Decrement(reg) => {
            let b = cpu.spec_register(reg);
            Some((b - 1, crate::alu::signed(b) - 1))
        },
        _ => None,
    }
}

/// Logical operations and rotates never modify CARRY or OVERFLOW, nor
/// ENABLE_INTERRUPT or HALT; they set ZERO and SIGN.
pub proof fn lemma_logical_keeps_carry_and_overflow(machine: Machine, instruction: Instruction)
    requires
        is_logical(instruction),
    ensures
        machine.execute(instruction) is Ok,
        flag_is_set(machine.execute(instruction).unwrap().cpu.flags, Flag::Carry) == flag_is_set(
            machine.cpu.flags,
            Flag::Carry,
        ),
        flag_is_set(machine.execute(instruction).unwrap().cpu.flags, Flag::Overflow)
            == flag_is_set(machine.cpu.flags, Flag::Overflow),
        flag_is_set(machine.execute(instruction).unwrap().cpu.flags, Flag::EnableInterrupt)
            == flag_is_set(machine.cpu.flags, Flag::EnableInterrupt),
        flag_is_set(machine.execute(instruction).unwrap().cpu.flags, Flag::Halt) == flag_is_set(
            machine.cpu.flags,
            Flag::Halt,
        ),
        machine.execute(instruction).unwrap().memory == machine.memory,
{
    let cpu = machine.cpu;
    let after = cpu.spec_compute(instruction);
    let result: u16 = match instruction {
        Instruction::And(reg) => cpu.a & cpu.spec_register(reg),
        Instruction::Or(reg) => cpu.a | cpu.spec_register(reg),
        Instruction::Xor(reg) => cpu.a ^ cpu.spec_register(reg),
        Instruction::Not(reg) => !cpu.spec_register(reg),
        Instruction::Test(reg) => cpu.a & cpu.spec_register(reg),
        Instruction::TestImmediate(reg, value) => cpu.spec_register(reg) & value,
        Instruction::RotateLeft(reg) => crate::alu::spec_rotate_left(cpu.a, cpu.spec_register(reg)),
        _ => crate::alu::spec_rotate_right(cpu.a, cpu.spec_register(instruction->RotateRight_0)),
    };
    assert(after.flags == with_result_flags(cpu.flags, result));
    crate::alu::lemma_result_flags(cpu.flags, result);
}

/// Whether a FLAGS word is what an arithmetic operation with the given
/// exact results leaves of the word before it: ZERO and SIGN from the
/// 16-bit result, CARRY on unsigned overflow or borrow, OVERFLOW on signed
/// overflow, ENABLE_INTERRUPT and HALT as before.
pub open spec fn flags_reflect(before: u16, after: u16, exact: int, signed_exact: int) -> bool {
    &&& flag_is_set(after, Flag::Zero) == (wrapped(exact) == 0)
    &&& flag_is_set(after, Flag::Sign) == (wrapped(exact) >= 0x8000)
    &&& flag_is_set(after, Flag::Carry) == (exact < 0 || exact > 0xFFFF)
    &&& flag_is_set(after, Flag::Overflow) == crate::alu::overflows(signed_exact)
    &&& flag_is_set(after, Flag::EnableInterrupt) == flag_is_set(before, Flag::EnableInterrupt)
    &&& flag_is_set(after, Flag::Halt) == flag_is_set(before, Flag::Halt)
}

/// The FLAGS word that the arithmetic flags are set in reflects the
/// operation.
proof fn lemma_flags_reflect(flags: u16, exact: int, signed_exact: int)
    ensures
        flags_reflect(
            flags,
            crate::alu::with_arithmetic_flags(
                flags,
                wrapped(exact),
                exact < 0 || exact > 0xFFFF,
                crate::alu::overflows(signed_exact),
            ),
            exact,
            signed_exact,
        ),
{
    crate::alu::lemma_arithmetic_flags(
        flags,
        wrapped(exact),
        exact < 0 || exact > 0xFFFF,
        crate::alu::overflows(signed_exact),
    );
}

/// What an arithmetic instruction leaves in the flags of a register file.
#[verifier::rlimit(50)]
proof fn lemma_compute_sets_all_four_flags(cpu: Cpu, instruction: Instruction)
    requires
        arithmetic_outcome(cpu, instruction) is Some,
    ensures
        flags_reflect(
            cpu.flags,
            cpu.spec_compute(instruction).flags,
            arithmetic_outcome(cpu, instruction).unwrap().0,
            arithmetic_outcome(cpu, instruction).unwrap().1,
        ),
{
    let carry = flag_is_set(cpu.flags, Flag::Carry);
    let c: int = if carry {
        1
    } else {
        0
    };
    match instruction {
        Instruction::Add(reg) => {
            crate::alu::lemma_add_flags(cpu.a, cpu.spec_register(reg), false, cpu.flags);
            lemma_flags_reflect(cpu.flags, cpu.a + cpu.spec_register(reg), crate::alu::signed(cpu.a) + crate::alu::signed(cpu.spec_register(reg)));
            assert(cpu.spec_compute(instruction).flags == crate::alu::with_arithmetic_flags(
                cpu.flags,
                wrapped(cpu.a + cpu.spec_register(reg)),
                cpu.a + cpu.spec_register(reg) < 0 || cpu.a + cpu.spec_register(reg) > 0xFFFF,
                crate::alu::overflows(crate::alu::signed(cpu.a) + crate::alu::signed(cpu.spec_register(reg))),
            ));
            assert(arithmetic_outcome(cpu, instruction) == Some((cpu.a + cpu.spec_register(reg), crate::alu::signed(cpu.a) + crate::alu::signed(cpu.spec_register(reg)))));
            assert(flags_reflect(
                cpu.flags,
                cpu.spec_compute(instruction).flags,
                cpu.a + cpu.spec_register(reg),
                crate::alu::signed(cpu.a) + crate::alu::signed(cpu.spec_register(reg)),
            ));
        },
        Instruction::AddWithCarry(reg) => {
            crate::alu::lemma_add_flags(cpu.a, cpu.spec_register(reg), carry, cpu.flags);
            lemma_flags_reflect(cpu.flags, cpu.a + cpu.spec_register(reg) + c, crate::alu::signed(cpu.a) + crate::alu::signed(cpu.spec_register(reg)) + c);
            assert(cpu.spec_compute(instruction).flags == crate::alu::with_arithmetic_flags(
                cpu.flags,
                wrapped(cpu.a + cpu.spec_register(reg) + c),
                cpu.a + cpu.spec_register(reg) + c < 0 || cpu.a + cpu.spec_register(reg) + c > 0xFFFF,
                crate::alu::overflows(crate::alu::signed(cpu.a) + crate::alu::signed(cpu.spec_register(reg)) + c),
            ));
            assert(arithmetic_outcome(cpu, instruction) == Some((cpu.a + cpu.spec_register(reg) + c, crate::alu::signed(cpu.a) + crate::alu::signed(cpu.spec_register(reg)) + c)));
            assert(flags_reflect(
                cpu.flags,
                cpu.spec_compute(instruction).flags,
                cpu.a + cpu.spec_register(reg) + c,
                crate::alu::signed(cpu.a) + crate::alu::signed(cpu.spec_register(reg)) + c,
            ));
        },
        Instruction::Subtract(reg) => {
            crate::alu::lemma_subtract_flags(cpu.a, cpu.spec_register(reg), false, cpu.flags);
            lemma_flags_reflect(cpu.flags, cpu.a - cpu.spec_register(reg), crate::alu::signed(cpu.a) - crate::alu::signed(cpu.spec_register(reg)));
            assert(cpu.spec_compute(instruction).flags == crate::alu::with_arithmetic_flags(
                cpu.flags,
                wrapped(cpu.a - cpu.spec_register(reg)),
                cpu.a - cpu.spec_register(reg) < 0 || cpu.a - cpu.spec_register(reg) > 0xFFFF,
                crate::alu::overflows(crate::alu::signed(cpu.a) - crate::alu::signed(cpu.spec_register(reg))),
            ));
            assert(arithmetic_outcome(cpu, instruction) == Some((cpu.a - cpu.spec_register(reg), crate::alu::signed(cpu.a) - crate::alu::signed(cpu.spec_register(reg)))));
            assert(flags_reflect(
                cpu.flags,
                cpu.spec_compute(instruction).flags,
                cpu.a - cpu.spec_register(reg),
                crate::alu::signed(cpu.a) - crate::alu::signed(cpu.spec_register(reg)),
            ));
        },
        Instruction::Compare(reg) => {
            crate::alu::lemma_subtract_flags(cpu.a, cpu.spec_register(reg), false, cpu.flags);
            lemma_flags_reflect(cpu.flags, cpu.a - cpu.spec_register(reg), crate::alu::signed(cpu.a) - crate::alu::signed(cpu.spec_register(reg)));
            assert(cpu.spec_compute(instruction).flags == crate::alu::with_arithmetic_flags(
                cpu.flags,
                wrapped(cpu.a - cpu.spec_register(reg)),
                cpu.a - cpu.spec_register(reg) < 0 || cpu.a - cpu.spec_register(reg) > 0xFFFF,
                crate::alu::overflows(crate::alu::signed(cpu.a) - crate::alu::signed(cpu.spec_register(reg))),
            ));
            assert(arithmetic_outcome(cpu, instruction) == Some((cpu.a - cpu.spec_register(reg), crate::alu::signed(cpu.a) - crate::alu::signed(cpu.spec_register(reg)))));
            assert(flags_reflect(
                cpu.flags,
                cpu.spec_compute(instruction).flags,
                cpu.a - cpu.spec_register(reg),
                crate::alu::signed(cpu.a) - crate::alu::signed(cpu.spec_register(reg)),
            ));
        },
        Instruction::SubtractWithBorrow(reg) => {
            crate::alu::lemma_subtract_flags(cpu.a, cpu.spec_register(reg), carry, cpu.flags);
            lemma_flags_reflect(cpu.flags, cpu.a - cpu.spec_register(reg) - c, crate::alu::signed(cpu.a) - crate::alu::signed(cpu.spec_register(reg)) - c);
            assert(cpu.spec_compute(instruction).flags == crate::alu::with_arithmetic_flags(
                cpu.flags,
                wrapped(cpu.a - cpu.spec_register(reg) - c),
                cpu.a - cpu.spec_register(reg) - c < 0 || cpu.a - cpu.spec_register(reg) - c > 0xFFFF,
                crate::alu::overflows(crate::alu::signed(cpu.a) - crate::alu::signed(cpu.spec_register(reg)) - c),
            ));
            assert(arithmetic_outcome(cpu, instruction) == Some((cpu.a - cpu.spec_register(reg) - c, crate::alu::signed(cpu.a) - crate::alu::signed(cpu.spec_register(reg)) - c)));
            assert(flags_reflect(
                cpu.flags,
                cpu.spec_compute(instruction).flags,
                cpu.a - cpu.spec_register(reg) - c,
                crate::alu::signed(cpu.a) - crate::alu::signed(cpu.spec_register(reg)) - c,
            ));
        },
        Instruction::Negate(reg) => {
            crate::alu::lemma_subtract_flags(0, cpu.spec_register(reg), false, cpu.flags);
            lemma_flags_reflect(cpu.flags, -cpu.spec_register(reg), -crate::alu::signed(cpu.spec_register(reg)));
            assert(cpu.spec_compute(instruction).flags == crate::alu::with_arithmetic_flags(
                cpu.flags,
                wrapped(-cpu.spec_register(reg)),
                -cpu.spec_register(reg) < 0 || -cpu.spec_register(reg) > 0xFFFF,
                crate::alu::overflows(-crate::alu::signed(cpu.spec_register(reg))),
            ));
            assert(arithmetic_outcome(cpu, instruction) == Some((-cpu.spec_register(reg), -crate::alu::signed(cpu.spec_register(reg)))));
            assert(flags_reflect(
                cpu.flags,
                cpu.spec_compute(instruction).flags,
                -cpu.spec_register(reg),
                -crate::alu::signed(cpu.spec_register(reg)),
            ));
        },
        Instruction::CompareImmediate(reg, value) => {
            crate::alu::lemma_subtract_flags(cpu.spec_register(reg), value, false, cpu.flags);
            lemma_flags_reflect(cpu.flags, cpu.spec_register(reg) - value, crate::alu::signed(cpu.spec_register(reg)) - crate::alu::signed(value));
            assert(cpu.spec_compute(instruction).flags == crate::alu::with_arithmetic_flags(
                cpu.flags,
                wrapped(cpu.spec_register(reg) - value),
                cpu.spec_register(reg) - value < 0 || cpu.spec_register(reg) - value > 0xFFFF,
                crate::alu::overflows(crate::alu::signed(cpu.spec_register(reg)) - crate::alu::signed(value)),
            ));
            assert(arithmetic_outcome(cpu, instruction) == Some((cpu.spec_register(reg) - value, crate::alu::signed(cpu.spec_register(reg)) - crate::alu::signed(value))));
            assert(flags_reflect(
                cpu.flags,
                cpu.spec_compute(instruction).flags,
                cpu.spec_register(reg) - value,
                crate::alu::signed(cpu.spec_register(reg)) - crate::alu::signed(value),
            ));
        },
        Instruction::Increment(reg) => {
            crate::alu::lemma_add_flags(cpu.spec_register(reg), 1, false, cpu.flags);
            lemma_flags_reflect(cpu.flags, cpu.spec_register(reg) + 1, crate::alu::signed(cpu.spec_register(reg)) + 1);
            assert(cpu.spec_compute(instruction).flags == crate::alu::with_arithmetic_flags(
                cpu.flags,
                wrapped(cpu.spec_register(reg) + 1),
                cpu.spec_register(reg) + 1 < 0 || cpu.spec_register(reg) + 1 > 0xFFFF,
                crate::alu::overflows(crate::alu::signed(cpu.spec_register(reg)) + 1),
            ));
            assert(arithmetic_outcome(cpu, instruction) == Some((cpu.spec_register(reg) + 1, crate::alu::signed(cpu.spec_register(reg)) + 1)));
            assert(flags_reflect(
                cpu.flags,
                cpu.spec_compute(instruction).flags,
                cpu.spec_register(reg) + 1,
                crate::alu::signed(cpu.spec_register(reg)) + 1,
            ));
        },
        Instruction::Decrement(reg) => {
            crate::alu::lemma_subtract_flags(cpu.spec_register(reg), 1, false, cpu.flags);
            lemma_flags_reflect(cpu.flags, cpu.spec_register(reg) - 1, crate::alu::signed(cpu.spec_register(reg)) - 1);
            assert(cpu.spec_compute(instruction).flags == crate::alu::with_arithmetic_flags(
                cpu.flags,
                wrapped(cpu.spec_register(reg) - 1),
                cpu.spec_register(reg) - 1 < 0 || cpu.spec_register(reg) - 1 > 0xFFFF,
                crate::alu::overflows(crate::alu::signed(cpu.spec_register(reg)) - 1),
            ));
            assert(arithmetic_outcome(cpu, instruction) == Some((cpu.spec_register(reg) - 1, crate::alu::signed(cpu.spec_register(reg)) - 1)));
            assert(flags_reflect(
                cpu.flags,
                cpu.spec_compute(instruction).flags,
                cpu.spec_register(reg) - 1,
                crate::alu::signed(cpu.spec_register(reg)) - 1,
            ));
        },
        _ => {},
    }
}

/// Arithmetic operations update all four arithmetic flags: ZERO and SIGN
/// from the 16-bit result, CARRY on unsigned overflow or borrow, OVERFLOW
/// on signed overflow; ENABLE_INTERRUPT and HALT stay.
pub proof fn lemma_arithmetic_sets_all_four_flags(machine: Machine, instruction: Instruction)
    requires
        arithmetic_outcome(machine.cpu, instruction) is Some,
    ensures
        machine.execute(instruction) is Ok,
        flags_reflect(
            machine.cpu.flags,
            machine.execute(instruction).unwrap().cpu.flags,
            arithmetic_outcome(machine.cpu, instruction).unwrap().0,
            arithmetic_outcome(machine.cpu, instruction).unwrap().1,
        ),
{
    lemma_compute_sets_all_four_flags(machine.cpu, instruction);
    assert(machine.execute(instruction) == Ok::<Machine, EmulationError>(
        Machine { cpu: machine.cpu.spec_compute(instruction), ..machine },
    ));
}

/// Whether a write to an address sticks: the address lies in RAM, or in the
/// cartridge while it is unlocked.
pub open spec fn holds_writes(memory: MemoryMap, address: u16) -> bool {
    address < RAM_SIZE || (address >= ROM_START && !memory.locked)
}

/// Stack discipline: a word that is pushed where writes stick is the word
/// that the next pop yields, and the pop leaves the stack pointer where it
/// was before the push. Nothing else of the register file changes.
pub proof fn lemma_push_then_pop(machine: Machine, value: u16)
    requires
        machine.wf(),
        holds_writes(machine.memory, wrapped(machine.cpu.sp - 2)),
        holds_writes(machine.memory, crate::memory::next_address(wrapped(machine.cpu.sp - 2))),
    ensures
        machine.push(value) is Ok,
        machine.push(value).unwrap().pop() is Ok,
        machine.push(value).unwrap().pop().unwrap().0 == value,
        machine.push(value).unwrap().pop().unwrap().1.cpu == machine.cpu,
{
    let sp = wrapped(machine.cpu.sp - 2);
    let second = crate::memory::next_address(sp);
    assert(word_fault(sp) is None);
    let pushed = machine.push(value).unwrap();
    crate::isa::lemma_word_bytes(value, 0, 0);
    assert(pushed.memory.byte_at(sp) == low_byte(value));
    assert(pushed.memory.byte_at(second) == high_byte(value));
}

/// Stack discipline, by instructions: after `PUSH x; POP y` register `y`
/// holds what `x` held, and if `y` is not the stack pointer itself the stack
/// pointer is where it was. This holds where the stack lies in memory that
/// takes writes.
pub proof fn lemma_push_pop_instructions(machine: Machine, x: Register, y: Register)
    requires
        machine.wf(),
        holds_writes(machine.memory, wrapped(machine.cpu.sp - 2)),
        holds_writes(machine.memory, crate::memory::next_address(wrapped(machine.cpu.sp - 2))),
    ensures
        machine.execute(Instruction::PushRegister(x)) is Ok,
        machine.execute(Instruction::PushRegister(x)).unwrap().execute(
            Instruction::PopRegister(y),
        ) is Ok,
        ({
            let after = machine.execute(Instruction::PushRegister(x)).unwrap().execute(
                Instruction::PopRegister(y),
            ).unwrap();
            &&& after.cpu.spec_register(y) == machine.cpu.spec_register(x)
            &&& (y != Register::Sp ==> after.cpu.sp == machine.cpu.sp)
            &&& after.cpu == machine.cpu.with_register(y, machine.cpu.spec_register(x))
        }),
{
    lemma_push_then_pop(machine, machine.cpu.spec_register(x));
}

/// An instruction that works on the register file alone never fails and
/// touches neither memory nor a waiting interrupt request.
pub proof fn lemma_register_only_instructions(machine: Machine, instruction: Instruction)
    requires
        spec_is_register_only(instruction),
    ensures
        machine.execute(instruction) == Ok::<Machine, EmulationError>(
            Machine { cpu: machine.cpu.spec_compute(instruction), ..machine },
        ),
{
}

/// Reset idempotence: a second reset right after a reset changes nothing.
pub proof fn lemma_reset_idempotent(machine: Machine)
    ensures
        machine.reset().reset() == machine.reset(),
{
}

/// A halted machine does not move: a step leaves it exactly as it is.
pub proof fn lemma_halted_machine_stays(machine: Machine)
    requires
        machine.halted(),
    ensures
        machine.step() == Ok::<Machine, EmulationError>(machine),
{
}

} // verus!
