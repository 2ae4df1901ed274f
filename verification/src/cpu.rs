//! The register file.

use vstd::prelude::*;
use crate::register::Register;

verus! {

/// The value that the stack pointer takes on reset.
pub const SP_RESET: u16 = 0x7F00;

/// The seven 16-bit cells of the register file.
#[derive(Debug, Clone, Copy, Hash, PartialEq, Eq, Structural, PartialOrd, Ord)]
pub struct Cpu {
    /// Accumulator: the data path to memory and the target of arithmetic.
    pub a: u16,
    /// Base, by convention an address.
    pub b: u16,
    /// Counter, by convention a loop count.
    pub c: u16,
    /// Data, by convention a port index.
    pub d: u16,
    /// Stack pointer.
    pub sp: u16,
    /// Program counter.
    pub pc: u16,
    /// Flags word.
    pub flags: u16,
}

impl Cpu {
    /// The register file as it is on reset, before the program counter is
    /// loaded: every cell zero, but for the stack pointer.
    pub open spec fn spec_new() -> Cpu {
        Cpu { a: 0, b: 0, c: 0, d: 0, sp: SP_RESET, pc: 0, flags: 0 }
    }

    /// The value of a register.
    pub open spec fn spec_register(self, reg: Register) -> u16 {
        match reg {
            Register::A => self.a,
            Register::B => self.b,
            Register::C => self.c,
            Register::D => self.d,
            Register::Sp => self.sp,
            Register::Pc => self.pc,
            Register::Flags => self.flags,
        }
    }

    /// The register file with one register replaced.
    pub open spec fn with_register(self, reg: Register, value: u16) -> Cpu {
        match reg {
            Register::A => Cpu { a: value, ..self },
            Register::B => Cpu { b: value, ..self },
            Register::C => Cpu { c: value, ..self },
            Register::D => Cpu { d: value, ..self },
            Register::Sp => Cpu { sp: value, ..self },
            Register::Pc => Cpu { pc: value, ..self },
            Register::Flags => Cpu { flags: value, ..self },
        }
    }

    /// The register file as it is on reset, before the program counter is
    /// loaded.
    pub fn new() -> (cpu: Cpu)
        ensures
            cpu == Cpu::spec_new(),
    {
        Cpu { a: 0, b: 0, c: 0, d: 0, sp: SP_RESET, pc: 0, flags: 0 }
    }

    /// The value of a register.
    pub fn register(&self, reg: Register) -> (value: u16)
        ensures
            value == self.spec_register(reg),
    {
        match reg {
            Register::A => self.a,
            Register::B => self.b,
            Register::C => self.c,
            Register::D => self.d,
            Register::Sp => self.sp,
            Register::Pc => self.pc,
            Register::Flags => self.flags,
        }
    }

    /// The cell of a register, for writing: what the caller leaves in it is
    /// the register's new value, and no other register changes.
    pub fn register_mut(&mut self, reg: Register) -> (cell: &mut u16)
        ensures
            *cell == old(self).spec_register(reg),
            *final(self) == old(self).with_register(reg, *final(cell)),
    {
        match reg {
            Register::A => &mut self.a,
            Register::B => &mut self.b,
            Register::C => &mut self.c,
            Register::D => &mut self.d,
            Register::Sp => &mut self.sp,
            Register::Pc => &mut self.pc,
            Register::Flags => &mut self.flags,
        }
    }

    /// Replaces the value of one register.
    pub fn set_register(&mut self, reg: Register, value: u16)
        ensures
            *final(self) == old(self).with_register(reg, value),
    {
        *self.register_mut(reg) = value;
    }
}

impl Default for Cpu {
    /// The register file as it is on reset, before the program counter is
    /// loaded.
    fn default() -> (cpu: Cpu)
        ensures
            cpu == Cpu::spec_new(),
    {
        Cpu::new()
    }
}

/// A register reads back what was last written to it, and writing one
/// register leaves every other as it was.
pub proof fn lemma_register_write_read(cpu: Cpu, reg: Register, value: u16, other: Register)
    ensures
        cpu.with_register(reg, value).spec_register(reg) == value,
        other != reg ==> cpu.with_register(reg, value).spec_register(other) == cpu.spec_register(
            other,
        ),
{
}

} // verus!
