//! What each instruction does to the register file, apart from memory: the
//! arithmetic and logic unit's operations, moves, flag masks and jumps.

use vstd::prelude::*;
use crate::alu::{
    add_with_carry, result_flags, rotate_left, rotate_right, shift_left, shift_right, spec_add,
    spec_rotate_left, spec_rotate_right, spec_shift_left, spec_shift_right, spec_subtract,
    subtract_with_borrow, with_result_flags, wrapped,
};
use crate::condition::evaluate;
use crate::cpu::Cpu;
use crate::flag::{flag_is_set, get_flag, Flag};
use crate::isa::{Instruction, Target};

verus! {

/// An address plus a signed offset, modulo 65536.
pub open spec fn spec_offset_address(base: u16, offset: i8) -> u16 {
    wrapped(base + offset)
}

/// An address plus a word, modulo 65536.
pub open spec fn spec_indexed_address(base: u16, index: u16) -> u16 {
    wrapped(base + index)
}

/// An address plus a signed offset, modulo 65536.
pub fn offset_address(base: u16, offset: i8) -> (address: u16)
    ensures
        address == spec_offset_address(base, offset),
{
    let sum: i32 = base as i32 + offset as i32;
    if sum < 0 {
        (sum + 0x10000) as u16
    } else if sum > 0xFFFF {
        (sum - 0x10000) as u16
    } else {
        sum as u16
    }
}

/// An address plus a word, modulo 65536.
pub fn indexed_address(base: u16, index: u16) -> (address: u16)
    ensures
        address == spec_indexed_address(base, index),
{
    let sum: u32 = base as u32 + index as u32;
    if sum > 0xFFFF {
        (sum - 0x10000) as u16
    } else {
        sum as u16
    }
}

/// Whether an instruction works on the register file alone: it neither
/// reads nor writes memory, and it cannot fail.
pub open spec fn spec_is_register_only(instruction: Instruction) -> bool {
    match instruction {
        Instruction::LoadAddressAbsolute(_)
        | Instruction::LoadAddressStackOffset(_)
        | Instruction::LoadWordAbsolute(_)
        | Instruction::LoadWordStackOffset(_)
        | Instruction::LoadAddressIndirect(_, _)
        | Instruction::LoadWordIndirect(_, _)
        | Instruction::StoreAddressAbsolute(_)
        | Instruction::StoreAddressStackOffset(_)
        | Instruction::StoreWordAbsolute(_)
        | Instruction::StoreWordStackOffset(_)
        | Instruction::StoreAddressIndirect(_, _)
        | Instruction::StoreWordIndirect(_, _)
        | Instruction::Call(_)
        | Instruction::PushRegister(_)
        | Instruction::PopRegister(_)
        | Instruction::Interrupt(_)
        | Instruction::ReturnFromInterrupt => false,
        _ => true,
    }
}

impl Cpu {
    /// The address that a branch target stands for.
    pub open spec fn spec_resolve(self, target: Target) -> u16 {
        match target {
            Target::Absolute(address) => address,
            Target::Relative(offset) => spec_offset_address(self.pc, offset),
            Target::StackOffset(offset) => spec_offset_address(self.sp, offset),
            Target::Indexed(address, reg) => spec_indexed_address(
                address,
                self.spec_register(reg),
            ),
        }
    }

    /// The register file after an instruction that works on it alone. A
    /// result goes to its register first and the flags are set after it. An
    /// instruction that touches memory leaves the register file as it is.
    pub open spec fn spec_compute(self, instruction: Instruction) -> Cpu {
        match instruction {
            Instruction::LoadImmediate(reg, value) => self.with_register(reg, value),
            Instruction::MoveRegister(dst, src) => self.with_register(
                dst,
                self.spec_register(src),
            ),
            Instruction::And(reg) => {
                let result = self.a & self.spec_register(reg);
                Cpu { a: result, flags: with_result_flags(self.flags, result), ..self }
            },
            Instruction::Or(reg) => {
                let result = self.a | self.spec_register(reg);
                Cpu { a: result, flags: with_result_flags(self.flags, result), ..self }
            },
            Instruction::Xor(reg) => {
                let result = self.a ^ self.spec_register(reg);
                Cpu { a: result, flags: with_result_flags(self.flags, result), ..self }
            },
            Instruction::Not(reg) => {
                let result = !self.spec_register(reg);
                Cpu { a: result, flags: with_result_flags(self.flags, result), ..self }
            },
            Instruction::Test(reg) => {
                let result = self.a & self.spec_register(reg);
                Cpu { flags: with_result_flags(self.flags, result), ..self }
            },
            Instruction::TestImmediate(reg, value) => {
                let result = self.spec_register(reg) & value;
                Cpu { flags: with_result_flags(self.flags, result), ..self }
            },
            Instruction::ShiftLeft(reg) => {
                let out = spec_shift_left(self.a, self.spec_register(reg), self.flags);
                Cpu { a: out.0, flags: out.1, ..self }
            },
            Instruction::ShiftRight(reg) => {
                let out = spec_shift_right(self.a, self.spec_register(reg), self.flags);
                Cpu { a: out.0, flags: out.1, ..self }
            },
            Instruction::RotateLeft(reg) => {
                let result = spec_rotate_left(self.a, self.spec_register(reg));
                Cpu { a: result, flags: with_result_flags(self.flags, result), ..self }
            },
            Instruction::RotateRight(reg) => {
                let result = spec_rotate_right(self.a, self.spec_register(reg));
                Cpu { a: result, flags: with_result_flags(self.flags, result), ..self }
            },
            Instruction::Add(reg) => {
                let out = spec_add(self.a, self.spec_register(reg), false, self.flags);
                Cpu { a: out.0, flags: out.1, ..self }
            },
            Instruction::AddWithCarry(reg) => {
                let out = spec_add(
                    self.a,
                    self.spec_register(reg),
                    flag_is_set(self.flags, Flag::Carry),
                    self.flags,
                );
                Cpu { a: out.0, flags: out.1, ..self }
            },
            Instruction::Subtract(reg) => {
                let out = spec_subtract(self.a, self.spec_register(reg), false, self.flags);
                Cpu { a: out.0, flags: out.1, ..self }
            },
            Instruction::SubtractWithBorrow(reg) => {
                let out = spec_subtract(
                    self.a,
                    self.spec_register(reg),
                    flag_is_set(self.flags, Flag::Carry),
                    self.flags,
                );
                Cpu { a: out.0, flags: out.1, ..self }
            },
            Instruction::Negate(reg) => {
                let out = spec_subtract(0, self.spec_register(reg), false, self.flags);
                Cpu { a: out.0, flags: out.1, ..self }
            },
            Instruction::Compare(reg) => {
                let out = spec_subtract(self.a, self.spec_register(reg), false, self.flags);
                Cpu { flags: out.1, ..self }
            },
            Instruction::CompareImmediate(reg, value) => {
                let out = spec_subtract(self.spec_register(reg), value, false, self.flags);
                Cpu { flags: out.1, ..self }
            },
            Instruction::Increment(reg) => {
                let out = spec_add(self.spec_register(reg), 1, false, self.flags);
                Cpu { flags: out.1, ..self.with_register(reg, out.0) }
            },
            Instruction::Decrement(reg) => {
                let out = spec_subtract(self.spec_register(reg), 1, false, self.flags);
                Cpu { flags: out.1, ..self.with_register(reg, out.0) }
            },
            Instruction::ClearFlags(mask) => Cpu { flags: self.flags & !mask, ..self },
            Instruction::SetFlags(mask) => Cpu { flags: self.flags | mask, ..self },
            Instruction::Jump(target) => Cpu { pc: self.spec_resolve(target), ..self },
            Instruction::JumpIf(condition, target) => if evaluate(condition, self.flags) {
                Cpu { pc: self.spec_resolve(target), ..self }
            } else {
                self
            },
            _ => self,
        }
    }

    /// The address that a branch target stands for: the address itself, the
    /// program counter or the stack pointer plus the offset, or the address
    /// plus a register, each modulo 65536.
    pub fn resolve(&self, target: &Target) -> (address: u16)
        ensures
            address == self.spec_resolve(*target),
    {
        match *target {
            Target::Absolute(address) => address,
            Target::Relative(offset) => offset_address(self.pc, offset),
            Target::StackOffset(offset) => offset_address(self.sp, offset),
            Target::Indexed(address, reg) => indexed_address(address, self.register(reg)),
        }
    }

    /// Carries out an instruction that works on the register file alone:
    /// immediate loads and moves, arithmetic, logic, shifts and rotates with
    /// their flags, flag masks, and jumps. An instruction that touches
    /// memory changes nothing here.
    pub fn compute(&mut self, instruction: &Instruction)
        ensures
            *final(self) == old(self).spec_compute(*instruction),
    {
        match *instruction {
            Instruction::LoadImmediate(reg, value) => {
                self.set_register(reg, value);
            },
            Instruction::MoveRegister(dst, src) => {
                let value = self.register(src);
                self.set_register(dst, value);
            },
            Instruction::And(reg) => {
                let result = self.a & self.register(reg);
                self.a = result;
                self.flags = result_flags(self.flags, result);
            },
            Instruction::Or(reg) => {
                let result = self.a | self.register(reg);
                self.a = result;
                self.flags = result_flags(self.flags, result);
            },
            Instruction::Xor(reg) => {
                let result = self.a ^ self.register(reg);
                self.a = result;
                self.flags = result_flags(self.flags, result);
            },
            Instruction::Not(reg) => {
                let result = !self.register(reg);
                self.a = result;
                self.flags = result_flags(self.flags, result);
            },
            Instruction::Test(reg) => {
                let result = self.a & self.register(reg);
                self.flags = result_flags(self.flags, result);
            },
            Instruction::TestImmediate(reg, value) => {
                let result = self.register(reg) & value;
                self.flags = result_flags(self.flags, result);
            },
            Instruction::ShiftLeft(reg) => {
                let out = shift_left(self.a, self.register(reg), self.flags);
                self.a = out.0;
                self.flags = out.1;
            },
            Instruction::ShiftRight(reg) => {
                let out = shift_right(self.a, self.register(reg), self.flags);
                self.a = out.0;
                self.flags = out.1;
            },
            Instruction::RotateLeft(reg) => {
                let result = rotate_left(self.a, self.register(reg));
                self.a = result;
                self.flags = result_flags(self.flags, result);
            },
            Instruction::RotateRight(reg) => {
                let result = rotate_right(self.a, self.register(reg));
                self.a = result;
                self.flags = result_flags(self.flags, result);
            },
            Instruction::Add(reg) => {
                let out = add_with_carry(self.a, self.register(reg), false, self.flags);
                self.a = out.0;
                self.flags = out.1;
            },
            Instruction::AddWithCarry(reg) => {
                let carry = get_flag(self.flags, Flag::Carry);
                let out = add_with_carry(self.a, self.register(reg), carry, self.flags);
                self.a = out.0;
                self.flags = out.1;
            },
            Instruction::Subtract(reg) => {
                let out = subtract_with_borrow(self.a, self.register(reg), false, self.flags);
                self.a = out.0;
                self.flags = out.1;
            },
            Instruction::SubtractWithBorrow(reg) => {
                let borrow = get_flag(self.flags, Flag::Carry);
                let out = subtract_with_borrow(self.a, self.register(reg), borrow, self.flags);
                self.a = out.0;
                self.flags = out.1;
            },
            Instruction::Negate(reg) => {
                let out = subtract_with_borrow(0, self.register(reg), false, self.flags);
                self.a = out.0;
                self.flags = out.1;
            },
            Instruction::Compare(reg) => {
                let out = subtract_with_borrow(self.a, self.register(reg), false, self.flags);
                self.flags = out.1;
            },
            Instruction::CompareImmediate(reg, value) => {
                let out = subtract_with_borrow(self.register(reg), value, false, self.flags);
                self.flags = out.1;
            },
            Instruction::Increment(reg) => {
                let out = add_with_carry(self.register(reg), 1, false, self.flags);
                self.set_register(reg, out.0);
                self.flags = out.1;
            },
            Instruction::Decrement(reg) => {
                let out = subtract_with_borrow(self.register(reg), 1, false, self.flags);
                self.set_register(reg, out.0);
                self.flags = out.1;
            },
            Instruction::ClearFlags(mask) => {
                self.flags = self.flags & !mask;
            },
            Instruction::SetFlags(mask) => {
                self.flags = self.flags | mask;
            },
            Instruction::Jump(target) => {
                self.pc = self.resolve(&target);
            },
            Instruction::JumpIf(condition, target) => {
                if condition.meets(self.flags) {
                    self.pc = self.resolve(&target);
                }
            },
            _ => {},
        }
    }
}

} // verus!
