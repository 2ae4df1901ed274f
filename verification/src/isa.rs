//! The instruction set: the structured instructions, the layout of their
//! operand bytes, the encoder, and the decoder that reads them back.
//!
//! An instruction is one opcode byte and up to four operand bytes. Words
//! are stored low byte first, offsets in two's complement, a register as
//! its code, a register pair as one byte with the destination in the high
//! nibble, a condition as its code.
//!
//! | Opcode | Instruction | Operand bytes |
//! |---|---|---|
//! | `00` | load immediate | register, word |
//! | `04` `05` `08` | load byte: absolute, at SP plus offset, indexed | word; offset; word, register |
//! | `06` `07` `0C` | load word, likewise | word; offset; word, register |
//! | `11` `12` `18` | store byte, likewise | word; offset; word, register |
//! | `15` `16` `1C` | store word, likewise | word; offset; word, register |
//! | `20` | move | register pair |
//! | `40` to `80` in steps of four | and, or, xor, shift left, shift right, add, subtract, rotate left, rotate right, add with carry, subtract with borrow, negate, not, increment, decrement, compare, test | register |
//! | `A8` `AC` | compare, test with an immediate | register, word |
//! | `C0` to `D7` | branch | see below |
//! | `E8` `EC` | push, pop | register |
//! | `F2` `F3` | interrupt, return from interrupt | byte; none |
//! | `FE` `FF` | clear flags, set flags | word |
//!
//! In a branch opcode bits 3 to 5 hold the mode, 0 for a jump, 1 for a
//! conditional jump, 2 for a call, and the low three bits the kind of
//! target: 0 absolute (word), 1 relative to the program counter (offset),
//! 2 relative to the stack pointer (offset), 4 indexed (word, register). A
//! conditional jump has the condition code as its first operand byte.

use vstd::prelude::*;
use crate::condition::{condition_of_code, ConditionCode};
use crate::memory::{high_byte, low_byte, make_word, split_word, word_of};
use crate::register::{pair_byte, pair_of_byte, register_of_code, Register};

verus! {

/// Where a branch continues.
#[derive(Debug, PartialEq, Eq, Structural, PartialOrd, Ord, Hash, Clone, Copy)]
pub enum Target {
    /// At the address.
    Absolute(u16),
    /// At the program counter plus the offset.
    Relative(i8),
    /// At the stack pointer plus the offset.
    StackOffset(i8),
    /// At the address plus the register's value.
    Indexed(u16, Register),
}

/// One instruction with its operands.
#[derive(Debug, PartialEq, Eq, Structural, PartialOrd, Ord, Hash, Clone, Copy)]
pub enum Instruction {
    /// The register receives the immediate.
    LoadImmediate(Register, u16),
    /// A receives the byte at the address, zero-extended.
    LoadAddressAbsolute(u16),
    /// A receives the byte at SP plus the offset, zero-extended.
    LoadAddressStackOffset(i8),
    /// A receives the word at the address.
    LoadWordAbsolute(u16),
    /// A receives the word at SP plus the offset.
    LoadWordStackOffset(i8),
    /// A receives the byte at the address plus the register, zero-extended.
    LoadAddressIndirect(u16, Register),
    /// A receives the word at the address plus the register.
    LoadWordIndirect(u16, Register),
    /// The low byte of A goes to the address.
    StoreAddressAbsolute(u16),
    /// The low byte of A goes to SP plus the offset.
    StoreAddressStackOffset(i8),
    /// A goes to the address.
    StoreWordAbsolute(u16),
    /// A goes to SP plus the offset.
    StoreWordStackOffset(i8),
    /// The low byte of A goes to the address plus the register.
    StoreAddressIndirect(u16, Register),
    /// A goes to the address plus the register.
    StoreWordIndirect(u16, Register),
    /// The first register receives the value of the second.
    MoveRegister(Register, Register),
    /// A becomes A and the register, bit by bit.
    And(Register),
    /// A becomes A or the register, bit by bit.
    Or(Register),
    /// A becomes A exclusive-or the register, bit by bit.
    Xor(Register),
    /// A is shifted left by the register's value modulo 16.
    ShiftLeft(Register),
    /// A is shifted right by the register's value modulo 16.
    ShiftRight(Register),
    /// A becomes A plus the register.
    Add(Register),
    /// A becomes A minus the register.
    Subtract(Register),
    /// A is rotated left by the register's value modulo 16.
    RotateLeft(Register),
    /// A is rotated right by the register's value modulo 16.
    RotateRight(Register),
    /// A becomes A plus the register plus CARRY.
    AddWithCarry(Register),
    /// A becomes A minus the register minus CARRY.
    SubtractWithBorrow(Register),
    /// A becomes zero minus the register.
    Negate(Register),
    /// A becomes the register with every bit inverted.
    Not(Register),
    /// The register goes up by one.
    Increment(Register),
    /// The register goes down by one.
    Decrement(Register),
    /// Sets the flags as `Subtract` would and keeps A.
    Compare(Register),
    /// Sets the flags as `And` would and keeps A.
    Test(Register),
    /// Sets the flags as subtracting the immediate from the register would.
    CompareImmediate(Register, u16),
    /// Sets the flags as and-ing the register with the immediate would.
    TestImmediate(Register, u16),
    /// Continues at the target.
    Jump(Target),
    /// Continues at the target if the flags meet the condition.
    JumpIf(ConditionCode, Target),
    /// Pushes the program counter and continues at the target.
    Call(Target),
    /// Pushes the register's value.
    PushRegister(Register),
    /// Pops a word into the register.
    PopRegister(Register),
    /// Pushes the program counter and the flags and continues at the vector.
    Interrupt(u8),
    /// Pops the flags and the program counter.
    ReturnFromInterrupt,
    /// Clears every flag bit that is set in the mask.
    ClearFlags(u16),
    /// Sets every flag bit that is set in the mask.
    SetFlags(u16),
}

/// Why a byte sequence is not an instruction.
#[derive(Debug, PartialEq, Eq, Structural, PartialOrd, Ord, Hash, Clone, Copy)]
pub enum InstructionError {
    /// The first byte is not the opcode of any instruction.
    InvalidOpcode(u8),
    /// The bytes end before the instruction does.
    EndOfInput,
    /// An operand byte that should name a register, or a pair of them, does
    /// not.
    InvalidRegister(u8),
    /// An operand byte that should hold a condition code holds a reserved
    /// code or a value above 15.
    InvalidCondition(u8),
}

/// Which operand bytes follow an opcode, in order.
#[derive(Debug, PartialEq, Eq, Structural, Hash, Clone, Copy)]
pub enum Layout {
    /// No operand.
    Bare,
    /// A word.
    Word,
    /// A signed offset.
    Offset,
    /// A byte.
    Byte,
    /// A register code.
    Register,
    /// A packed register pair.
    Pair,
    /// A register code, then a word.
    RegisterWord,
    /// A word, then a register code.
    WordRegister,
    /// A condition code, then a signed offset.
    ConditionOffset,
    /// A condition code, then a word.
    ConditionWord,
    /// A condition code, a word, then a register code.
    ConditionWordRegister,
}

/// The operands of one instruction. A field that the instruction's layout
/// does not name holds its default: zero, register A, condition Z.
#[derive(Debug, PartialEq, Eq, Structural, Hash, Clone, Copy)]
pub struct Operands {
    pub word: u16,
    pub offset: i8,
    pub byte: u8,
    /// The register operand; of a pair, the destination.
    pub reg: Register,
    /// The source of a register pair.
    pub src: Register,
    pub condition: ConditionCode,
}

/// The byte that holds a signed offset in two's complement.
pub open spec fn offset_byte(offset: i8) -> u8 {
    if offset < 0 {
        (offset + 256) as u8
    } else {
        offset as u8
    }
}

/// The signed offset that a byte holds in two's complement.
pub open spec fn offset_of_byte(byte: u8) -> i8 {
    if byte >= 128 {
        (byte - 256) as i8
    } else {
        byte as i8
    }
}

/// The byte that holds a signed offset in two's complement.
pub fn offset_to_byte(offset: i8) -> (byte: u8)
    ensures
        byte == offset_byte(offset),
        offset_of_byte(byte) == offset,
{
    if offset < 0 {
        (offset as i16 + 256) as u8
    } else {
        offset as u8
    }
}

/// The signed offset that a byte holds in two's complement.
pub fn offset_from_byte(byte: u8) -> (offset: i8)
    ensures
        offset == offset_of_byte(byte),
        offset_byte(offset) == byte,
{
    if byte >= 128 {
        (byte as i16 - 256) as i8
    } else {
        byte as i8
    }
}

/// The byte at a position, or `EndOfInput` if the bytes end before it.
pub open spec fn byte_at(bytes: Seq<u8>, at: int) -> Result<u8, InstructionError> {
    if 0 <= at < bytes.len() {
        Ok(bytes[at])
    } else {
        Err(InstructionError::EndOfInput)
    }
}

/// The little-endian word at a position, or `EndOfInput` if the bytes end
/// before its second byte.
pub open spec fn word_at(bytes: Seq<u8>, at: int) -> Result<u16, InstructionError> {
    if 0 <= at && at + 1 < bytes.len() {
        Ok(word_of(bytes[at], bytes[at + 1]))
    } else {
        Err(InstructionError::EndOfInput)
    }
}

/// The signed offset at a position.
pub open spec fn offset_at(bytes: Seq<u8>, at: int) -> Result<i8, InstructionError> {
    match byte_at(bytes, at) {
        Ok(byte) => Ok(offset_of_byte(byte)),
        Err(e) => Err(e),
    }
}

/// The register named at a position, or `InvalidRegister` with the byte if it
/// is no register code.
pub open spec fn register_at(bytes: Seq<u8>, at: int) -> Result<Register, InstructionError> {
    match byte_at(bytes, at) {
        Ok(byte) => match register_of_code(byte as int) {
            Some(reg) => Ok(reg),
            None => Err(InstructionError::InvalidRegister(byte)),
        },
        Err(e) => Err(e),
    }
}

/// The register pair packed at a position, or `InvalidRegister` with the byte
/// if a nibble of it is no register code.
pub open spec fn pair_at(bytes: Seq<u8>, at: int) -> Result<(Register, Register), InstructionError> {
    match byte_at(bytes, at) {
        Ok(byte) => match pair_of_byte(byte as int) {
            Some(pair) => Ok(pair),
            None => Err(InstructionError::InvalidRegister(byte)),
        },
        Err(e) => Err(e),
    }
}

/// The condition held at a position, or `InvalidCondition` with the byte if it
/// is no condition code.
pub open spec fn condition_at(bytes: Seq<u8>, at: int) -> Result<ConditionCode, InstructionError> {
    match byte_at(bytes, at) {
        Ok(byte) => match condition_of_code(byte as int) {
            Some(condition) => Ok(condition),
            None => Err(InstructionError::InvalidCondition(byte)),
        },
        Err(e) => Err(e),
    }
}

impl Operands {
    /// Operands that all hold their defaults.
    pub open spec fn spec_none() -> Operands {
        Operands {
            word: 0,
            offset: 0,
            byte: 0,
            reg: Register::A,
            src: Register::A,
            condition: ConditionCode::Z,
        }
    }

    /// Operands that all hold their defaults.
    pub fn none() -> (ops: Operands)
        ensures
            ops == Operands::spec_none(),
    {
        Operands {
            word: 0,
            offset: 0,
            byte: 0,
            reg: Register::A,
            src: Register::A,
            condition: ConditionCode::Z,
        }
    }
}

impl Layout {
    /// How many operand bytes the layout takes.
    pub open spec fn spec_width(self) -> int {
        match self {
            Layout::Bare => 0,
            Layout::Word => 2,
            Layout::Offset => 1,
            Layout::Byte => 1,
            Layout::Register => 1,
            Layout::Pair => 1,
            Layout::RegisterWord => 3,
            Layout::WordRegister => 3,
            Layout::ConditionOffset => 2,
            Layout::ConditionWord => 3,
            Layout::ConditionWordRegister => 4,
        }
    }

    /// How many operand bytes the layout takes.
    pub fn width(&self) -> (width: u8)
        ensures
            width == self.spec_width(),
            width <= 4,
    {
        match self {
            Layout::Bare => 0,
            Layout::Word => 2,
            Layout::Offset => 1,
            Layout::Byte => 1,
            Layout::Register => 1,
            Layout::Pair => 1,
            Layout::RegisterWord => 3,
            Layout::WordRegister => 3,
            Layout::ConditionOffset => 2,
            Layout::ConditionWord => 3,
            Layout::ConditionWordRegister => 4,
        }
    }
}

/// The layout of the operand bytes that follow an opcode; `None` if the byte
/// is no opcode.
pub open spec fn spec_layout(opcode: u8) -> Option<Layout> {
    if opcode == 0xF3 {
        Some(Layout::Bare)
    } else if opcode == 0x04 || opcode == 0x06 || opcode == 0x11 || opcode == 0x15 || opcode == 0xC0 || opcode == 0xD0 || opcode == 0xFE || opcode == 0xFF {
        Some(Layout::Word)
    } else if opcode == 0x05 || opcode == 0x07 || opcode == 0x12 || opcode == 0x16 || opcode == 0xC1 || opcode == 0xC2 || opcode == 0xD1 || opcode == 0xD2 {
        Some(Layout::Offset)
    } else if opcode == 0xF2 {
        Some(Layout::Byte)
    } else if opcode == 0x40 || opcode == 0x44 || opcode == 0x48 || opcode == 0x4C || opcode == 0x50 || opcode == 0x54 || opcode == 0x58 || opcode == 0x5C || opcode == 0x60 || opcode == 0x64 || opcode == 0x68 || opcode == 0x6C || opcode == 0x70 || opcode == 0x74 || opcode == 0x78 || opcode == 0x7C || opcode == 0x80 || opcode == 0xE8 || opcode == 0xEC {
        Some(Layout::Register)
    } else if opcode == 0x20 {
        Some(Layout::Pair)
    } else if opcode == 0x00 || opcode == 0xA8 || opcode == 0xAC {
        Some(Layout::RegisterWord)
    } else if opcode == 0x08 || opcode == 0x0C || opcode == 0x18 || opcode == 0x1C || opcode == 0xC4 || opcode == 0xD4 {
        Some(Layout::WordRegister)
    } else if opcode == 0xC9 || opcode == 0xCA {
        Some(Layout::ConditionOffset)
    } else if opcode == 0xC8 {
        Some(Layout::ConditionWord)
    } else if opcode == 0xCC {
        Some(Layout::ConditionWordRegister)
    } else {
        None
    }
}

/// The operands that follow the first byte of a sequence in the given
/// layout. They are read in order: the first one that is missing yields
/// `EndOfInput`, the first one that is invalid its own error.
pub open spec fn operands_at(bytes: Seq<u8>, layout: Layout) -> Result<Operands, InstructionError> {
    let none = Operands::spec_none();
    match layout {
        Layout::Bare => Ok(none),
        Layout::Word => match word_at(bytes, 1) {
            Ok(word) => Ok(Operands { word, ..none }),
            Err(e) => Err(e),
        },
        Layout::Offset => match offset_at(bytes, 1) {
            Ok(offset) => Ok(Operands { offset, ..none }),
            Err(e) => Err(e),
        },
        Layout::Byte => match byte_at(bytes, 1) {
            Ok(byte) => Ok(Operands { byte, ..none }),
            Err(e) => Err(e),
        },
        Layout::Register => match register_at(bytes, 1) {
            Ok(reg) => Ok(Operands { reg, ..none }),
            Err(e) => Err(e),
        },
        Layout::Pair => match pair_at(bytes, 1) {
            Ok(pair) => Ok(Operands { reg: pair.0, src: pair.1, ..none }),
            Err(e) => Err(e),
        },
        Layout::RegisterWord => match register_at(bytes, 1) {
            Ok(reg) => match word_at(bytes, 2) {
                Ok(word) => Ok(Operands { reg, word, ..none }),
                Err(e) => Err(e),
            },
            Err(e) => Err(e),
        },
        Layout::WordRegister => match word_at(bytes, 1) {
            Ok(word) => match register_at(bytes, 3) {
                Ok(reg) => Ok(Operands { word, reg, ..none }),
                Err(e) => Err(e),
            },
            Err(e) => Err(e),
        },
        Layout::ConditionOffset => match condition_at(bytes, 1) {
            Ok(condition) => match offset_at(bytes, 2) {
                Ok(offset) => Ok(Operands { condition, offset, ..none }),
                Err(e) => Err(e),
            },
            Err(e) => Err(e),
        },
        Layout::ConditionWord => match condition_at(bytes, 1) {
            Ok(condition) => match word_at(bytes, 2) {
                Ok(word) => Ok(Operands { condition, word, ..none }),
                Err(e) => Err(e),
            },
            Err(e) => Err(e),
        },
        Layout::ConditionWordRegister => match condition_at(bytes, 1) {
            Ok(condition) => match word_at(bytes, 2) {
                Ok(word) => match register_at(bytes, 4) {
                    Ok(reg) => Ok(Operands { condition, word, reg, ..none }),
                    Err(e) => Err(e),
                },
                Err(e) => Err(e),
            },
            Err(e) => Err(e),
        },
    }
}

/// The operand bytes that hold the given operands in the given layout:
/// words low byte first, offsets in two's complement.
pub open spec fn operand_bytes(layout: Layout, ops: Operands) -> Seq<u8> {
    match layout {
        Layout::Bare => Seq::<u8>::empty(),
        Layout::Word => seq![low_byte(ops.word), high_byte(ops.word)],
        Layout::Offset => seq![offset_byte(ops.offset)],
        Layout::Byte => seq![ops.byte],
        Layout::Register => seq![ops.reg.spec_code() as u8],
        Layout::Pair => seq![pair_byte(ops.reg, ops.src) as u8],
        Layout::RegisterWord => seq![ops.reg.spec_code() as u8, low_byte(ops.word), high_byte(ops.word)],
        Layout::WordRegister => seq![low_byte(ops.word), high_byte(ops.word), ops.reg.spec_code() as u8],
        Layout::ConditionOffset => seq![ops.condition.spec_code() as u8, offset_byte(ops.offset)],
        Layout::ConditionWord => seq![ops.condition.spec_code() as u8, low_byte(ops.word), high_byte(ops.word)],
        Layout::ConditionWordRegister => seq![ops.condition.spec_code() as u8, low_byte(ops.word), high_byte(ops.word), ops.reg.spec_code() as u8],
    }
}

/// The instruction with the given opcode and operands. Only the operands
/// that the opcode's layout names are looked at.
pub open spec fn instruction_of(opcode: u8, ops: Operands) -> Instruction {
    if opcode == 0x00 {
        Instruction::LoadImmediate(ops.reg, ops.word)
    } else if opcode == 0x04 {
        Instruction::LoadAddressAbsolute(ops.word)
    } else if opcode == 0x05 {
        Instruction::LoadAddressStackOffset(ops.offset)
    } else if opcode == 0x06 {
        Instruction::LoadWordAbsolute(ops.word)
    } else if opcode == 0x07 {
        Instruction::LoadWordStackOffset(ops.offset)
    } else if opcode == 0x08 {
        Instruction::LoadAddressIndirect(ops.word, ops.reg)
    } else if opcode == 0x0C {
        Instruction::LoadWordIndirect(ops.word, ops.reg)
    } else if opcode == 0x11 {
        Instruction::StoreAddressAbsolute(ops.word)
    } else if opcode == 0x12 {
        Instruction::StoreAddressStackOffset(ops.offset)
    } else if opcode == 0x15 {
        Instruction::StoreWordAbsolute(ops.word)
    } else if opcode == 0x16 {
        Instruction::StoreWordStackOffset(ops.offset)
    } else if opcode == 0x18 {
        Instruction::StoreAddressIndirect(ops.word, ops.reg)
    } else if opcode == 0x1C {
        Instruction::StoreWordIndirect(ops.word, ops.reg)
    } else if opcode == 0x20 {
        Instruction::MoveRegister(ops.reg, ops.src)
    } else if opcode == 0x40 {
        Instruction::And(ops.reg)
    } else if opcode == 0x44 {
        Instruction::Or(ops.reg)
    } else if opcode == 0x48 {
        Instruction::Xor(ops.reg)
    } else if opcode == 0x4C {
        Instruction::ShiftLeft(ops.reg)
    } else if opcode == 0x50 {
        Instruction::ShiftRight(ops.reg)
    } else if opcode == 0x54 {
        Instruction::Add(ops.reg)
    } else if opcode == 0x58 {
        Instruction::Subtract(ops.reg)
    } else if opcode == 0x5C {
        Instruction::RotateLeft(ops.reg)
    } else if opcode == 0x60 {
        Instruction::RotateRight(ops.reg)
    } else if opcode == 0x64 {
        Instruction::AddWithCarry(ops.reg)
    } else if opcode == 0x68 {
        Instruction::SubtractWithBorrow(ops.reg)
    } else if opcode == 0x6C {
        Instruction::Negate(ops.reg)
    } else if opcode == 0x70 {
        Instruction::Not(ops.reg)
    } else if opcode == 0x74 {
        Instruction::Increment(ops.reg)
    } else if opcode == 0x78 {
        Instruction::Decrement(ops.reg)
    } else if opcode == 0x7C {
        Instruction::Compare(ops.reg)
    } else if opcode == 0x80 {
        Instruction::Test(ops.reg)
    } else if opcode == 0xA8 {
        Instruction::CompareImmediate(ops.reg, ops.word)
    } else if opcode == 0xAC {
        Instruction::TestImmediate(ops.reg, ops.word)
    } else if opcode == 0xC0 {
        Instruction::Jump(Target::Absolute(ops.word))
    } else if opcode == 0xC1 {
        Instruction::Jump(Target::Relative(ops.offset))
    } else if opcode == 0xC2 {
        Instruction::Jump(Target::StackOffset(ops.offset))
    } else if opcode == 0xC4 {
        Instruction::Jump(Target::Indexed(ops.word, ops.reg))
    } else if opcode == 0xC8 {
        Instruction::JumpIf(ops.condition, Target::Absolute(ops.word))
    } else if opcode == 0xC9 {
        Instruction::JumpIf(ops.condition, Target::Relative(ops.offset))
    } else if opcode == 0xCA {
        Instruction::JumpIf(ops.condition, Target::StackOffset(ops.offset))
    } else if opcode == 0xCC {
        Instruction::JumpIf(ops.condition, Target::Indexed(ops.word, ops.reg))
    } else if opcode == 0xD0 {
        Instruction::Call(Target::Absolute(ops.word))
    } else if opcode == 0xD1 {
        Instruction::Call(Target::Relative(ops.offset))
    } else if opcode == 0xD2 {
        Instruction::Call(Target::StackOffset(ops.offset))
    } else if opcode == 0xD4 {
        Instruction::Call(Target::Indexed(ops.word, ops.reg))
    } else if opcode == 0xE8 {
        Instruction::PushRegister(ops.reg)
    } else if opcode == 0xEC {
        Instruction::PopRegister(ops.reg)
    } else if opcode == 0xF2 {
        Instruction::Interrupt(ops.byte)
    } else if opcode == 0xF3 {
        Instruction::ReturnFromInterrupt
    } else if opcode == 0xFE {
        Instruction::ClearFlags(ops.word)
    } else {
        Instruction::SetFlags(ops.word)
    }
}

/// The instruction that a byte sequence starts with, and how many bytes it
/// takes: the opcode, then the operands of the opcode's layout.
pub open spec fn decode(bytes: Seq<u8>) -> Result<(Instruction, nat), InstructionError> {
    if bytes.len() == 0 {
        Err(InstructionError::EndOfInput)
    } else {
        match spec_layout(bytes[0]) {
            None => Err(InstructionError::InvalidOpcode(bytes[0])),
            Some(layout) => match operands_at(bytes, layout) {
                Ok(ops) => Ok((instruction_of(bytes[0], ops), (1 + layout.spec_width()) as nat)),
                Err(e) => Err(e),
            },
        }
    }
}

impl Instruction {
    /// The opcode of the instruction.
    pub open spec fn spec_opcode(self) -> u8 {
        match self {
            Instruction::LoadImmediate(_, _) => 0x00,
            Instruction::LoadAddressAbsolute(_) => 0x04,
            Instruction::LoadAddressStackOffset(_) => 0x05,
            Instruction::LoadWordAbsolute(_) => 0x06,
            Instruction::LoadWordStackOffset(_) => 0x07,
            Instruction::LoadAddressIndirect(_, _) => 0x08,
            Instruction::LoadWordIndirect(_, _) => 0x0C,
            Instruction::StoreAddressAbsolute(_) => 0x11,
            Instruction::StoreAddressStackOffset(_) => 0x12,
            Instruction::StoreWordAbsolute(_) => 0x15,
            Instruction::StoreWordStackOffset(_) => 0x16,
            Instruction::StoreAddressIndirect(_, _) => 0x18,
            Instruction::StoreWordIndirect(_, _) => 0x1C,
            Instruction::MoveRegister(_, _) => 0x20,
            Instruction::And(_) => 0x40,
            Instruction::Or(_) => 0x44,
            Instruction::Xor(_) => 0x48,
            Instruction::ShiftLeft(_) => 0x4C,
            Instruction::ShiftRight(_) => 0x50,
            Instruction::Add(_) => 0x54,
            Instruction::Subtract(_) => 0x58,
            Instruction::RotateLeft(_) => 0x5C,
            Instruction::RotateRight(_) => 0x60,
            Instruction::AddWithCarry(_) => 0x64,
            Instruction::SubtractWithBorrow(_) => 0x68,
            Instruction::Negate(_) => 0x6C,
            Instruction::Not(_) => 0x70,
            Instruction::Increment(_) => 0x74,
            Instruction::Decrement(_) => 0x78,
            Instruction::Compare(_) => 0x7C,
            Instruction::Test(_) => 0x80,
            Instruction::CompareImmediate(_, _) => 0xA8,
            Instruction::TestImmediate(_, _) => 0xAC,
            Instruction::Jump(Target::Absolute(_)) => 0xC0,
            Instruction::Jump(Target::Relative(_)) => 0xC1,
            Instruction::Jump(Target::StackOffset(_)) => 0xC2,
            Instruction::Jump(Target::Indexed(_, _)) => 0xC4,
            Instruction::JumpIf(_, Target::Absolute(_)) => 0xC8,
            Instruction::JumpIf(_, Target::Relative(_)) => 0xC9,
            Instruction::JumpIf(_, Target::StackOffset(_)) => 0xCA,
            Instruction::JumpIf(_, Target::Indexed(_, _)) => 0xCC,
            Instruction::Call(Target::Absolute(_)) => 0xD0,
            Instruction::Call(Target::Relative(_)) => 0xD1,
            Instruction::Call(Target::StackOffset(_)) => 0xD2,
            Instruction::Call(Target::Indexed(_, _)) => 0xD4,
            Instruction::PushRegister(_) => 0xE8,
            Instruction::PopRegister(_) => 0xEC,
            Instruction::Interrupt(_) => 0xF2,
            Instruction::ReturnFromInterrupt => 0xF3,
            Instruction::ClearFlags(_) => 0xFE,
            Instruction::SetFlags(_) => 0xFF,
        }
    }

    /// The operands of the instruction.
    pub open spec fn spec_operands(self) -> Operands {
        match self {
            Instruction::LoadImmediate(reg, word) => Operands { word: word, offset: 0, byte: 0, reg: reg, src: Register::A, condition: ConditionCode::Z },
            Instruction::LoadAddressAbsolute(word) => Operands { word: word, offset: 0, byte: 0, reg: Register::A, src: Register::A, condition: ConditionCode::Z },
            Instruction::LoadAddressStackOffset(offset) => Operands { word: 0, offset: offset, byte: 0, reg: Register::A, src: Register::A, condition: ConditionCode::Z },
            Instruction::LoadWordAbsolute(word) => Operands { word: word, offset: 0, byte: 0, reg: Register::A, src: Register::A, condition: ConditionCode::Z },
            Instruction::LoadWordStackOffset(offset) => Operands { word: 0, offset: offset, byte: 0, reg: Register::A, src: Register::A, condition: ConditionCode::Z },
            Instruction::LoadAddressIndirect(word, reg) => Operands { word: word, offset: 0, byte: 0, reg: reg, src: Register::A, condition: ConditionCode::Z },
            Instruction::LoadWordIndirect(word, reg) => Operands { word: word, offset: 0, byte: 0, reg: reg, src: Register::A, condition: ConditionCode::Z },
            Instruction::StoreAddressAbsolute(word) => Operands { word: word, offset: 0, byte: 0, reg: Register::A, src: Register::A, condition: ConditionCode::Z },
            Instruction::StoreAddressStackOffset(offset) => Operands { word: 0, offset: offset, byte: 0, reg: Register::A, src: Register::A, condition: ConditionCode::Z },
            Instruction::StoreWordAbsolute(word) => Operands { word: word, offset: 0, byte: 0, reg: Register::A, src: Register::A, condition: ConditionCode::Z },
            Instruction::StoreWordStackOffset(offset) => Operands { word: 0, offset: offset, byte: 0, reg: Register::A, src: Register::A, condition: ConditionCode::Z },
            Instruction::StoreAddressIndirect(word, reg) => Operands { word: word, offset: 0, byte: 0, reg: reg, src: Register::A, condition: ConditionCode::Z },
            Instruction::StoreWordIndirect(word, reg) => Operands { word: word, offset: 0, byte: 0, reg: reg, src: Register::A, condition: ConditionCode::Z },
            Instruction::MoveRegister(reg, src) => Operands { word: 0, offset: 0, byte: 0, reg: reg, src: src, condition: ConditionCode::Z },
            Instruction::And(reg) => Operands { word: 0, offset: 0, byte: 0, reg: reg, src: Register::A, condition: ConditionCode::Z },
            Instruction::Or(reg) => Operands { word: 0, offset: 0, byte: 0, reg: reg, src: Register::A, condition: ConditionCode::Z },
            Instruction::Xor(reg) => Operands { word: 0, offset: 0, byte: 0, reg: reg, src: Register::A, condition: ConditionCode::Z },
            Instruction::ShiftLeft(reg) => Operands { word: 0, offset: 0, byte: 0, reg: reg, src: Register::A, condition: ConditionCode::Z },
            Instruction::ShiftRight(reg) => Operands { word: 0, offset: 0, byte: 0, reg: reg, src: Register::A, condition: ConditionCode::Z },
            Instruction::Add(reg) => Operands { word: 0, offset: 0, byte: 0, reg: reg, src: Register::A, condition: ConditionCode::Z },
            Instruction::Subtract(reg) => Operands { word: 0, offset: 0, byte: 0, reg: reg, src: Register::A, condition: ConditionCode::Z },
            Instruction::RotateLeft(reg) => Operands { word: 0, offset: 0, byte: 0, reg: reg, src: Register::A, condition: ConditionCode::Z },
            Instruction::RotateRight(reg) => Operands { word: 0, offset: 0, byte: 0, reg: reg, src: Register::A, condition: ConditionCode::Z },
            Instruction::AddWithCarry(reg) => Operands { word: 0, offset: 0, byte: 0, reg: reg, src: Register::A, condition: ConditionCode::Z },
            Instruction::SubtractWithBorrow(reg) => Operands { word: 0, offset: 0, byte: 0, reg: reg, src: Register::A, condition: ConditionCode::Z },
            Instruction::Negate(reg) => Operands { word: 0, offset: 0, byte: 0, reg: reg, src: Register::A, condition: ConditionCode::Z },
            Instruction::Not(reg) => Operands { word: 0, offset: 0, byte: 0, reg: reg, src: Register::A, condition: ConditionCode::Z },
            Instruction::Increment(reg) => Operands { word: 0, offset: 0, byte: 0, reg: reg, src: Register::A, condition: ConditionCode::Z },
            Instruction::Decrement(reg) => Operands { word: 0, offset: 0, byte: 0, reg: reg, src: Register::A, condition: ConditionCode::Z },
            Instruction::Compare(reg) => Operands { word: 0, offset: 0, byte: 0, reg: reg, src: Register::A, condition: ConditionCode::Z },
            Instruction::Test(reg) => Operands { word: 0, offset: 0, byte: 0, reg: reg, src: Register::A, condition: ConditionCode::Z },
            Instruction::CompareImmediate(reg, word) => Operands { word: word, offset: 0, byte: 0, reg: reg, src: Register::A, condition: ConditionCode::Z },
            Instruction::TestImmediate(reg, word) => Operands { word: word, offset: 0, byte: 0, reg: reg, src: Register::A, condition: ConditionCode::Z },
            Instruction::Jump(Target::Absolute(word)) => Operands { word: word, offset: 0, byte: 0, reg: Register::A, src: Register::A, condition: ConditionCode::Z },
            Instruction::Jump(Target::Relative(offset)) => Operands { word: 0, offset: offset, byte: 0, reg: Register::A, src: Register::A, condition: ConditionCode::Z },
            Instruction::Jump(Target::StackOffset(offset)) => Operands { word: 0, offset: offset, byte: 0, reg: Register::A, src: Register::A, condition: ConditionCode::Z },
            Instruction::Jump(Target::Indexed(word, reg)) => Operands { word: word, offset: 0, byte: 0, reg: reg, src: Register::A, condition: ConditionCode::Z },
            Instruction::JumpIf(condition, Target::Absolute(word)) => Operands { word: word, offset: 0, byte: 0, reg: Register::A, src: Register::A, condition: condition },
            Instruction::JumpIf(condition, Target::Relative(offset)) => Operands { word: 0, offset: offset, byte: 0, reg: Register::A, src: Register::A, condition: condition },
            Instruction::JumpIf(condition, Target::StackOffset(offset)) => Operands { word: 0, offset: offset, byte: 0, reg: Register::A, src: Register::A, condition: condition },
            Instruction::JumpIf(condition, Target::Indexed(word, reg)) => Operands { word: word, offset: 0, byte: 0, reg: reg, src: Register::A, condition: condition },
            Instruction::Call(Target::Absolute(word)) => Operands { word: word, offset: 0, byte: 0, reg: Register::A, src: Register::A, condition: ConditionCode::Z },
            Instruction::Call(Target::Relative(offset)) => Operands { word: 0, offset: offset, byte: 0, reg: Register::A, src: Register::A, condition: ConditionCode::Z },
            Instruction::Call(Target::StackOffset(offset)) => Operands { word: 0, offset: offset, byte: 0, reg: Register::A, src: Register::A, condition: ConditionCode::Z },
            Instruction::Call(Target::Indexed(word, reg)) => Operands { word: word, offset: 0, byte: 0, reg: reg, src: Register::A, condition: ConditionCode::Z },
            Instruction::PushRegister(reg) => Operands { word: 0, offset: 0, byte: 0, reg: reg, src: Register::A, condition: ConditionCode::Z },
            Instruction::PopRegister(reg) => Operands { word: 0, offset: 0, byte: 0, reg: reg, src: Register::A, condition: ConditionCode::Z },
            Instruction::Interrupt(byte) => Operands { word: 0, offset: 0, byte: byte, reg: Register::A, src: Register::A, condition: ConditionCode::Z },
            Instruction::ReturnFromInterrupt => Operands { word: 0, offset: 0, byte: 0, reg: Register::A, src: Register::A, condition: ConditionCode::Z },
            Instruction::ClearFlags(word) => Operands { word: word, offset: 0, byte: 0, reg: Register::A, src: Register::A, condition: ConditionCode::Z },
            Instruction::SetFlags(word) => Operands { word: word, offset: 0, byte: 0, reg: Register::A, src: Register::A, condition: ConditionCode::Z },
        }
    }

    /// The layout of the instruction's operand bytes.
    pub open spec fn spec_instruction_layout(self) -> Layout {
        match self {
            Instruction::LoadImmediate(_, _) => Layout::RegisterWord,
            Instruction::LoadAddressAbsolute(_) => Layout::Word,
            Instruction::LoadAddressStackOffset(_) => Layout::Offset,
            Instruction::LoadWordAbsolute(_) => Layout::Word,
            Instruction::LoadWordStackOffset(_) => Layout::Offset,
            Instruction::LoadAddressIndirect(_, _) => Layout::WordRegister,
            Instruction::LoadWordIndirect(_, _) => Layout::WordRegister,
            Instruction::StoreAddressAbsolute(_) => Layout::Word,
            Instruction::StoreAddressStackOffset(_) => Layout::Offset,
            Instruction::StoreWordAbsolute(_) => Layout::Word,
            Instruction::StoreWordStackOffset(_) => Layout::Offset,
            Instruction::StoreAddressIndirect(_, _) => Layout::WordRegister,
            Instruction::StoreWordIndirect(_, _) => Layout::WordRegister,
            Instruction::MoveRegister(_, _) => Layout::Pair,
            Instruction::And(_) => Layout::Register,
            Instruction::Or(_) => Layout::Register,
            Instruction::Xor(_) => Layout::Register,
            Instruction::ShiftLeft(_) => Layout::Register,
            Instruction::ShiftRight(_) => Layout::Register,
            Instruction::Add(_) => Layout::Register,
            Instruction::Subtract(_) => Layout::Register,
            Instruction::RotateLeft(_) => Layout::Register,
            Instruction::RotateRight(_) => Layout::Register,
            Instruction::AddWithCarry(_) => Layout::Register,
            Instruction::SubtractWithBorrow(_) => Layout::Register,
            Instruction::Negate(_) => Layout::Register,
            Instruction::Not(_) => Layout::Register,
            Instruction::Increment(_) => Layout::Register,
            Instruction::Decrement(_) => Layout::Register,
            Instruction::Compare(_) => Layout::Register,
            Instruction::Test(_) => Layout::Register,
            Instruction::CompareImmediate(_, _) => Layout::RegisterWord,
            Instruction::TestImmediate(_, _) => Layout::RegisterWord,
            Instruction::Jump(Target::Absolute(_)) => Layout::Word,
            Instruction::Jump(Target::Relative(_)) => Layout::Offset,
            Instruction::Jump(Target::StackOffset(_)) => Layout::Offset,
            Instruction::Jump(Target::Indexed(_, _)) => Layout::WordRegister,
            Instruction::JumpIf(_, Target::Absolute(_)) => Layout::ConditionWord,
            Instruction::JumpIf(_, Target::Relative(_)) => Layout::ConditionOffset,
            Instruction::JumpIf(_, Target::StackOffset(_)) => Layout::ConditionOffset,
            Instruction::JumpIf(_, Target::Indexed(_, _)) => Layout::ConditionWordRegister,
            Instruction::Call(Target::Absolute(_)) => Layout::Word,
            Instruction::Call(Target::Relative(_)) => Layout::Offset,
            Instruction::Call(Target::StackOffset(_)) => Layout::Offset,
            Instruction::Call(Target::Indexed(_, _)) => Layout::WordRegister,
            Instruction::PushRegister(_) => Layout::Register,
            Instruction::PopRegister(_) => Layout::Register,
            Instruction::Interrupt(_) => Layout::Byte,
            Instruction::ReturnFromInterrupt => Layout::Bare,
            Instruction::ClearFlags(_) => Layout::Word,
            Instruction::SetFlags(_) => Layout::Word,
        }
    }

    /// The encoded form of the instruction: the opcode, then the operand
    /// bytes in the instruction's layout.
    pub open spec fn spec_bytes(self) -> Seq<u8> {
        seq![self.spec_opcode()] + operand_bytes(
            self.spec_instruction_layout(),
            self.spec_operands(),
        )
    }
}

/// The layout of the operand bytes that follow an opcode; `None` if the byte
/// is no opcode.
pub fn layout_of(opcode: u8) -> (layout: Option<Layout>)
    ensures
        layout == spec_layout(opcode),
{
    if opcode == 0xF3 {
        Some(Layout::Bare)
    } else if opcode == 0x04 || opcode == 0x06 || opcode == 0x11 || opcode == 0x15 || opcode == 0xC0 || opcode == 0xD0 || opcode == 0xFE || opcode == 0xFF {
        Some(Layout::Word)
    } else if opcode == 0x05 || opcode == 0x07 || opcode == 0x12 || opcode == 0x16 || opcode == 0xC1 || opcode == 0xC2 || opcode == 0xD1 || opcode == 0xD2 {
        Some(Layout::Offset)
    } else if opcode == 0xF2 {
        Some(Layout::Byte)
    } else if opcode == 0x40 || opcode == 0x44 || opcode == 0x48 || opcode == 0x4C || opcode == 0x50 || opcode == 0x54 || opcode == 0x58 || opcode == 0x5C || opcode == 0x60 || opcode == 0x64 || opcode == 0x68 || opcode == 0x6C || opcode == 0x70 || opcode == 0x74 || opcode == 0x78 || opcode == 0x7C || opcode == 0x80 || opcode == 0xE8 || opcode == 0xEC {
        Some(Layout::Register)
    } else if opcode == 0x20 {
        Some(Layout::Pair)
    } else if opcode == 0x00 || opcode == 0xA8 || opcode == 0xAC {
        Some(Layout::RegisterWord)
    } else if opcode == 0x08 || opcode == 0x0C || opcode == 0x18 || opcode == 0x1C || opcode == 0xC4 || opcode == 0xD4 {
        Some(Layout::WordRegister)
    } else if opcode == 0xC9 || opcode == 0xCA {
        Some(Layout::ConditionOffset)
    } else if opcode == 0xC8 {
        Some(Layout::ConditionWord)
    } else if opcode == 0xCC {
        Some(Layout::ConditionWordRegister)
    } else {
        None
    }
}

/// How many operand bytes follow an opcode; `None` if the byte is no opcode.
pub fn operand_length(opcode: u8) -> (length: Option<u8>)
    ensures
        match spec_layout(opcode) {
            Some(layout) => length == Some(layout.spec_width() as u8),
            None => length is None,
        },
{
    match layout_of(opcode) {
        Some(layout) => Some(layout.width()),
        None => None,
    }
}

/// Appends a word to a byte vector, low byte first.
fn push_word(bytes: &mut Vec<u8>, value: u16)
    ensures
        final(bytes)@ == old(bytes)@ + seq![low_byte(value), high_byte(value)],
{
    let (low, high) = split_word(value);
    bytes.push(low);
    bytes.push(high);
    assert(final(bytes)@ =~= old(bytes)@ + seq![low_byte(value), high_byte(value)]);
}

/// Appends to a byte vector the operand bytes that hold the given operands
/// in the given layout.
fn push_operands(bytes: &mut Vec<u8>, layout: Layout, ops: &Operands)
    ensures
        final(bytes)@ == old(bytes)@ + operand_bytes(layout, *ops),
{
    match layout {
        Layout::Bare => {
            assert(final(bytes)@ =~= old(bytes)@ + operand_bytes(layout, *ops));
        },
        Layout::Word => {
            push_word(bytes, ops.word);
            assert(final(bytes)@ =~= old(bytes)@ + operand_bytes(layout, *ops));
        },
        Layout::Offset => {
            bytes.push(offset_to_byte(ops.offset));
            assert(final(bytes)@ =~= old(bytes)@ + operand_bytes(layout, *ops));
        },
        Layout::Byte => {
            bytes.push(ops.byte);
            assert(final(bytes)@ =~= old(bytes)@ + operand_bytes(layout, *ops));
        },
        Layout::Register => {
            bytes.push(ops.reg.code());
            assert(final(bytes)@ =~= old(bytes)@ + operand_bytes(layout, *ops));
        },
        Layout::Pair => {
            bytes.push(Register::pair_into(ops.reg, ops.src));
            assert(final(bytes)@ =~= old(bytes)@ + operand_bytes(layout, *ops));
        },
        Layout::RegisterWord => {
            bytes.push(ops.reg.code());
            push_word(bytes, ops.word);
            assert(final(bytes)@ =~= old(bytes)@ + operand_bytes(layout, *ops));
        },
        Layout::WordRegister => {
            push_word(bytes, ops.word);
            bytes.push(ops.reg.code());
            assert(final(bytes)@ =~= old(bytes)@ + operand_bytes(layout, *ops));
        },
        Layout::ConditionOffset => {
            bytes.push(ops.condition.code());
            bytes.push(offset_to_byte(ops.offset));
            assert(final(bytes)@ =~= old(bytes)@ + operand_bytes(layout, *ops));
        },
        Layout::ConditionWord => {
            bytes.push(ops.condition.code());
            push_word(bytes, ops.word);
            assert(final(bytes)@ =~= old(bytes)@ + operand_bytes(layout, *ops));
        },
        Layout::ConditionWordRegister => {
            bytes.push(ops.condition.code());
            push_word(bytes, ops.word);
            bytes.push(ops.reg.code());
            assert(final(bytes)@ =~= old(bytes)@ + operand_bytes(layout, *ops));
        },
    }
}

/// Reads the byte at position `count` and moves `count` past it;
/// `EndOfInput` if the bytes end there.
fn next_byte(bytes: &[u8], count: &mut u32) -> (res: Result<u8, InstructionError>)
    requires
        *old(count) < 100,
    ensures
        res == byte_at(bytes@, *old(count) as int),
        *final(count) == if res is Ok {
            *old(count) + 1
        } else {
            *old(count) as int
        },
{
    if (*count as usize) < bytes.len() {
        let value = bytes[*count as usize];
        *count = *count + 1;
        Ok(value)
    } else {
        Err(InstructionError::EndOfInput)
    }
}

/// Reads the little-endian word at position `count` and moves `count` past
/// it; `EndOfInput` if the bytes end before its second byte.
fn next_word(bytes: &[u8], count: &mut u32) -> (res: Result<u16, InstructionError>)
    requires
        *old(count) < 99,
    ensures
        res == word_at(bytes@, *old(count) as int),
        res is Ok ==> *final(count) == *old(count) + 2,
{
    let low = next_byte(bytes, count)?;
    let high = next_byte(bytes, count)?;
    Ok(make_word(low, high))
}

/// Reads the signed offset at position `count` and moves `count` past it.
fn next_offset(bytes: &[u8], count: &mut u32) -> (res: Result<i8, InstructionError>)
    requires
        *old(count) < 100,
    ensures
        res == offset_at(bytes@, *old(count) as int),
        res is Ok ==> *final(count) == *old(count) + 1,
{
    let byte = next_byte(bytes, count)?;
    Ok(offset_from_byte(byte))
}

/// Reads the register named at position `count` and moves `count` past it.
fn next_register(bytes: &[u8], count: &mut u32) -> (res: Result<Register, InstructionError>)
    requires
        *old(count) < 100,
    ensures
        res == register_at(bytes@, *old(count) as int),
        res is Ok ==> *final(count) == *old(count) + 1,
{
    let byte = next_byte(bytes, count)?;
    match Register::try_from_code(byte) {
        Ok(reg) => Ok(reg),
        Err(_) => Err(InstructionError::InvalidRegister(byte)),
    }
}

/// Reads the register pair packed at position `count` and moves `count` past
/// it.
fn next_pair(bytes: &[u8], count: &mut u32) -> (res: Result<(Register, Register), InstructionError>)
    requires
        *old(count) < 100,
    ensures
        res == pair_at(bytes@, *old(count) as int),
        res is Ok ==> *final(count) == *old(count) + 1,
{
    let byte = next_byte(bytes, count)?;
    match Register::pair_from(&byte) {
        Ok(pair) => Ok(pair),
        Err(_) => Err(InstructionError::InvalidRegister(byte)),
    }
}

/// Reads the condition held at position `count` and moves `count` past it.
fn next_condition(bytes: &[u8], count: &mut u32) -> (res: Result<ConditionCode, InstructionError>)
    requires
        *old(count) < 100,
    ensures
        res == condition_at(bytes@, *old(count) as int),
        res is Ok ==> *final(count) == *old(count) + 1,
{
    let byte = next_byte(bytes, count)?;
    match ConditionCode::try_from_code(byte) {
        Ok(condition) => Ok(condition),
        Err(_) => Err(InstructionError::InvalidCondition(byte)),
    }
}

/// Reads the operands that follow the first byte in the given layout and
/// sets `count` to the number of bytes taken, the first byte included.
fn read_operands(bytes: &[u8], layout: Layout, count: &mut u32) -> (res: Result<
    Operands,
    InstructionError,
>)
    requires
        *old(count) == 1,
        bytes@.len() >= 1,
    ensures
        res == operands_at(bytes@, layout),
        res is Ok ==> *final(count) == 1 + layout.spec_width() && *final(count) <= bytes@.len(),
{
    let mut ops = Operands::none();
    match layout {
        Layout::Bare => {
        },
        Layout::Word => {
            ops.word = next_word(bytes, count)?;
        },
        Layout::Offset => {
            ops.offset = next_offset(bytes, count)?;
        },
        Layout::Byte => {
            ops.byte = next_byte(bytes, count)?;
        },
        Layout::Register => {
            ops.reg = next_register(bytes, count)?;
        },
        Layout::Pair => {
            let pair = next_pair(bytes, count)?;
            ops.reg = pair.0;
            ops.src = pair.1;
        },
        Layout::RegisterWord => {
            ops.reg = next_register(bytes, count)?;
            ops.word = next_word(bytes, count)?;
        },
        Layout::WordRegister => {
            ops.word = next_word(bytes, count)?;
            ops.reg = next_register(bytes, count)?;
        },
        Layout::ConditionOffset => {
            ops.condition = next_condition(bytes, count)?;
            ops.offset = next_offset(bytes, count)?;
        },
        Layout::ConditionWord => {
            ops.condition = next_condition(bytes, count)?;
            ops.word = next_word(bytes, count)?;
        },
        Layout::ConditionWordRegister => {
            ops.condition = next_condition(bytes, count)?;
            ops.word = next_word(bytes, count)?;
            ops.reg = next_register(bytes, count)?;
        },
    }
    Ok(ops)
}

impl Instruction {
    /// The opcode of the instruction.
    pub fn opcode(&self) -> (opcode: u8)
        ensures
            opcode == self.spec_opcode(),
            spec_layout(opcode) == Some(self.spec_instruction_layout()),
    {
        match self {
            Instruction::LoadImmediate(_, _) => 0x00,
            Instruction::LoadAddressAbsolute(_) => 0x04,
            Instruction::LoadAddressStackOffset(_) => 0x05,
            Instruction::LoadWordAbsolute(_) => 0x06,
            Instruction::LoadWordStackOffset(_) => 0x07,
            Instruction::LoadAddressIndirect(_, _) => 0x08,
            Instruction::LoadWordIndirect(_, _) => 0x0C,
            Instruction::StoreAddressAbsolute(_) => 0x11,
            Instruction::StoreAddressStackOffset(_) => 0x12,
            Instruction::StoreWordAbsolute(_) => 0x15,
            Instruction::StoreWordStackOffset(_) => 0x16,
            Instruction::StoreAddressIndirect(_, _) => 0x18,
            Instruction::StoreWordIndirect(_, _) => 0x1C,
            Instruction::MoveRegister(_, _) => 0x20,
            Instruction::And(_) => 0x40,
            Instruction::Or(_) => 0x44,
            Instruction::Xor(_) => 0x48,
            Instruction::ShiftLeft(_) => 0x4C,
            Instruction::ShiftRight(_) => 0x50,
            Instruction::Add(_) => 0x54,
            Instruction::Subtract(_) => 0x58,
            Instruction::RotateLeft(_) => 0x5C,
            Instruction::RotateRight(_) => 0x60,
            Instruction::AddWithCarry(_) => 0x64,
            Instruction::SubtractWithBorrow(_) => 0x68,
            Instruction::Negate(_) => 0x6C,
            Instruction::Not(_) => 0x70,
            Instruction::Increment(_) => 0x74,
            Instruction::Decrement(_) => 0x78,
            Instruction::Compare(_) => 0x7C,
            Instruction::Test(_) => 0x80,
            Instruction::CompareImmediate(_, _) => 0xA8,
            Instruction::TestImmediate(_, _) => 0xAC,
            Instruction::Jump(Target::Absolute(_)) => 0xC0,
            Instruction::Jump(Target::Relative(_)) => 0xC1,
            Instruction::Jump(Target::StackOffset(_)) => 0xC2,
            Instruction::Jump(Target::Indexed(_, _)) => 0xC4,
            Instruction::JumpIf(_, Target::Absolute(_)) => 0xC8,
            Instruction::JumpIf(_, Target::Relative(_)) => 0xC9,
            Instruction::JumpIf(_, Target::StackOffset(_)) => 0xCA,
            Instruction::JumpIf(_, Target::Indexed(_, _)) => 0xCC,
            Instruction::Call(Target::Absolute(_)) => 0xD0,
            Instruction::Call(Target::Relative(_)) => 0xD1,
            Instruction::Call(Target::StackOffset(_)) => 0xD2,
            Instruction::Call(Target::Indexed(_, _)) => 0xD4,
            Instruction::PushRegister(_) => 0xE8,
            Instruction::PopRegister(_) => 0xEC,
            Instruction::Interrupt(_) => 0xF2,
            Instruction::ReturnFromInterrupt => 0xF3,
            Instruction::ClearFlags(_) => 0xFE,
            Instruction::SetFlags(_) => 0xFF,
        }
    }

    /// The operands of the instruction.
    pub fn operands(&self) -> (ops: Operands)
        ensures
            ops == self.spec_operands(),
    {
        match *self {
            Instruction::LoadImmediate(reg, word) => Operands { word: word, offset: 0, byte: 0, reg: reg, src: Register::A, condition: ConditionCode::Z },
            Instruction::LoadAddressAbsolute(word) => Operands { word: word, offset: 0, byte: 0, reg: Register::A, src: Register::A, condition: ConditionCode::Z },
            Instruction::LoadAddressStackOffset(offset) => Operands { word: 0, offset: offset, byte: 0, reg: Register::A, src: Register::A, condition: ConditionCode::Z },
            Instruction::LoadWordAbsolute(word) => Operands { word: word, offset: 0, byte: 0, reg: Register::A, src: Register::A, condition: ConditionCode::Z },
            Instruction::LoadWordStackOffset(offset) => Operands { word: 0, offset: offset, byte: 0, reg: Register::A, src: Register::A, condition: ConditionCode::Z },
            Instruction::LoadAddressIndirect(word, reg) => Operands { word: word, offset: 0, byte: 0, reg: reg, src: Register::A, condition: ConditionCode::Z },
            Instruction::LoadWordIndirect(word, reg) => Operands { word: word, offset: 0, byte: 0, reg: reg, src: Register::A, condition: ConditionCode::Z },
            Instruction::StoreAddressAbsolute(word) => Operands { word: word, offset: 0, byte: 0, reg: Register::A, src: Register::A, condition: ConditionCode::Z },
            Instruction::StoreAddressStackOffset(offset) => Operands { word: 0, offset: offset, byte: 0, reg: Register::A, src: Register::A, condition: ConditionCode::Z },
            Instruction::StoreWordAbsolute(word) => Operands { word: word, offset: 0, byte: 0, reg: Register::A, src: Register::A, condition: ConditionCode::Z },
            Instruction::StoreWordStackOffset(offset) => Operands { word: 0, offset: offset, byte: 0, reg: Register::A, src: Register::A, condition: ConditionCode::Z },
            Instruction::StoreAddressIndirect(word, reg) => Operands { word: word, offset: 0, byte: 0, reg: reg, src: Register::A, condition: ConditionCode::Z },
            Instruction::StoreWordIndirect(word, reg) => Operands { word: word, offset: 0, byte: 0, reg: reg, src: Register::A, condition: ConditionCode::Z },
            Instruction::MoveRegister(reg, src) => Operands { word: 0, offset: 0, byte: 0, reg: reg, src: src, condition: ConditionCode::Z },
            Instruction::And(reg) => Operands { word: 0, offset: 0, byte: 0, reg: reg, src: Register::A, condition: ConditionCode::Z },
            Instruction::Or(reg) => Operands { word: 0, offset: 0, byte: 0, reg: reg, src: Register::A, condition: ConditionCode::Z },
            Instruction::Xor(reg) => Operands { word: 0, offset: 0, byte: 0, reg: reg, src: Register::A, condition: ConditionCode::Z },
            Instruction::ShiftLeft(reg) => Operands { word: 0, offset: 0, byte: 0, reg: reg, src: Register::A, condition: ConditionCode::Z },
            Instruction::ShiftRight(reg) => Operands { word: 0, offset: 0, byte: 0, reg: reg, src: Register::A, condition: ConditionCode::Z },
            Instruction::Add(reg) => Operands { word: 0, offset: 0, byte: 0, reg: reg, src: Register::A, condition: ConditionCode::Z },
            Instruction::Subtract(reg) => Operands { word: 0, offset: 0, byte: 0, reg: reg, src: Register::A, condition: ConditionCode::Z },
            Instruction::RotateLeft(reg) => Operands { word: 0, offset: 0, byte: 0, reg: reg, src: Register::A, condition: ConditionCode::Z },
            Instruction::RotateRight(reg) => Operands { word: 0, offset: 0, byte: 0, reg: reg, src: Register::A, condition: ConditionCode::Z },
            Instruction::AddWithCarry(reg) => Operands { word: 0, offset: 0, byte: 0, reg: reg, src: Register::A, condition: ConditionCode::Z },
            Instruction::SubtractWithBorrow(reg) => Operands { word: 0, offset: 0, byte: 0, reg: reg, src: Register::A, condition: ConditionCode::Z },
            Instruction::Negate(reg) => Operands { word: 0, offset: 0, byte: 0, reg: reg, src: Register::A, condition: ConditionCode::Z },
            Instruction::Not(reg) => Operands { word: 0, offset: 0, byte: 0, reg: reg, src: Register::A, condition: ConditionCode::Z },
            Instruction::Increment(reg) => Operands { word: 0, offset: 0, byte: 0, reg: reg, src: Register::A, condition: ConditionCode::Z },
            Instruction::Decrement(reg) => Operands { word: 0, offset: 0, byte: 0, reg: reg, src: Register::A, condition: ConditionCode::Z },
            Instruction::Compare(reg) => Operands { word: 0, offset: 0, byte: 0, reg: reg, src: Register::A, condition: ConditionCode::Z },
            Instruction::Test(reg) => Operands { word: 0, offset: 0, byte: 0, reg: reg, src: Register::A, condition: ConditionCode::Z },
            Instruction::CompareImmediate(reg, word) => Operands { word: word, offset: 0, byte: 0, reg: reg, src: Register::A, condition: ConditionCode::Z },
            Instruction::TestImmediate(reg, word) => Operands { word: word, offset: 0, byte: 0, reg: reg, src: Register::A, condition: ConditionCode::Z },
            Instruction::Jump(Target::Absolute(word)) => Operands { word: word, offset: 0, byte: 0, reg: Register::A, src: Register::A, condition: ConditionCode::Z },
            Instruction::Jump(Target::Relative(offset)) => Operands { word: 0, offset: offset, byte: 0, reg: Register::A, src: Register::A, condition: ConditionCode::Z },
            Instruction::Jump(Target::StackOffset(offset)) => Operands { word: 0, offset: offset, byte: 0, reg: Register::A, src: Register::A, condition: ConditionCode::Z },
            Instruction::Jump(Target::Indexed(word, reg)) => Operands { word: word, offset: 0, byte: 0, reg: reg, src: Register::A, condition: ConditionCode::Z },
            Instruction::JumpIf(condition, Target::Absolute(word)) => Operands { word: word, offset: 0, byte: 0, reg: Register::A, src: Register::A, condition: condition },
            Instruction::JumpIf(condition, Target::Relative(offset)) => Operands { word: 0, offset: offset, byte: 0, reg: Register::A, src: Register::A, condition: condition },
            Instruction::JumpIf(condition, Target::StackOffset(offset)) => Operands { word: 0, offset: offset, byte: 0, reg: Register::A, src: Register::A, condition: condition },
            Instruction::JumpIf(condition, Target::Indexed(word, reg)) => Operands { word: word, offset: 0, byte: 0, reg: reg, src: Register::A, condition: condition },
            Instruction::Call(Target::Absolute(word)) => Operands { word: word, offset: 0, byte: 0, reg: Register::A, src: Register::A, condition: ConditionCode::Z },
            Instruction::Call(Target::Relative(offset)) => Operands { word: 0, offset: offset, byte: 0, reg: Register::A, src: Register::A, condition: ConditionCode::Z },
            Instruction::Call(Target::StackOffset(offset)) => Operands { word: 0, offset: offset, byte: 0, reg: Register::A, src: Register::A, condition: ConditionCode::Z },
            Instruction::Call(Target::Indexed(word, reg)) => Operands { word: word, offset: 0, byte: 0, reg: reg, src: Register::A, condition: ConditionCode::Z },
            Instruction::PushRegister(reg) => Operands { word: 0, offset: 0, byte: 0, reg: reg, src: Register::A, condition: ConditionCode::Z },
            Instruction::PopRegister(reg) => Operands { word: 0, offset: 0, byte: 0, reg: reg, src: Register::A, condition: ConditionCode::Z },
            Instruction::Interrupt(byte) => Operands { word: 0, offset: 0, byte: byte, reg: Register::A, src: Register::A, condition: ConditionCode::Z },
            Instruction::ReturnFromInterrupt => Operands { word: 0, offset: 0, byte: 0, reg: Register::A, src: Register::A, condition: ConditionCode::Z },
            Instruction::ClearFlags(word) => Operands { word: word, offset: 0, byte: 0, reg: Register::A, src: Register::A, condition: ConditionCode::Z },
            Instruction::SetFlags(word) => Operands { word: word, offset: 0, byte: 0, reg: Register::A, src: Register::A, condition: ConditionCode::Z },
        }
    }

    /// The instruction with the given opcode and operands. Only the operands
    /// that the opcode's layout names are looked at.
    pub fn from_parts(opcode: u8, ops: &Operands) -> (instruction: Instruction)
        requires
            spec_layout(opcode) is Some,
        ensures
            instruction == instruction_of(opcode, *ops),
    {
        if opcode == 0x00 {
            Instruction::LoadImmediate(ops.reg, ops.word)
        } else if opcode == 0x04 {
            Instruction::LoadAddressAbsolute(ops.word)
        } else if opcode == 0x05 {
            Instruction::LoadAddressStackOffset(ops.offset)
        } else if opcode == 0x06 {
            Instruction::LoadWordAbsolute(ops.word)
        } else if opcode == 0x07 {
            Instruction::LoadWordStackOffset(ops.offset)
        } else if opcode == 0x08 {
            Instruction::LoadAddressIndirect(ops.word, ops.reg)
        } else if opcode == 0x0C {
            Instruction::LoadWordIndirect(ops.word, ops.reg)
        } else if opcode == 0x11 {
            Instruction::StoreAddressAbsolute(ops.word)
        } else if opcode == 0x12 {
            Instruction::StoreAddressStackOffset(ops.offset)
        } else if opcode == 0x15 {
            Instruction::StoreWordAbsolute(ops.word)
        } else if opcode == 0x16 {
            Instruction::StoreWordStackOffset(ops.offset)
        } else if opcode == 0x18 {
            Instruction::StoreAddressIndirect(ops.word, ops.reg)
        } else if opcode == 0x1C {
            Instruction::StoreWordIndirect(ops.word, ops.reg)
        } else if opcode == 0x20 {
            Instruction::MoveRegister(ops.reg, ops.src)
        } else if opcode == 0x40 {
            Instruction::And(ops.reg)
        } else if opcode == 0x44 {
            Instruction::Or(ops.reg)
        } else if opcode == 0x48 {
            Instruction::Xor(ops.reg)
        } else if opcode == 0x4C {
            Instruction::ShiftLeft(ops.reg)
        } else if opcode == 0x50 {
            Instruction::ShiftRight(ops.reg)
        } else if opcode == 0x54 {
            Instruction::Add(ops.reg)
        } else if opcode == 0x58 {
            Instruction::Subtract(ops.reg)
        } else if opcode == 0x5C {
            Instruction::RotateLeft(ops.reg)
        } else if opcode == 0x60 {
            Instruction::RotateRight(ops.reg)
        } else if opcode == 0x64 {
            Instruction::AddWithCarry(ops.reg)
        } else if opcode == 0x68 {
            Instruction::SubtractWithBorrow(ops.reg)
        } else if opcode == 0x6C {
            Instruction::Negate(ops.reg)
        } else if opcode == 0x70 {
            Instruction::Not(ops.reg)
        } else if opcode == 0x74 {
            Instruction::Increment(ops.reg)
        } else if opcode == 0x78 {
            Instruction::Decrement(ops.reg)
        } else if opcode == 0x7C {
            Instruction::Compare(ops.reg)
        } else if opcode == 0x80 {
            Instruction::Test(ops.reg)
        } else if opcode == 0xA8 {
            Instruction::CompareImmediate(ops.reg, ops.word)
        } else if opcode == 0xAC {
            Instruction::TestImmediate(ops.reg, ops.word)
        } else if opcode == 0xC0 {
            Instruction::Jump(Target::Absolute(ops.word))
        } else if opcode == 0xC1 {
            Instruction::Jump(Target::Relative(ops.offset))
        } else if opcode == 0xC2 {
            Instruction::Jump(Target::StackOffset(ops.offset))
        } else if opcode == 0xC4 {
            Instruction::Jump(Target::Indexed(ops.word, ops.reg))
        } else if opcode == 0xC8 {
            Instruction::JumpIf(ops.condition, Target::Absolute(ops.word))
        } else if opcode == 0xC9 {
            Instruction::JumpIf(ops.condition, Target::Relative(ops.offset))
        } else if opcode == 0xCA {
            Instruction::JumpIf(ops.condition, Target::StackOffset(ops.offset))
        } else if opcode == 0xCC {
            Instruction::JumpIf(ops.condition, Target::Indexed(ops.word, ops.reg))
        } else if opcode == 0xD0 {
            Instruction::Call(Target::Absolute(ops.word))
        } else if opcode == 0xD1 {
            Instruction::Call(Target::Relative(ops.offset))
        } else if opcode == 0xD2 {
            Instruction::Call(Target::StackOffset(ops.offset))
        } else if opcode == 0xD4 {
            Instruction::Call(Target::Indexed(ops.word, ops.reg))
        } else if opcode == 0xE8 {
            Instruction::PushRegister(ops.reg)
        } else if opcode == 0xEC {
            Instruction::PopRegister(ops.reg)
        } else if opcode == 0xF2 {
            Instruction::Interrupt(ops.byte)
        } else if opcode == 0xF3 {
            Instruction::ReturnFromInterrupt
        } else if opcode == 0xFE {
            Instruction::ClearFlags(ops.word)
        } else {
            Instruction::SetFlags(ops.word)
        }
    }

    /// The encoded form of the instruction: the opcode, then the operands in
    /// order, words low byte first and offsets in two's complement.
    pub fn to_bytes(&self) -> (bytes: Vec<u8>)
        ensures
            bytes@ == self.spec_bytes(),
            1 <= bytes@.len() <= 5,
    {
        let mut bytes: Vec<u8> = Vec::new();
        let opcode = self.opcode();
        bytes.push(opcode);
        assert(bytes@ =~= seq![opcode]);
        match layout_of(opcode) {
            Some(layout) => {
                let ops = self.operands();
                push_operands(&mut bytes, layout, &ops);
            },
            None => {},
        }
        bytes
    }

    /// The bytes of a program given piece by piece: each instruction in its
    /// encoded form, each run of raw bytes as it is, in order.
    pub fn make_bytes(instructions: &[Result<Instruction, &[u8]>]) -> (bytes: Vec<u8>)
        ensures
            bytes@ == program_bytes(instructions@, instructions@.len() as int),
    {
        let mut bytes: Vec<u8> = Vec::new();
        let mut i: usize = 0;
        while i < instructions.len()
            invariant
                i <= instructions@.len(),
                bytes@ == program_bytes(instructions@, i as int),
            decreases instructions@.len() - i,
        {
            match instructions[i] {
                Ok(instruction) => {
                    let mut encoded = instruction.to_bytes();
                    bytes.append(&mut encoded);
                },
                Err(raw) => {
                    let mut j: usize = 0;
                    while j < raw.len()
                        invariant
                            j <= raw@.len(),
                            i < instructions@.len(),
                            instructions@[i as int] == Err::<Instruction, &[u8]>(raw),
                            bytes@ == program_bytes(instructions@, i as int) + raw@.subrange(
                                0,
                                j as int,
                            ),
                        decreases raw@.len() - j,
                    {
                        bytes.push(raw[j]);
                        j = j + 1;
                        assert(raw@.subrange(0, j as int) =~= raw@.subrange(0, j - 1).push(
                            raw@[j - 1],
                        ));
                    }
                    assert(raw@.subrange(0, raw@.len() as int) =~= raw@);
                },
            }
            i = i + 1;
        }
        bytes
    }

    /// Decodes the instruction that the bytes start with and says how many
    /// bytes it takes. No byte after those is looked at. `EndOfInput` if the
    /// bytes end before the instruction does, `InvalidOpcode` if the first
    /// byte is no opcode, `InvalidRegister` or `InvalidCondition` if an
    /// operand byte does not hold what it should; the operands are read in
    /// order and the first failure decides.
    pub fn try_from_iter(bytes: &[u8]) -> (res: Result<(Instruction, u32), InstructionError>)
        ensures
            match decode(bytes@) {
                Ok((instruction, consumed)) => res == Ok::<(Instruction, u32), InstructionError>(
                    (instruction, consumed as u32),
                ) && 1 <= consumed <= 5 && consumed <= bytes@.len(),
                Err(e) => res == Err::<(Instruction, u32), InstructionError>(e),
            },
    {
        let mut count: u32 = 0;
        let opcode = next_byte(bytes, &mut count)?;
        let layout = match layout_of(opcode) {
            Some(layout) => layout,
            None => {
                return Err(InstructionError::InvalidOpcode(opcode));
            },
        };
        let ops = read_operands(bytes, layout, &mut count)?;
        Ok((Instruction::from_parts(opcode, &ops), count))
    }
}

/// The bytes of the first `count` pieces of a program: instructions in their
/// encoded form, raw bytes as they are.
pub open spec fn program_bytes(pieces: Seq<Result<Instruction, &[u8]>>, count: int) -> Seq<u8>
    decreases count,
{
    if count <= 0 {
        Seq::<u8>::empty()
    } else {
        program_bytes(pieces, count - 1) + match pieces[count - 1] {
            Ok(instruction) => instruction.spec_bytes(),
            Err(raw) => raw@,
        }
    }
}

/// The two bytes of a word make that word again, and a word made of two
/// bytes has them as its low and high byte.
pub proof fn lemma_word_bytes(value: u16, low: u8, high: u8)
    ensures
        word_of(low_byte(value), high_byte(value)) == value,
        low_byte(word_of(low, high)) == low,
        high_byte(word_of(low, high)) == high,
{
}

/// A signed offset and the byte that holds it determine each other.
pub proof fn lemma_offset_bytes(offset: i8, byte: u8)
    ensures
        offset_of_byte(offset_byte(offset)) == offset,
        offset_byte(offset_of_byte(byte)) == byte,
{
}

/// Whether two sets of operands agree on every operand that a layout names.
pub open spec fn same_operands(layout: Layout, a: Operands, b: Operands) -> bool {
    match layout {
        Layout::Bare => true,
        Layout::Word => a.word == b.word,
        Layout::Offset => a.offset == b.offset,
        Layout::Byte => a.byte == b.byte,
        Layout::Register => a.reg == b.reg,
        Layout::Pair => a.reg == b.reg && a.src == b.src,
        Layout::RegisterWord => a.reg == b.reg && a.word == b.word,
        Layout::WordRegister => a.reg == b.reg && a.word == b.word,
        Layout::ConditionOffset => a.condition == b.condition && a.offset == b.offset,
        Layout::ConditionWord => a.condition == b.condition && a.word == b.word,
        Layout::ConditionWordRegister => a.condition == b.condition && a.word == b.word && a.reg
            == b.reg,
    }
}

/// Reading back the operand bytes of a layout yields the operands that the
/// layout names, whatever bytes follow them.
proof fn lemma_operands_round_trip(opcode: u8, layout: Layout, ops: Operands, rest: Seq<u8>)
    ensures
        operands_at(seq![opcode] + operand_bytes(layout, ops) + rest, layout) is Ok,
        same_operands(
            layout,
            operands_at(seq![opcode] + operand_bytes(layout, ops) + rest, layout).unwrap(),
            ops,
        ),
        operand_bytes(layout, ops).len() == layout.spec_width(),
{
    let bytes = seq![opcode] + operand_bytes(layout, ops) + rest;
    let n = layout.spec_width();
    assert(operand_bytes(layout, ops).len() == n);
    assert(bytes.len() >= 1 + n);
    assert(forall|k: int| 0 <= k < n ==> bytes[1 + k] == operand_bytes(layout, ops)[k]);
    lemma_word_bytes(ops.word, 0, 0);
    lemma_offset_bytes(ops.offset, 0);
    crate::register::lemma_register_code_round_trip(ops.reg, 0);
    crate::register::lemma_register_code_round_trip(ops.src, 0);
    crate::condition::lemma_condition_code_round_trip(ops.condition, 0);
    assert(pair_of_byte(pair_byte(ops.reg, ops.src)) == Some((ops.reg, ops.src)));
}

/// The operands read in a layout are held by exactly the bytes read.
proof fn lemma_operands_bytes(bytes: Seq<u8>, layout: Layout, ops: Operands)
    requires
        bytes.len() >= 1,
        operands_at(bytes, layout) is Ok,
        same_operands(layout, ops, operands_at(bytes, layout).unwrap()),
    ensures
        bytes.len() >= 1 + layout.spec_width(),
        operand_bytes(layout, ops) == bytes.subrange(1, 1 + layout.spec_width()),
{
    let n = layout.spec_width();
    if n >= 2 {
        lemma_word_bytes(0, bytes[1], bytes[2]);
        lemma_offset_bytes(0, bytes[2]);
    }
    if n >= 3 {
        lemma_word_bytes(0, bytes[2], bytes[3]);
    }
    if n >= 1 {
        lemma_offset_bytes(0, bytes[1]);
    }
    assert(operand_bytes(layout, ops).len() == n);
    assert(operand_bytes(layout, ops) =~= bytes.subrange(1, 1 + n));
}

/// An instruction's opcode has the instruction's layout.
proof fn lemma_opcode_layout(instruction: Instruction)
    ensures
        spec_layout(instruction.spec_opcode()) == Some(instruction.spec_instruction_layout()),
{
}

/// The opcode of an instruction with the operands that its layout names
/// makes the instruction again.
proof fn lemma_parts_make_instruction(instruction: Instruction, ops: Operands)
    requires
        same_operands(instruction.spec_instruction_layout(), ops, instruction.spec_operands()),
    ensures
        instruction_of(instruction.spec_opcode(), ops) == instruction,
{
}

/// The instruction made of an opcode and operands has that opcode, the
/// opcode's layout, and the operands that the layout names.
proof fn lemma_instruction_has_parts(opcode: u8, ops: Operands)
    requires
        spec_layout(opcode) is Some,
    ensures
        instruction_of(opcode, ops).spec_opcode() == opcode,
        instruction_of(opcode, ops).spec_instruction_layout() == spec_layout(opcode).unwrap(),
        same_operands(
            spec_layout(opcode).unwrap(),
            instruction_of(opcode, ops).spec_operands(),
            ops,
        ),
{
}

/// Round trip: the decoder, given the encoded form of an instruction and
/// any bytes after it, yields that instruction and the length of its encoded
/// form.
pub proof fn lemma_decode_inverts_encode(instruction: Instruction, rest: Seq<u8>)
    ensures
        decode(instruction.spec_bytes() + rest) == Ok::<(Instruction, nat), InstructionError>(
            (instruction, instruction.spec_bytes().len()),
        ),
        1 <= instruction.spec_bytes().len() <= 5,
{
    let opcode = instruction.spec_opcode();
    let layout = instruction.spec_instruction_layout();
    let ops = instruction.spec_operands();
    let bytes = instruction.spec_bytes() + rest;
    lemma_opcode_layout(instruction);
    assert(bytes =~= seq![opcode] + operand_bytes(layout, ops) + rest);
    assert(bytes[0] == opcode);
    lemma_operands_round_trip(opcode, layout, ops, rest);
    let read = operands_at(bytes, layout).unwrap();
    lemma_parts_make_instruction(instruction, read);
}

/// Length agreement: where the decoder succeeds, the number of bytes it
/// reports is the length of the encoded form of the instruction it yields,
/// and that encoded form is the bytes it took.
pub proof fn lemma_encode_inverts_decode(bytes: Seq<u8>)
    requires
        decode(bytes) is Ok,
    ensures
        ({
            let (instruction, consumed) = decode(bytes).unwrap();
            &&& consumed == instruction.spec_bytes().len()
            &&& consumed <= bytes.len()
            &&& instruction.spec_bytes() == bytes.subrange(0, consumed as int)
        }),
{
    let opcode = bytes[0];
    let layout = spec_layout(opcode).unwrap();
    let read = operands_at(bytes, layout).unwrap();
    let instruction = instruction_of(opcode, read);
    let n = layout.spec_width();
    lemma_instruction_has_parts(opcode, read);
    lemma_operands_bytes(bytes, layout, instruction.spec_operands());
    assert(instruction.spec_bytes() =~= bytes.subrange(0, 1 + n));
}

/// The decoder looks at no byte beyond those it takes: two sequences that
/// agree on the bytes taken from the first decode alike.
pub proof fn lemma_decode_reads_only_what_it_takes(bytes: Seq<u8>, other: Seq<u8>)
    requires
        decode(bytes) is Ok,
        other.len() >= decode(bytes).unwrap().1,
        other.subrange(0, decode(bytes).unwrap().1 as int) == bytes.subrange(
            0,
            decode(bytes).unwrap().1 as int,
        ),
    ensures
        decode(other) == decode(bytes),
{
    lemma_encode_inverts_decode(bytes);
    let (instruction, consumed) = decode(bytes).unwrap();
    let rest = other.subrange(consumed as int, other.len() as int);
    assert(other =~= other.subrange(0, consumed as int) + rest);
    lemma_decode_inverts_encode(instruction, rest);
}

} // verus!
