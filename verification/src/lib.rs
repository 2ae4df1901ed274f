//! Toolchain and runtime for a synthetic 16-bit micro-architecture.
//!
//! * [`register`], [`flag`], [`condition`]: the register file's tags, the
//!   bits of the FLAGS word, and the condition codes with their names.
//! * [`isa`]: the instructions, their byte encoding, and the decoder.
//! * [`memory`]: RAM, the character port and the cartridge behind one
//!   address space.
//! * [`cpu`], [`alu`], [`execution`], [`emulator`]: the register file, the
//!   arithmetic with its flags, and the engine that steps through a
//!   program.
//! * [`table`], [`tsv`]: the instruction table that the assembler walks,
//!   built in or read from tab-separated text.
//! * [`text`], [`number`], [`compile`]: the assembler, from characters to a
//!   binary image.
//! * [`agreement`]: what the assembler emits is what the decoder takes.
//! * [`chained_io`]: positions in two streams chained one after the other.

pub mod agreement;
pub mod alu;
pub mod chained_io;
pub mod compile;
pub mod condition;
pub mod cpu;
pub mod emulator;
pub mod execution;
pub mod flag;
pub mod isa;
pub mod memory;
pub mod number;
pub mod register;
pub mod table;
pub mod text;
pub mod tsv;
