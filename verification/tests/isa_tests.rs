use cpu16::condition::ConditionCode;
use cpu16::flag::{get_flag, set_flag, Flag};
use cpu16::isa::{operand_length, Instruction, InstructionError, Target};
use cpu16::register::Register;

fn samples() -> Vec<Instruction> {
    vec![
        Instruction::LoadImmediate(Register::Flags, 0xBEEF),
        Instruction::LoadAddressAbsolute(0x1234),
        Instruction::LoadAddressStackOffset(-128),
        Instruction::LoadWordAbsolute(0xFFFF),
        Instruction::LoadWordStackOffset(127),
        Instruction::LoadAddressIndirect(0x0001, Register::B),
        Instruction::LoadWordIndirect(0x8000, Register::Sp),
        Instruction::StoreAddressAbsolute(0x7F00),
        Instruction::StoreAddressStackOffset(-1),
        Instruction::StoreWordAbsolute(0),
        Instruction::StoreWordStackOffset(2),
        Instruction::StoreAddressIndirect(0x00FF, Register::C),
        Instruction::StoreWordIndirect(0xFF00, Register::D),
        Instruction::MoveRegister(Register::Pc, Register::Flags),
        Instruction::And(Register::A),
        Instruction::Or(Register::B),
        Instruction::Xor(Register::C),
        Instruction::ShiftLeft(Register::D),
        Instruction::ShiftRight(Register::A),
        Instruction::Add(Register::B),
        Instruction::Subtract(Register::C),
        Instruction::RotateLeft(Register::D),
        Instruction::RotateRight(Register::A),
        Instruction::AddWithCarry(Register::B),
        Instruction::SubtractWithBorrow(Register::C),
        Instruction::Negate(Register::D),
        Instruction::Not(Register::A),
        Instruction::Increment(Register::Sp),
        Instruction::Decrement(Register::Pc),
        Instruction::Compare(Register::B),
        Instruction::Test(Register::C),
        Instruction::CompareImmediate(Register::A, 0x00FF),
        Instruction::TestImmediate(Register::D, 0x8000),
        Instruction::Jump(Target::Absolute(0xA000)),
        Instruction::Jump(Target::Relative(-2)),
        Instruction::Jump(Target::StackOffset(4)),
        Instruction::Jump(Target::Indexed(0x10, Register::B)),
        Instruction::JumpIf(ConditionCode::Z, Target::Absolute(0xA00E)),
        Instruction::JumpIf(ConditionCode::NLE, Target::Relative(5)),
        Instruction::JumpIf(ConditionCode::NB, Target::StackOffset(-3)),
        Instruction::JumpIf(ConditionCode::L, Target::Indexed(0xFFFF, Register::Flags)),
        Instruction::Call(Target::Absolute(0xA000)),
        Instruction::Call(Target::Relative(10)),
        Instruction::Call(Target::StackOffset(0)),
        Instruction::Call(Target::Indexed(2, Register::A)),
        Instruction::PushRegister(Register::Flags),
        Instruction::PopRegister(Register::Pc),
        Instruction::Interrupt(7),
        Instruction::ReturnFromInterrupt,
        Instruction::ClearFlags(0x0040),
        Instruction::SetFlags(0x0080),
    ]
}

#[test]
fn decoder_inverts_encoder() {
    for instruction in samples() {
        let bytes = instruction.to_bytes();
        assert!(1 <= bytes.len() && bytes.len() <= 5);
        assert_eq!(
            Instruction::try_from_iter(&bytes),
            Ok((instruction, bytes.len() as u32)),
            "{instruction:?}"
        );
    }
}

#[test]
fn decoder_reads_no_byte_beyond_the_instruction() {
    for instruction in samples() {
        let mut bytes = instruction.to_bytes();
        let length = bytes.len() as u32;
        bytes.extend_from_slice(&[0xAA, 0x04, 0xFF]);
        assert_eq!(Instruction::try_from_iter(&bytes), Ok((instruction, length)));
    }
}

#[test]
fn consumed_length_is_opcode_plus_operand_length() {
    for instruction in samples() {
        let bytes = instruction.to_bytes();
        assert_eq!(operand_length(bytes[0]), Some(bytes.len() as u8 - 1));
        let (decoded, consumed) = Instruction::try_from_iter(&bytes).unwrap();
        assert_eq!(decoded.to_bytes().len() as u32, consumed);
    }
}

#[test]
fn exact_encodings() {
    assert_eq!(Instruction::LoadImmediate(Register::B, 0xC000).to_bytes(), vec![0x00, 1, 0x00, 0xC0]);
    assert_eq!(Instruction::LoadAddressStackOffset(-2).to_bytes(), vec![0x05, 0xFE]);
    assert_eq!(Instruction::MoveRegister(Register::Sp, Register::D).to_bytes(), vec![0x20, 0x53]);
    assert_eq!(
        Instruction::JumpIf(ConditionCode::NZ, Target::Absolute(0x1234)).to_bytes(),
        vec![0xC8, 0x08, 0x34, 0x12]
    );
    assert_eq!(Instruction::Call(Target::Relative(-1)).to_bytes(), vec![0xD1, 0xFF]);
    assert_eq!(Instruction::Jump(Target::Indexed(0x0102, Register::C)).to_bytes(), vec![0xC4, 2, 1, 2]);
    assert_eq!(Instruction::ReturnFromInterrupt.to_bytes(), vec![0xF3]);
    assert_eq!(Instruction::SetFlags(0x0180).to_bytes(), vec![0xFF, 0x80, 0x01]);
}

#[test]
fn branch_mode_sits_in_bits_three_to_five() {
    let mode = |i: Instruction| (i.to_bytes()[0] >> 3) & 7;
    assert_eq!(mode(Instruction::Jump(Target::Absolute(0))), 0);
    assert_eq!(mode(Instruction::Jump(Target::Indexed(0, Register::A))), 0);
    assert_eq!(mode(Instruction::JumpIf(ConditionCode::Z, Target::Relative(0))), 1);
    assert_eq!(mode(Instruction::Call(Target::StackOffset(0))), 2);
}

#[test]
fn decode_errors() {
    assert_eq!(Instruction::try_from_iter(&[]), Err(InstructionError::EndOfInput));
    assert_eq!(Instruction::try_from_iter(&[0x04, 0x12]), Err(InstructionError::EndOfInput));
    assert_eq!(Instruction::try_from_iter(&[0xC8]), Err(InstructionError::EndOfInput));
    assert_eq!(Instruction::try_from_iter(&[0x01]), Err(InstructionError::InvalidOpcode(0x01)));
    assert_eq!(Instruction::try_from_iter(&[0xC3, 0, 0]), Err(InstructionError::InvalidOpcode(0xC3)));
    assert_eq!(Instruction::try_from_iter(&[0xD8, 0, 0]), Err(InstructionError::InvalidOpcode(0xD8)));
    assert_eq!(Instruction::try_from_iter(&[0x40, 4]), Err(InstructionError::InvalidRegister(4)));
    assert_eq!(Instruction::try_from_iter(&[0x40, 8]), Err(InstructionError::InvalidRegister(8)));
    assert_eq!(Instruction::try_from_iter(&[0x20, 0x40]), Err(InstructionError::InvalidRegister(0x40)));
    assert_eq!(Instruction::try_from_iter(&[0x20, 0x04]), Err(InstructionError::InvalidRegister(0x04)));
    assert_eq!(
        Instruction::try_from_iter(&[0xC8, 0x04, 0, 0]),
        Err(InstructionError::InvalidCondition(0x04))
    );
    assert_eq!(
        Instruction::try_from_iter(&[0xC8, 0x0C, 0, 0]),
        Err(InstructionError::InvalidCondition(0x0C))
    );
    assert_eq!(
        Instruction::try_from_iter(&[0xC9, 0x10, 0]),
        Err(InstructionError::InvalidCondition(0x10))
    );
    // the first failure in operand order decides
    assert_eq!(Instruction::try_from_iter(&[0xC8, 0x04]), Err(InstructionError::InvalidCondition(4)));
    assert_eq!(Instruction::try_from_iter(&[0x00, 0x09]), Err(InstructionError::InvalidRegister(9)));
}

#[test]
fn make_bytes_concatenates_instructions_and_raw_bytes() {
    let raw: &[u8] = &[0xDE, 0xAD];
    let bytes = Instruction::make_bytes(&[
        Ok(Instruction::LoadImmediate(Register::B, 0xC000)),
        Err(raw),
        Ok(Instruction::SetFlags(0x80)),
    ]);
    assert_eq!(bytes, vec![0x00, 1, 0x00, 0xC0, 0xDE, 0xAD, 0xFF, 0x80, 0x00]);
    assert_eq!(Instruction::make_bytes(&[]), Vec::<u8>::new());
}

#[test]
fn register_codes() {
    let all = [
        (Register::A, 0u8, "A"),
        (Register::B, 1, "B"),
        (Register::C, 2, "C"),
        (Register::D, 3, "D"),
        (Register::Sp, 5, "SP"),
        (Register::Pc, 6, "PC"),
        (Register::Flags, 7, "FLAGS"),
    ];
    for (reg, code, name) in all {
        assert_eq!(reg.code(), code);
        assert_eq!(u8::from(reg), code);
        assert_eq!(Register::try_from(code), Ok(reg));
        assert_eq!(reg.to_string(), name);
        let chars: Vec<char> = name.chars().collect();
        assert_eq!(Register::from_chars(&chars), Ok(reg));
    }
    assert_eq!(Register::try_from(4u8), Err(()));
    assert_eq!(Register::try_from(8u8), Err(()));
    assert_eq!(Register::pair_from(&0x53), Ok((Register::Sp, Register::D)));
    assert_eq!(Register::pair_from(&0x07), Ok((Register::A, Register::Flags)));
    assert_eq!(Register::pair_from(&0x43), Err(()));
    assert_eq!(Register::pair_from(&0x34), Err(()));
    assert_eq!(Register::pair_from(&0x80), Err(()));
    assert_eq!(Register::pair_into(Register::Pc, Register::C), 0x62);
}

#[test]
fn flag_bits_and_masks() {
    let all = [
        (Flag::Zero, 0u8, 0x0001u16, "ZF"),
        (Flag::Sign, 1, 0x0002, "SF"),
        (Flag::Carry, 2, 0x0004, "CF"),
        (Flag::Overflow, 3, 0x0008, "OF"),
        (Flag::EnableInterrupt, 6, 0x0040, "EIF"),
        (Flag::Halt, 7, 0x0080, "HLT"),
    ];
    for (flag, bit, mask, name) in all {
        assert_eq!(flag.bit(), bit);
        assert_eq!(u8::from(flag), bit);
        assert_eq!(flag.to_bitmask(), mask);
        assert_eq!(Flag::try_from(bit), Ok(flag));
        assert_eq!(Flag::from_str(name), Ok(flag));
        assert_eq!(flag.to_string(), name);
    }
    assert_eq!(Flag::try_from(4u8), Err(()));
    assert_eq!(Flag::try_from(5u8), Err(()));
    assert_eq!(Flag::try_from(8u8), Err(()));
    assert_eq!(Flag::from_str("zf"), Err(()));
    assert_eq!(Flag::from_str(""), Err(()));
}

#[test]
fn setting_a_flag_keeps_every_other_bit() {
    let mut status: u16 = 0xFF30;
    set_flag(&mut status, Flag::Carry, true);
    assert_eq!(status, 0xFF34);
    assert!(get_flag(status, Flag::Carry));
    assert!(!get_flag(status, Flag::Zero));
    set_flag(&mut status, Flag::Carry, false);
    assert_eq!(status, 0xFF30);
    set_flag(&mut status, Flag::Halt, true);
    assert_eq!(status, 0xFFB0);
    set_flag(&mut status, Flag::Halt, true);
    assert_eq!(status, 0xFFB0);
}

#[test]
fn condition_codes_and_reserved_values() {
    let all = [
        (ConditionCode::Z, 0x0u8),
        (ConditionCode::S, 0x1),
        (ConditionCode::C, 0x2),
        (ConditionCode::O, 0x3),
        (ConditionCode::BE, 0x5),
        (ConditionCode::L, 0x6),
        (ConditionCode::LE, 0x7),
        (ConditionCode::NZ, 0x8),
        (ConditionCode::NS, 0x9),
        (ConditionCode::NC, 0xA),
        (ConditionCode::NO, 0xB),
        (ConditionCode::NB, 0xD),
        (ConditionCode::NL, 0xE),
        (ConditionCode::NLE, 0xF),
    ];
    for (condition, code) in all {
        assert_eq!(condition.code(), code);
        assert_eq!(u8::from(condition), code);
        assert_eq!(ConditionCode::try_from(code), Ok(condition));
        assert_eq!(ConditionCode::from_str(&condition.to_string()), Ok(condition));
    }
    assert_eq!(ConditionCode::try_from(0x4u8), Err(()));
    assert_eq!(ConditionCode::try_from(0xCu8), Err(()));
    assert_eq!(ConditionCode::try_from(0x10u8), Err(()));
    assert_eq!(ConditionCode::from_str("XX"), Err(()));
    assert_eq!(ConditionCode::from_str("z"), Err(()));
}

#[test]
fn aliased_condition_names_evaluate_alike() {
    let rows: [&[&str]; 14] = [
        &["Z", "EQ", "E"],
        &["S"],
        &["C", "B", "NAE"],
        &["O"],
        &["BE", "NA"],
        &["L", "NGE", "LT"],
        &["LE", "NG", "NGT"],
        &["NZ", "NE", "NEQ"],
        &["NS"],
        &["NC", "A", "NBE"],
        &["NO"],
        &["NB", "AE"],
        &["NL", "GE", "NLT"],
        &["NLE", "G", "GT"],
    ];
    let codes = [0x0u8, 0x1, 0x2, 0x3, 0x5, 0x6, 0x7, 0x8, 0x9, 0xA, 0xB, 0xD, 0xE, 0xF];
    for (row, code) in rows.iter().zip(codes) {
        let primary = ConditionCode::from_str(row[0]).unwrap();
        assert_eq!(primary.code(), code);
        for name in row.iter() {
            let alias = ConditionCode::from_str(name).unwrap();
            assert_eq!(alias.code(), code, "{name}");
            for flags in 0u16..16 {
                assert_eq!(alias.meets(flags), primary.meets(flags));
                assert_eq!(alias.meets(flags | 0xFFC0), primary.meets(flags));
            }
        }
    }
}

#[test]
fn conditions_read_the_flags() {
    let z = 1u16;
    let s = 2u16;
    let c = 4u16;
    let o = 8u16;
    assert!(ConditionCode::Z.meets(z) && !ConditionCode::Z.meets(0));
    assert!(ConditionCode::S.meets(s) && !ConditionCode::S.meets(z));
    assert!(ConditionCode::C.meets(c) && !ConditionCode::C.meets(o));
    assert!(ConditionCode::O.meets(o) && !ConditionCode::O.meets(c));
    assert!(ConditionCode::BE.meets(c) && ConditionCode::BE.meets(z) && !ConditionCode::BE.meets(s));
    assert!(ConditionCode::L.meets(s) && ConditionCode::L.meets(o) && !ConditionCode::L.meets(s | o));
    assert!(ConditionCode::LE.meets(z | s | o) && ConditionCode::LE.meets(s) && !ConditionCode::LE.meets(0));
    assert!(ConditionCode::NZ.meets(0) && !ConditionCode::NZ.meets(z));
    assert!(ConditionCode::NS.meets(0) && !ConditionCode::NS.meets(s));
    assert!(ConditionCode::NC.meets(0) && !ConditionCode::NC.meets(c));
    assert!(ConditionCode::NO.meets(0) && !ConditionCode::NO.meets(o));
    assert!(ConditionCode::NB.meets(0) && !ConditionCode::NB.meets(c) && !ConditionCode::NB.meets(z));
    assert!(ConditionCode::NL.meets(0) && ConditionCode::NL.meets(s | o) && !ConditionCode::NL.meets(s));
    assert!(ConditionCode::NLE.meets(0) && !ConditionCode::NLE.meets(z) && !ConditionCode::NLE.meets(o));
}
