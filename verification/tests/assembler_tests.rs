use cpu16::compile::{
    compile, compile_line, parse_offset, CompileError, DirectiveError, InstructionError, Value,
};
use cpu16::emulator::Emulator;
use cpu16::flag::{get_flag, Flag};
use cpu16::isa::{Instruction, Target};
use cpu16::condition::ConditionCode;
use cpu16::memory::Cartridge;
use cpu16::register::Register;

#[test]
fn forward_reference_is_patched_with_label_address() {
    let image = compile("JMP target ; later\ntarget: NOP").unwrap();
    assert_eq!(image, vec![0xC0, 0x03, 0x80, 0x20, 0x00]);
}

#[test]
fn assembling_twice_gives_identical_output() {
    let source = "start: LDI A, #$1234\n.db 1 2 -3\nJNE start\n.dw start\n";
    let first = compile(source);
    let second = compile(source);
    assert!(first.is_ok());
    assert_eq!(first, second);
}

#[test]
fn hello_program_prints_and_halts() {
    let source = "\
.org $8000
LDI A, #$2000
MOV SP, A
LDI B, #msg
call print
SET HLT
print: LD B
       TEST A
       JZ done
       ST $7F00
       INC B
       JMP print
done:  RET
msg:   .ascii \"Hi!\"
.org $FFFE
.dw $8000
";
    let image = compile(source).unwrap();
    assert_eq!(image.len(), 0x8000);
    let mut emu = Emulator::new(Cartridge::from_image(&image));
    assert_eq!(emu.cpu.pc, 0x8000);
    let steps = emu.run(1000).ok().unwrap();
    assert!(steps < 1000);
    assert!(get_flag(emu.cpu.flags, Flag::Halt));
    assert_eq!(emu.memory.take_output(), vec![b'H', b'i', b'!']);
    // LDI (4) + MOV (2) + LDI (4) + CALL (3) + SET (3)
    assert_eq!(emu.cpu.pc, 0x8000 + 16);
}

#[test]
fn assembled_bytes_decode_to_the_instruction() {
    let bytes = compile_line("LDI B, #$C000").unwrap();
    assert_eq!(bytes, vec![0x00, 0x01, 0x00, 0xC0]);
    assert_eq!(
        Instruction::try_from_iter(&bytes),
        Ok((Instruction::LoadImmediate(Register::B, 0xC000), 4))
    );
    let bytes = compile_line("JGE $1234, c").unwrap();
    assert_eq!(bytes, vec![0xCC, 0x0E, 0x34, 0x12, 0x02]);
    assert_eq!(
        Instruction::try_from_iter(&bytes),
        Ok((Instruction::JumpIf(ConditionCode::NL, Target::Indexed(0x1234, Register::C)), 5))
    );
    let bytes = compile_line("mov sp, a").unwrap();
    assert_eq!(bytes, vec![0x20, 0x50]);
    assert_eq!(
        Instruction::try_from_iter(&bytes),
        Ok((Instruction::MoveRegister(Register::Sp, Register::A), 2))
    );
    let bytes = compile_line("JMP -2, PC").unwrap();
    assert_eq!(bytes, vec![0xC1, 0xFE]);
    let bytes = compile_line("RET").unwrap();
    assert_eq!(
        Instruction::try_from_iter(&bytes),
        Ok((Instruction::PopRegister(Register::Pc), 2))
    );
    let bytes = compile_line("EI").unwrap();
    assert_eq!(Instruction::try_from_iter(&bytes), Ok((Instruction::SetFlags(0x40), 3)));
    let bytes = compile_line("CLR CF").unwrap();
    assert_eq!(Instruction::try_from_iter(&bytes), Ok((Instruction::ClearFlags(0x04), 3)));
    let bytes = compile_line("LD B").unwrap();
    assert_eq!(
        Instruction::try_from_iter(&bytes),
        Ok((Instruction::LoadAddressIndirect(0, Register::B), 4))
    );
}

#[test]
fn numbers_in_every_radix() {
    assert_eq!(compile(".dw $FF %101 017 42 -1 0").unwrap(), vec![
        0xFF, 0x00, 0x05, 0x00, 0x0F, 0x00, 0x2A, 0x00, 0xFF, 0xFF, 0x00, 0x00
    ]);
    assert_eq!(compile(".db $7f -128 255 +5").unwrap(), vec![0x7F, 0x80, 0xFF, 0x05]);
    assert_eq!(compile_line("INT #B#1"), None);
    assert_eq!(compile_line("INT B#$10"), Some(vec![0xF2, 0x10]));
    assert_eq!(compile_line("LDI A, W#-2"), Some(vec![0x00, 0x00, 0xFE, 0xFF]));
}

#[test]
fn directives_define_place_and_emit() {
    let image = compile(".def base $9000\n.org base\n.db 1\n.org $8002\n.ascii \"ok\"\n.dw base")
        .unwrap();
    assert_eq!(image.len(), 0x1001);
    assert_eq!(&image[0..6], &[0, 0, b'o', b'k', 0x00, 0x90]);
    assert_eq!(image[0x1000], 1);
}

#[test]
fn comments_and_blank_lines_emit_nothing() {
    assert_eq!(compile("; only a comment\n\n   \nNOP;x\r\n").unwrap(), vec![0x20, 0x00]);
}

#[test]
fn instruction_errors_name_the_operand() {
    assert_eq!(
        compile("FROB A"),
        Err((Some(0), CompileError::InstructionError(InstructionError::InvalidMnemonic(
            "FROB".to_string()
        ))))
    );
    assert_eq!(
        compile("NOP\nINC Q"),
        Err((Some(1), CompileError::InstructionError(InstructionError::InvalidRegister(
            "Q".to_string()
        ))))
    );
    assert_eq!(
        compile("LDI A, 5"),
        Err((Some(0), CompileError::InstructionError(InstructionError::InvalidImmediate(
            "5".to_string()
        ))))
    );
    assert_eq!(
        compile("LDI A"),
        Err((Some(0), CompileError::InstructionError(InstructionError::MissingOperand(
            "#imm16".to_string()
        ))))
    );
    assert_eq!(
        compile("IRET A"),
        Err((Some(0), CompileError::InstructionError(InstructionError::ExtraOperand(
            "A".to_string()
        ))))
    );
    assert_eq!(
        compile("MOV A"),
        Err((Some(0), CompileError::InstructionError(InstructionError::MissingOperand(
            "src".to_string()
        ))))
    );
    assert_eq!(
        compile("INT #$100"),
        Err((Some(0), CompileError::InstructionError(InstructionError::InvalidNumber(
            "$100".to_string()
        ))))
    );
    assert_eq!(
        compile("SET XF"),
        Err((Some(0), CompileError::InstructionError(InstructionError::InvalidConstant {
            expected: "ZF".to_string(),
            found: "XF".to_string()
        })))
    );
    assert_eq!(
        compile("#5 A"),
        Err((Some(0), CompileError::InstructionError(InstructionError::ExpectedMnemonic(
            "#5".to_string()
        ))))
    );
    let text: Vec<char> = "300".chars().collect();
    assert_eq!(parse_offset(&text), Err(InstructionError::InvalidOffset("300".to_string())));
    let text: Vec<char> = "-5".chars().collect();
    assert_eq!(parse_offset(&text), Ok(Value::Literal(-5)));
    let text: Vec<char> = "200".chars().collect();
    assert_eq!(parse_offset(&text), Ok(Value::Literal(-56)));
    assert_eq!(
        compile("JMP 300, XX"),
        Err((Some(0), CompileError::InstructionError(InstructionError::ExtraOperand(
            "XX".to_string()
        ))))
    );
}

#[test]
fn directive_errors() {
    assert_eq!(
        compile(".bogus 1"),
        Err((Some(0), CompileError::DirectiveError(DirectiveError::UnknownDirective(
            "bogus".to_string()
        ))))
    );
    assert_eq!(
        compile(".def"),
        Err((Some(0), CompileError::DirectiveError(DirectiveError::MissingOperand(
            "symbol".to_string()
        ))))
    );
    assert_eq!(
        compile(".def X"),
        Err((Some(0), CompileError::DirectiveError(DirectiveError::MissingOperand(
            "value".to_string()
        ))))
    );
    assert_eq!(
        compile(".def X 1 2"),
        Err((Some(0), CompileError::DirectiveError(DirectiveError::ExtraOperand(
            "2".to_string()
        ))))
    );
    assert_eq!(
        compile(".def X Y"),
        Err((Some(0), CompileError::DirectiveError(DirectiveError::UndefinedSymbol(
            "Y".to_string()
        ))))
    );
    assert_eq!(
        compile(".db $"),
        Err((Some(0), CompileError::DirectiveError(DirectiveError::InvalidNumber(
            "$".to_string()
        ))))
    );
    assert_eq!(
        compile(".ascii hello"),
        Err((Some(0), CompileError::DirectiveError(DirectiveError::ExpectedString(
            "hello".to_string()
        ))))
    );
    assert_eq!(
        compile(".org $100"),
        Err((Some(0), CompileError::DirectiveError(DirectiveError::SymbolOutOfRange(0x100))))
    );
}

#[test]
fn patch_errors_come_without_a_line() {
    assert_eq!(
        compile("JMP nowhere"),
        Err((None, CompileError::UndefinedSymbol("nowhere".to_string())))
    );
    assert_eq!(
        compile("far: JMP far, PC"),
        Err((None, CompileError::SymbolOutOfRange("far".to_string(), 1)))
    );
    assert_eq!(compile(".def near -3\nJMP near, PC").unwrap(), vec![0xC1, 0xFD]);
}

#[test]
fn later_definition_of_a_symbol_wins() {
    assert_eq!(compile(".def X 1\n.def X 2\n.dw X").unwrap(), vec![2, 0]);
}
