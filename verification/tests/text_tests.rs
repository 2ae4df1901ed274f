use cpu16::compile::{
    compile, compile_line, operands, parse_address, parse_immediate, parse_immediate8,
    parse_immediate8_symbol, parse_instruction, parse_label, parse_register, parse_register_pair,
    parse_symbol, CompileError, InstructionError, Value,
};
use cpu16::number::{parse_integer16, parse_integer8};
use cpu16::table::{instructions, OperandType};
use cpu16::text::{chars_of, split, string_of, to_uppercase, tokens, trim, trim_start};

fn chars(text: &str) -> Vec<char> {
    text.chars().collect()
}

#[test]
fn text_helpers() {
    assert_eq!(chars_of("héllo"), chars("héllo"));
    assert_eq!(string_of(&chars("héllo")), "héllo");
    assert_eq!(to_uppercase(&chars("mov ß")), chars("MOV SS"));
    assert_eq!(trim(&chars(" \t a b \u{a0}")), &chars("a b")[..]);
    assert_eq!(trim_start(&chars("  a ")), &chars("a ")[..]);
    assert_eq!(trim(&chars("   ")), &chars("")[..]);
    let line = chars("a,,b,");
    let pieces: Vec<String> = split(&line, ',').iter().map(|p| p.iter().collect()).collect();
    assert_eq!(pieces, vec!["a", "", "b", ""]);
    let empty = chars("");
    assert_eq!(split(&empty, ',').len(), 1);
    let line = chars("  one\ttwo \u{2003} three ");
    let pieces: Vec<String> = tokens(&line).iter().map(|p| p.iter().collect()).collect();
    assert_eq!(pieces, vec!["one", "two", "three"]);
    let line = chars(" A , #5,, x ");
    let pieces: Vec<String> = operands(&line).iter().map(|p| p.iter().collect()).collect();
    assert_eq!(pieces, vec!["A", "#5", "x"]);
}

#[test]
fn integers_of_sixteen_bits() {
    let cases: [(&str, Option<u16>); 22] = [
        ("0", Some(0)),
        ("65535", Some(65535)),
        ("65536", None),
        ("-1", Some(0xFFFF)),
        ("-32768", Some(0x8000)),
        ("-32769", None),
        ("+7", Some(7)),
        ("$ffff", Some(0xFFFF)),
        ("$FfFf", Some(0xFFFF)),
        ("$10000", None),
        ("$-1", Some(0xFFFF)),
        ("$", None),
        ("%1010", Some(10)),
        ("%2", None),
        ("017", Some(15)),
        ("08", None),
        ("00", Some(0)),
        ("", None),
        ("-", None),
        ("+", None),
        ("12a", None),
        ("１２", None),
    ];
    for (text, expected) in cases {
        assert_eq!(parse_integer16(&chars(text)), expected, "{text:?}");
    }
}

#[test]
fn integers_of_eight_bits() {
    let cases: [(&str, Option<u8>); 10] = [
        ("0", Some(0)),
        ("255", Some(255)),
        ("256", None),
        ("-1", Some(0xFF)),
        ("-128", Some(0x80)),
        ("-129", None),
        ("$80", Some(0x80)),
        ("%11111111", Some(0xFF)),
        ("0377", Some(0xFF)),
        ("0400", None),
    ];
    for (text, expected) in cases {
        assert_eq!(parse_integer8(&chars(text)), expected, "{text:?}");
    }
}

#[test]
fn symbols_and_registers() {
    assert_eq!(parse_symbol(&chars("loop_1.a-b+c")), Ok("loop_1.a-b+c".to_string()));
    assert_eq!(parse_symbol(&chars("été")), Ok("été".to_string()));
    assert_eq!(parse_symbol(&chars("a b")), Err(()));
    assert_eq!(parse_symbol(&chars("a!")), Err(()));
    assert_eq!(parse_symbol(&chars("$x")), Err(()));
    assert_eq!(parse_symbol(&chars("sp")), Err(()));
    assert_eq!(parse_symbol(&chars("Flags")), Err(()));
    assert_eq!(parse_register(&chars("a")), Ok(0));
    assert_eq!(parse_register(&chars("Sp")), Ok(5));
    assert_eq!(parse_register(&chars("pc")), Ok(6));
    assert_eq!(parse_register(&chars("FLAGS")), Ok(7));
    assert_eq!(
        parse_register(&chars("E")),
        Err(InstructionError::InvalidRegister("E".to_string()))
    );
    assert_eq!(parse_register_pair(&chars("sp"), &chars("d")), Ok(0x53));
    assert_eq!(
        parse_register_pair(&chars("x"), &chars("y")),
        Err(InstructionError::InvalidRegister("x".to_string()))
    );
    assert_eq!(
        parse_register_pair(&chars("a"), &chars("y")),
        Err(InstructionError::InvalidRegister("y".to_string()))
    );
}

#[test]
fn operands_of_each_kind() {
    assert_eq!(parse_address(&chars("$8000")), Ok(Value::Literal(0x8000)));
    assert_eq!(parse_address(&chars("target")), Ok(Value::Symbol("target".to_string())));
    assert_eq!(
        parse_address(&chars("#5")),
        Err(InstructionError::InvalidNumber("#5".to_string()))
    );
    assert_eq!(parse_immediate(&chars("#5")), Ok(Value::Literal(5)));
    assert_eq!(parse_immediate(&chars("W#-1")), Ok(Value::Literal(0xFFFF)));
    assert_eq!(parse_immediate(&chars("#msg")), Ok(Value::Symbol("msg".to_string())));
    assert_eq!(
        parse_immediate(&chars("B#5")),
        Err(InstructionError::InvalidImmediate("B#5".to_string()))
    );
    assert_eq!(
        parse_immediate(&chars("#$")),
        Err(InstructionError::InvalidNumber("$".to_string()))
    );
    assert_eq!(parse_immediate8(&chars("B#255")), Ok(Value::Literal(255)));
    assert_eq!(
        parse_immediate8(&chars("#name")),
        Err(InstructionError::InvalidNumber("name".to_string()))
    );
    assert_eq!(
        parse_immediate8(&chars("W#1")),
        Err(InstructionError::InvalidImmediate("W#1".to_string()))
    );
    assert_eq!(parse_immediate8_symbol(&chars("#name")), Ok(Value::Symbol("name".to_string())));
    assert_eq!(parse_immediate8_symbol(&chars("#-2")), Ok(Value::Literal(0xFE)));
}

#[test]
fn labels_are_symbols_before_a_colon() {
    let line = chars("  loop: next:NOP");
    assert_eq!(parse_label(&line, 0), Some((2, 6)));
    assert_eq!(parse_label(&line, 7), Some((8, 12)));
    assert_eq!(parse_label(&line, 13), None);
    assert_eq!(parse_label(&chars("JMP x ; a: b"), 0), None);
    assert_eq!(parse_label(&chars("sp: NOP"), 0), None);
    assert_eq!(parse_label(&chars(": NOP"), 0), None);
    assert_eq!(compile("x: y: .dw x y\nz: .dw z").unwrap(), vec![0, 0x80, 0, 0x80, 4, 0x80]);
}

#[test]
fn whitespace_of_any_kind_separates() {
    assert_eq!(compile_line("\tLDI\u{a0}A ,\t#1 "), Some(vec![0x00, 0x00, 0x01, 0x00]));
    assert_eq!(compile(".db\u{2003}1\n.dw\t2").unwrap(), vec![1, 2, 0]);
    assert_eq!(compile(".db 1\t2\u{2003}3").unwrap(), vec![1, 2, 3]);
    assert_eq!(compile("  \t .ascii   \"a b\"  ").unwrap(), vec![b'a', b' ', b'b']);
    assert_eq!(compile(".ascii \"é;\"").unwrap(), vec![0xC3, 0xA9, b';']);
    assert_eq!(compile(".db 1 ; two\n.org $8003 ; three\n.db 4").unwrap(), vec![1, 0, 0, 4]);
}

#[test]
fn table_is_walked_in_order() {
    let table = instructions();
    assert_eq!(table.len(), 16 + 19 + 12 + 8 + 128 + 12);
    assert_eq!(table[0].mnemonic, "LD");
    assert_eq!(table[0].operands, vec![OperandType::Address]);
    assert_eq!(OperandType::Word.to_string(), "#imm16");
    assert_eq!(OperandType::Const("SP".to_string()).to_string(), "SP");
    let emission = parse_instruction(&table, &chars("jne there, PC ; back")).unwrap();
    assert_eq!(emission.bytes, vec![0xC9, 0x08, 0x00]);
    assert_eq!(emission.symbols.len(), 1);
    assert_eq!(emission.symbols[0].offset, 2);
    assert_eq!(emission.symbols[0].symbol, "there");
    assert_eq!(emission.symbols[0].width, 1);
    let emission = parse_instruction(&table, &chars("ST buffer, B")).unwrap();
    assert_eq!(emission.bytes, vec![0x18, 0, 0, 1]);
    assert_eq!(emission.symbols[0].offset, 1);
    assert_eq!(emission.symbols[0].width, 2);
    assert_eq!(compile_line("ST buffer, B"), None);
    assert_eq!(
        parse_instruction(&[], &chars("NOP")).err(),
        Some(InstructionError::InvalidMnemonic("NOP".to_string()))
    );
    assert_eq!(parse_instruction(&[], &chars("  ; nothing")).unwrap().bytes, Vec::<u8>::new());
}

#[test]
fn symbol_values_are_checked_against_the_patch_width() {
    assert_eq!(compile(".def v 255\nv2: .db v").unwrap(), vec![0xFF]);
    assert_eq!(compile(".def v -128\n.db v").unwrap(), vec![0x80]);
    assert_eq!(
        compile(".def v 256\n.db v"),
        Err((None, CompileError::SymbolOutOfRange("v".to_string(), 1)))
    );
    assert_eq!(
        compile(".def v -129\n.db v"),
        Err((None, CompileError::SymbolOutOfRange("v".to_string(), 1)))
    );
    assert_eq!(compile(".dw later\n.def later $1234").unwrap(), vec![0x34, 0x12]);
}

#[test]
fn every_word_reads_back_in_every_radix() {
    for value in (0u32..=0xFFFF).step_by(7).chain([0xFFFF]) {
        let word = value as u16;
        assert_eq!(parse_integer16(&chars(&format!("{value}"))), Some(word));
        assert_eq!(parse_integer16(&chars(&format!("+{value}"))), Some(word));
        assert_eq!(parse_integer16(&chars(&format!("${value:x}"))), Some(word));
        assert_eq!(parse_integer16(&chars(&format!("${value:04X}"))), Some(word));
        assert_eq!(parse_integer16(&chars(&format!("%{value:b}"))), Some(word));
        assert_eq!(parse_integer16(&chars(&format!("0{value:o}"))), Some(word));
        assert_eq!(parse_integer16(&chars(&format!("{}", value + 0x10000))), None);
    }
    for value in (-0x8000i32..0).step_by(5) {
        let word = (value + 0x10000) as u16;
        assert_eq!(parse_integer16(&chars(&format!("{value}"))), Some(word));
        assert_eq!(parse_integer16(&chars(&format!("$-{:x}", -value))), Some(word));
        assert_eq!(parse_integer16(&chars(&format!("{}", value - 0x8000))), None);
    }
    for value in 0u32..=0xFF {
        let byte = value as u8;
        assert_eq!(parse_integer8(&chars(&format!("{value}"))), Some(byte));
        assert_eq!(parse_integer8(&chars(&format!("${value:x}"))), Some(byte));
        assert_eq!(parse_integer8(&chars(&format!("{}", value + 0x100))), None);
    }
    for value in -0x80i32..0 {
        assert_eq!(parse_integer8(&chars(&format!("{value}"))), Some((value + 0x100) as u8));
        assert_eq!(parse_integer8(&chars(&format!("{}", value - 0x80))), None);
    }
}
