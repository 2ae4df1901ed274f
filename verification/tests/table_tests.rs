use cpu16::agreement::{check_row, check_table, classes_of, ByteClass};
use cpu16::compile::{assemble, compile};
use cpu16::table::{instructions, OperandType, Row};
use cpu16::tsv::{contains, matches_at, parse_operand, read_table, replace, TableError};

fn chars(text: &str) -> Vec<char> {
    text.chars().collect()
}

const TABLE: &str = "Op\tMnemonic\tOperand 1\tOperand 2\tOperand 3\tBytes\tDescription\r
04\tLD\taddr\t\t\t3\tload byte\r
05\tLD\trel\tSP\t\t2\tload byte from stack\r
08\tLD\taddr\treg\t\t4\tload byte indexed\r
08\tLD\t!0\t!0\treg\t4\tload byte through register\r
11\tST\taddr\t\t\t3\tstore byte\r
00\tLDI\treg\t#imm16\t\t4\tload immediate\r
20\tMOV\tdst\tsrc\t\t2\tmove\r
20\tNOP\t!0\t\t\t2\tno operation\r
\t\t\t\t\t\t\r
zz\t# a comment row\t\t\t\t\t\r
74\tINC\treg\t\t\t2\tincrement\r
80\tTEST\treg\t\t\t2\ttest\r
C0\tJMP\taddr\t\t\t3\tjump\r
C1\tJMP\trel\tPC\t\t2\tjump relative\r
D0\tCALL\taddr\t\t\t3\tcall\r
C8\tJ{cc}\taddr\t\t\t4\tjump if\r
C9\tJ{cc}\trel\tPC\t\t3\tjump relative if\r
EC\tRET\t!6\t\t\t2\treturn\r
F2\tINT\t#imm8\t\t\t2\tinterrupt\r
FF\tSET\t!128\t!0\tHLT\t3\thalt\r
FF\tSE{flag}\t\t\t\t3\tset flag\r
";

#[test]
fn table_text_is_read_row_by_row() {
    let table = read_table(TABLE).unwrap();
    assert_eq!(table.len(), 8 + 2 + 3 + 32 + 32 + 3 + 6);
    assert_eq!(table[0], Row {
        opcode: 0x04,
        mnemonic: "LD".to_string(),
        operands: vec![OperandType::Address]
    });
    assert_eq!(table[1].operands, vec![OperandType::Offset, OperandType::Const("SP".to_string())]);
    assert_eq!(table[3].operands, vec![
        OperandType::Hidden(0),
        OperandType::Hidden(0),
        OperandType::Register
    ]);
    assert_eq!(table[5].operands, vec![OperandType::Register, OperandType::Word]);
    assert_eq!(table[6], Row {
        opcode: 0x20,
        mnemonic: "MOV".to_string(),
        operands: vec![OperandType::RegisterPair]
    });
    let jb = &table[13];
    assert_eq!(jb.mnemonic, "JB");
    assert_eq!(jb.operands, vec![OperandType::Hidden(2), OperandType::Address]);
    let jno = &table[13 + 31];
    assert_eq!((jno.opcode, jno.mnemonic.as_str()), (0xC8, "JNO"));
    assert_eq!(jno.operands, vec![OperandType::Hidden(0xB), OperandType::Address]);
    let relative = &table[13 + 32];
    assert_eq!((relative.opcode, relative.mnemonic.as_str()), (0xC9, "JB"));
    assert_eq!(relative.operands, vec![
        OperandType::Hidden(2),
        OperandType::Offset,
        OperandType::Const("PC".to_string())
    ]);
    let last = &table[table.len() - 1];
    assert_eq!((last.opcode, last.mnemonic.as_str()), (0xFF, "SEHLT"));
    assert_eq!(last.operands, vec![OperandType::Hidden(0x80), OperandType::Hidden(0)]);
    let first_flag = &table[table.len() - 6];
    assert_eq!(first_flag.mnemonic, "SEZF");
    assert_eq!(first_flag.operands, vec![OperandType::Hidden(1), OperandType::Hidden(0)]);
    assert!(check_table(&table));
}

#[test]
fn a_table_read_from_text_assembles_like_the_built_in_one() {
    let table = read_table(TABLE).unwrap();
    let source = "start: LDI B, #msg\ncall print\nSET HLT\nprint: LD B\nTEST A\nJZ done\nST $7F00\nINC B\nJMP print\ndone: RET\nmsg: .ascii \"Hi!\"\njne -3, PC\nmov sp, a\nnop\nint #3";
    let text: Vec<char> = source.chars().collect();
    assert_eq!(assemble(&table, &text), compile(source));
    assert!(compile(source).is_ok());
}

#[test]
fn two_operand_columns_leave_the_third_alone() {
    let text = "Op\tMnemonic\tOperand 1\tOperand 2\tBytes\tDescription\n08\tLD\taddr\treg\t4\tindexed\n20\tMOV\tdst\tsrc\t2\tmove";
    let table = read_table(text).unwrap();
    assert_eq!(table.len(), 2);
    assert_eq!(table[0].operands, vec![OperandType::Address, OperandType::Register]);
    assert_eq!(table[1].operands, vec![OperandType::RegisterPair]);
    let text = "Op\tMnemonic\tOperand 1\tOperand 2\tOperand 3\tBytes\tDescription\n20\tMOV\tdst\tsrc\tX\t2\tmove";
    let table = read_table(text).unwrap();
    assert_eq!(table[0].operands, vec![
        OperandType::Register,
        OperandType::Register,
        OperandType::Const("X".to_string())
    ]);
}

#[test]
fn table_errors_name_line_and_text() {
    assert_eq!(read_table(""), Ok(vec![]));
    assert_eq!(read_table("header only"), Ok(vec![]));
    assert_eq!(
        read_table("h\nXY\tNOP"),
        Err(TableError::InvalidOpcode(1, "XY".to_string()))
    );
    assert_eq!(
        read_table("h\n20\tNOP\n100\tBIG"),
        Err(TableError::InvalidOpcode(2, "100".to_string()))
    );
    assert_eq!(
        read_table("h\n20\tNOP\t!256"),
        Err(TableError::InvalidHidden(1, "!256".to_string()))
    );
    assert_eq!(
        read_table("h\n20\tNOP\t!0\t!x"),
        Err(TableError::InvalidHidden(1, "!x".to_string()))
    );
}

#[test]
fn operand_columns() {
    assert_eq!(parse_operand(&chars("")), Ok(None));
    assert_eq!(parse_operand(&chars("addr")), Ok(Some(OperandType::Address)));
    for name in ["dst", "src", "reg"] {
        assert_eq!(parse_operand(&chars(name)), Ok(Some(OperandType::Register)));
    }
    for name in ["#imm8", "imm8"] {
        assert_eq!(parse_operand(&chars(name)), Ok(Some(OperandType::Byte)));
    }
    for name in ["#imm", "#imm16", "imm", "imm16"] {
        assert_eq!(parse_operand(&chars(name)), Ok(Some(OperandType::Word)));
    }
    assert_eq!(parse_operand(&chars("rel")), Ok(Some(OperandType::Offset)));
    assert_eq!(parse_operand(&chars("!7")), Ok(Some(OperandType::Hidden(7))));
    assert_eq!(parse_operand(&chars("!")), Err(()));
    assert_eq!(parse_operand(&chars("!-1")), Err(()));
    assert_eq!(parse_operand(&chars("SP")), Ok(Some(OperandType::Const("SP".to_string()))));
}

#[test]
fn templates_are_replaced_everywhere() {
    assert!(contains(&chars("J{cc}"), "{cc}"));
    assert!(!contains(&chars("J{c}"), "{cc}"));
    assert!(!contains(&chars(""), "{cc}"));
    assert!(matches_at(&chars("ab{cc}"), 2, "{cc}"));
    assert!(!matches_at(&chars("ab{cc}"), 3, "{cc}"));
    assert_eq!(replace(&chars("J{cc}.{cc}x"), "{cc}", "NE"), chars("JNE.NEx"));
    assert_eq!(replace(&chars("aaa"), "aa", "b"), chars("ba"));
    assert_eq!(replace(&chars("abc"), "x", "y"), chars("abc"));
}

#[test]
fn the_built_in_table_agrees_with_the_decoder() {
    let table = instructions();
    assert!(check_table(&table));
    assert_eq!(classes_of(&table[3].operands), vec![
        ByteClass::Fixed(0),
        ByteClass::Fixed(0),
        ByteClass::Register
    ]);
    let stray = Row { opcode: 0x01, mnemonic: "X".to_string(), operands: vec![] };
    assert!(!check_row(&stray));
    let short = Row { opcode: 0x04, mnemonic: "LD".to_string(), operands: vec![OperandType::Byte] };
    assert!(!check_row(&short));
    let reserved = Row {
        opcode: 0xC8,
        mnemonic: "JX".to_string(),
        operands: vec![OperandType::Hidden(4), OperandType::Address],
    };
    assert!(!check_row(&reserved));
    let register = Row {
        opcode: 0xEC,
        mnemonic: "RET".to_string(),
        operands: vec![OperandType::Hidden(4)],
    };
    assert!(!check_row(&register));
}
