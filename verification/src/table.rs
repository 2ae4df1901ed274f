//! The instruction table: for each way of writing an instruction, its
//! opcode, its mnemonic and the schema of its operands.

use vstd::prelude::*;
use crate::condition::{
    condition_at, condition_name, spec_condition_at, spec_condition_name, CONDITION_NAMES,
};
use crate::flag::Flag;
use crate::memory::{high_byte, low_byte, split_word};
use crate::text::string_of;

verus! {

/// What one entry of an operand schema asks for.
#[derive(Debug, PartialEq, Eq, Hash, Clone)]
pub enum OperandType {
    /// A 16-bit address: a number or a symbol.
    Address,
    /// A signed 8-bit offset: a number or a symbol.
    Offset,
    /// An 8-bit immediate, written with `#` or `B#`.
    Byte,
    /// A 16-bit immediate, written with `#` or `W#`: a number or a symbol.
    Word,
    /// The name of a register, emitted as its code.
    Register,
    /// Two register names, destination first, emitted as one packed byte.
    RegisterPair,
    /// An operand that must be exactly this text; nothing is emitted.
    Const(String),
    /// No textual operand; the byte is emitted as it is.
    Hidden(u8),
}

/// What one entry of an operand schema asks for, as plain values.
pub ghost enum Operand {
    Address,
    Offset,
    Byte,
    Word,
    Register,
    RegisterPair,
    Const(Seq<char>),
    Hidden(u8),
}

impl View for OperandType {
    type V = Operand;

    open spec fn view(&self) -> Operand {
        match self {
            OperandType::Address => Operand::Address,
            OperandType::Offset => Operand::Offset,
            OperandType::Byte => Operand::Byte,
            OperandType::Word => Operand::Word,
            OperandType::Register => Operand::Register,
            OperandType::RegisterPair => Operand::RegisterPair,
            OperandType::Const(text) => Operand::Const(text@),
            OperandType::Hidden(byte) => Operand::Hidden(*byte),
        }
    }
}

impl Operand {
    /// How the operand is called in a diagnostic.
    pub open spec fn slot(self) -> Seq<char> {
        match self {
            Operand::Address => "addr"@,
            Operand::Offset => "rel"@,
            Operand::Byte => "#imm8"@,
            Operand::Word => "#imm16"@,
            Operand::Register => "reg"@,
            Operand::RegisterPair => "dst, src"@,
            Operand::Const(text) => text,
            Operand::Hidden(_) => "hidden"@,
        }
    }

    /// How many bytes the operand emits.
    pub open spec fn width(self) -> int {
        match self {
            Operand::Address | Operand::Word => 2,
            Operand::Const(_) => 0,
            _ => 1,
        }
    }
}

impl OperandType {
    /// How the operand is called in a diagnostic.
    pub fn to_string(&self) -> (text: String)
        ensures
            text@ == self@.slot(),
    {
        match self {
            OperandType::Address => String::from_str("addr"),
            OperandType::Offset => String::from_str("rel"),
            OperandType::Byte => String::from_str("#imm8"),
            OperandType::Word => String::from_str("#imm16"),
            OperandType::Register => String::from_str("reg"),
            OperandType::RegisterPair => String::from_str("dst, src"),
            OperandType::Const(text) => text.clone(),
            OperandType::Hidden(_) => String::from_str("hidden"),
        }
    }

    /// A copy of the entry.
    pub fn copy(&self) -> (entry: OperandType)
        ensures
            entry@ == self@,
    {
        match self {
            OperandType::Address => OperandType::Address,
            OperandType::Offset => OperandType::Offset,
            OperandType::Byte => OperandType::Byte,
            OperandType::Word => OperandType::Word,
            OperandType::Register => OperandType::Register,
            OperandType::RegisterPair => OperandType::RegisterPair,
            OperandType::Const(text) => OperandType::Const(text.clone()),
            OperandType::Hidden(byte) => OperandType::Hidden(*byte),
        }
    }
}

/// One row of the instruction table.
#[derive(Debug, PartialEq, Eq, Hash, Clone)]
pub struct Row {
    pub opcode: u8,
    /// The mnemonic, in upper case.
    pub mnemonic: String,
    pub operands: Vec<OperandType>,
}

/// One row of the instruction table, as plain values.
pub ghost struct RowView {
    pub opcode: u8,
    pub mnemonic: Seq<char>,
    pub operands: Seq<Operand>,
}

/// The schema that a sequence of operand types stands for.
pub open spec fn schema_view(operands: Seq<OperandType>) -> Seq<Operand> {
    Seq::new(operands.len(), |i: int| operands[i]@)
}

impl View for Row {
    type V = RowView;

    open spec fn view(&self) -> RowView {
        RowView {
            opcode: self.opcode,
            mnemonic: self.mnemonic@,
            operands: schema_view(self.operands@),
        }
    }
}

/// The rows that a table holds, as plain values.
pub open spec fn table_view(rows: Seq<Row>) -> Seq<RowView> {
    Seq::new(rows.len(), |i: int| rows[i]@)
}

/// A row made of its parts.
pub open spec fn row(opcode: u8, mnemonic: Seq<char>, operands: Seq<Operand>) -> RowView {
    RowView { opcode, mnemonic, operands }
}

/// The four rows of a load or store mnemonic: absolute, relative to the
/// stack pointer, indexed by a register, and through a register alone,
/// which is the indexed form at address zero.
pub open spec fn transfer_rows(mnemonic: Seq<char>, absolute: u8, stack: u8, indexed: u8) -> Seq<
    RowView,
> {
    seq![
        row(absolute, mnemonic, seq![Operand::Address]),
        row(stack, mnemonic, seq![Operand::Offset, Operand::Const("SP"@)]),
        row(indexed, mnemonic, seq![Operand::Address, Operand::Register]),
        row(indexed, mnemonic, seq![Operand::Hidden(0), Operand::Hidden(0), Operand::Register]),
    ]
}

/// The four rows of a branch mnemonic, one for each kind of target, each
/// behind the hidden bytes that the mnemonic stands for.
pub open spec fn branch_rows(mnemonic: Seq<char>, base: u8, hidden: Seq<Operand>) -> Seq<RowView> {
    seq![
        row(base, mnemonic, hidden + seq![Operand::Address]),
        row((base + 1) as u8, mnemonic, hidden + seq![Operand::Offset, Operand::Const("PC"@)]),
        row((base + 2) as u8, mnemonic, hidden + seq![Operand::Offset, Operand::Const("SP"@)]),
        row((base + 4) as u8, mnemonic, hidden + seq![Operand::Address, Operand::Register]),
    ]
}

/// The rows of the conditional branch for the first `count` condition
/// names: the mnemonic is `J` and the name, and the condition's code goes
/// first as a hidden byte.
pub open spec fn conditional_rows(count: int) -> Seq<RowView>
    decreases count,
{
    if count <= 0 {
        Seq::<RowView>::empty()
    } else {
        conditional_rows(count - 1) + branch_rows(
            "J"@ + spec_condition_name(count - 1),
            0xC8,
            seq![Operand::Hidden(spec_condition_at(count - 1).spec_code() as u8)],
        )
    }
}

/// The row that sets or clears one flag: the two bytes of the flag's mask
/// go first as hidden bytes, and the flag's symbol is the operand.
pub open spec fn flag_row(opcode: u8, mnemonic: Seq<char>, flag: Flag) -> RowView {
    row(
        opcode,
        mnemonic,
        seq![
            Operand::Hidden(low_byte(flag.spec_bitmask())),
            Operand::Hidden(high_byte(flag.spec_bitmask())),
            Operand::Const(flag.spec_name()),
        ],
    )
}

/// The rows of a mnemonic that sets or clears a flag, one for each flag.
pub open spec fn flag_rows(opcode: u8, mnemonic: Seq<char>) -> Seq<RowView> {
    seq![
        flag_row(opcode, mnemonic, Flag::Zero),
        flag_row(opcode, mnemonic, Flag::Sign),
        flag_row(opcode, mnemonic, Flag::Carry),
        flag_row(opcode, mnemonic, Flag::Overflow),
        flag_row(opcode, mnemonic, Flag::EnableInterrupt),
        flag_row(opcode, mnemonic, Flag::Halt),
    ]
}

/// A row without textual operands that stands for a flag being set or
/// cleared.
pub open spec fn flag_alias_row(opcode: u8, mnemonic: Seq<char>, flag: Flag) -> RowView {
    row(
        opcode,
        mnemonic,
        seq![
            Operand::Hidden(low_byte(flag.spec_bitmask())),
            Operand::Hidden(high_byte(flag.spec_bitmask())),
        ],
    )
}

/// The rows of the operations on one register operand.
pub open spec fn register_rows() -> Seq<RowView> {
    seq![
        row(0x40, "AND"@, seq![Operand::Register]),
        row(0x44, "OR"@, seq![Operand::Register]),
        row(0x48, "XOR"@, seq![Operand::Register]),
        row(0x4C, "SHL"@, seq![Operand::Register]),
        row(0x50, "SHR"@, seq![Operand::Register]),
        row(0x54, "ADD"@, seq![Operand::Register]),
        row(0x58, "SUB"@, seq![Operand::Register]),
        row(0x5C, "ROL"@, seq![Operand::Register]),
        row(0x60, "ROR"@, seq![Operand::Register]),
        row(0x64, "ADC"@, seq![Operand::Register]),
        row(0x68, "SBB"@, seq![Operand::Register]),
        row(0x6C, "NEG"@, seq![Operand::Register]),
        row(0x70, "NOT"@, seq![Operand::Register]),
        row(0x74, "INC"@, seq![Operand::Register]),
        row(0x78, "DEC"@, seq![Operand::Register]),
        row(0x7C, "CMP"@, seq![Operand::Register]),
        row(0x80, "TEST"@, seq![Operand::Register]),
        row(0xE8, "PUSH"@, seq![Operand::Register]),
        row(0xEC, "POP"@, seq![Operand::Register]),
    ]
}

/// The rows that fit no family: immediates, moves, returns, interrupts and
/// the short forms for single flags.
pub open spec fn single_rows() -> Seq<RowView> {
    seq![
        row(0x00, "LDI"@, seq![Operand::Register, Operand::Word]),
        row(0x20, "MOV"@, seq![Operand::RegisterPair]),
        row(0x20, "NOP"@, seq![Operand::Hidden(0)]),
        row(0xA8, "CMP"@, seq![Operand::Register, Operand::Word]),
        row(0xAC, "TEST"@, seq![Operand::Register, Operand::Word]),
        row(0xEC, "RET"@, seq![Operand::Hidden(6)]),
        row(0xF2, "INT"@, seq![Operand::Byte]),
        row(0xF3, "IRET"@, Seq::<Operand>::empty()),
        flag_alias_row(0xFF, "EI"@, Flag::EnableInterrupt),
        flag_alias_row(0xFE, "DI"@, Flag::EnableInterrupt),
        flag_alias_row(0xFF, "HLT"@, Flag::Halt),
        flag_alias_row(0xFF, "HALT"@, Flag::Halt),
    ]
}

/// The instruction table. Rows are tried in this order, so of two rows that
/// both fit a line the earlier one decides.
pub open spec fn isa_table() -> Seq<RowView> {
    transfer_rows("LD"@, 0x04, 0x05, 0x08) + transfer_rows("LDW"@, 0x06, 0x07, 0x0C)
        + transfer_rows("ST"@, 0x11, 0x12, 0x18) + transfer_rows("STW"@, 0x15, 0x16, 0x1C)
        + register_rows() + single_rows() + branch_rows("JMP"@, 0xC0, Seq::<Operand>::empty())
        + branch_rows("CALL"@, 0xD0, Seq::<Operand>::empty()) + conditional_rows(
        CONDITION_NAMES as int,
    ) + flag_rows(0xFF, "SET"@) + flag_rows(0xFE, "CLR"@)
}

/// Appends one row to a table.
fn push_row(table: &mut Vec<Row>, opcode: u8, mnemonic: &str, operands: Vec<OperandType>)
    ensures
        table_view(final(table)@) == table_view(old(table)@).push(
            row(opcode, mnemonic@, schema_view(operands@)),
        ),
{
    let ghost before = table@;
    let entry = Row { opcode, mnemonic: mnemonic.to_owned(), operands };
    table.push(entry);
    assert(table_view(table@) =~= table_view(before).push(
        row(opcode, mnemonic@, schema_view(operands@)),
    ));
}

/// A schema of the given entries after the given hidden bytes.
fn schema_after(hidden: &Vec<OperandType>, entries: Vec<OperandType>) -> (schema: Vec<OperandType>)
    ensures
        schema_view(schema@) == schema_view(hidden@) + schema_view(entries@),
{
    let mut schema: Vec<OperandType> = Vec::new();
    let mut i: usize = 0;
    while i < hidden.len()
        invariant
            i <= hidden@.len(),
            schema_view(schema@) == schema_view(hidden@.subrange(0, i as int)),
        decreases hidden@.len() - i,
    {
        let ghost before = schema@;
        schema.push(hidden[i].copy());
        i = i + 1;
        assert(schema_view(schema@) =~= schema_view(before).push(hidden@[i - 1]@));
        assert(schema_view(schema@) =~= schema_view(hidden@.subrange(0, i as int)));
    }
    assert(hidden@.subrange(0, hidden@.len() as int) =~= hidden@);
    let mut j: usize = 0;
    while j < entries.len()
        invariant
            j <= entries@.len(),
            schema_view(schema@) == schema_view(hidden@) + schema_view(
                entries@.subrange(0, j as int),
            ),
        decreases entries@.len() - j,
    {
        let ghost before = schema@;
        schema.push(entries[j].copy());
        j = j + 1;
        assert(schema_view(schema@) =~= schema_view(before).push(entries@[j - 1]@));
        assert(schema_view(schema@) =~= schema_view(hidden@) + schema_view(
            entries@.subrange(0, j as int),
        ));
    }
    assert(entries@.subrange(0, entries@.len() as int) =~= entries@);
    schema
}

/// Appends the four rows of a load or store mnemonic.
fn push_transfer_rows(table: &mut Vec<Row>, mnemonic: &str, absolute: u8, stack: u8, indexed: u8)
    ensures
        table_view(final(table)@) == table_view(old(table)@) + transfer_rows(
            mnemonic@,
            absolute,
            stack,
            indexed,
        ),
{
    let first = vec![OperandType::Address];
    assert(schema_view(first@) =~= seq![Operand::Address]);
    push_row(table, absolute, mnemonic, first);
    let second = vec![OperandType::Offset, OperandType::Const(String::from_str("SP"))];
    assert(schema_view(second@) =~= seq![Operand::Offset, Operand::Const("SP"@)]);
    push_row(table, stack, mnemonic, second);
    let third = vec![OperandType::Address, OperandType::Register];
    assert(schema_view(third@) =~= seq![Operand::Address, Operand::Register]);
    push_row(table, indexed, mnemonic, third);
    let fourth = vec![OperandType::Hidden(0), OperandType::Hidden(0), OperandType::Register];
    assert(schema_view(fourth@) =~= seq![
        Operand::Hidden(0),
        Operand::Hidden(0),
        Operand::Register,
    ]);
    push_row(table, indexed, mnemonic, fourth);
    assert(table_view(table@) =~= table_view(old(table)@) + transfer_rows(
        mnemonic@,
        absolute,
        stack,
        indexed,
    ));
}

/// Appends the four rows of a branch mnemonic.
fn push_branch_rows(table: &mut Vec<Row>, mnemonic: &str, base: u8, hidden: &Vec<OperandType>)
    requires
        base <= 0xF0,
    ensures
        table_view(final(table)@) == table_view(old(table)@) + branch_rows(
            mnemonic@,
            base,
            schema_view(hidden@),
        ),
{
    let first = vec![OperandType::Address];
    assert(schema_view(first@) =~= seq![Operand::Address]);
    push_row(table, base, mnemonic, schema_after(hidden, first));
    let second = vec![OperandType::Offset, OperandType::Const(String::from_str("PC"))];
    assert(schema_view(second@) =~= seq![Operand::Offset, Operand::Const("PC"@)]);
    push_row(table, base + 1, mnemonic, schema_after(hidden, second));
    let third = vec![OperandType::Offset, OperandType::Const(String::from_str("SP"))];
    assert(schema_view(third@) =~= seq![Operand::Offset, Operand::Const("SP"@)]);
    push_row(table, base + 2, mnemonic, schema_after(hidden, third));
    let fourth = vec![OperandType::Address, OperandType::Register];
    assert(schema_view(fourth@) =~= seq![Operand::Address, Operand::Register]);
    push_row(table, base + 4, mnemonic, schema_after(hidden, fourth));
    assert(table_view(table@) =~= table_view(old(table)@) + branch_rows(
        mnemonic@,
        base,
        schema_view(hidden@),
    ));
}

/// Appends the rows of the conditional branch, four for each condition
/// name.
fn push_conditional_rows(table: &mut Vec<Row>)
    ensures
        table_view(final(table)@) == table_view(old(table)@) + conditional_rows(
            CONDITION_NAMES as int,
        ),
{
    let mut index: usize = 0;
    assert(table_view(table@) =~= table_view(old(table)@) + conditional_rows(0));
    while index < CONDITION_NAMES
        invariant
            index <= CONDITION_NAMES,
            table_view(table@) == table_view(old(table)@) + conditional_rows(index as int),
        decreases CONDITION_NAMES - index,
    {
        let mnemonic = String::from_str("J").concat(condition_name(index));
        let hidden = vec![OperandType::Hidden(condition_at(index).code())];
        assert(schema_view(hidden@) =~= seq![
            Operand::Hidden(spec_condition_at(index as int).spec_code() as u8),
        ]);
        push_branch_rows(table, mnemonic.as_str(), 0xC8, &hidden);
        index = index + 1;
        assert(table_view(table@) =~= table_view(old(table)@) + conditional_rows(index as int));
    }
}

/// The schema of a row that sets or clears one flag, with or without the
/// flag's symbol as operand.
fn flag_schema(flag: Flag, named: bool) -> (schema: Vec<OperandType>)
    ensures
        schema_view(schema@) == if named {
            seq![
                Operand::Hidden(low_byte(flag.spec_bitmask())),
                Operand::Hidden(high_byte(flag.spec_bitmask())),
                Operand::Const(flag.spec_name()),
            ]
        } else {
            seq![
                Operand::Hidden(low_byte(flag.spec_bitmask())),
                Operand::Hidden(high_byte(flag.spec_bitmask())),
            ]
        },
{
    let (low, high) = split_word(flag.to_bitmask());
    if named {
        let schema = vec![
            OperandType::Hidden(low),
            OperandType::Hidden(high),
            OperandType::Const(String::from_str(flag.name())),
        ];
        assert(schema_view(schema@) =~= seq![
            Operand::Hidden(low_byte(flag.spec_bitmask())),
            Operand::Hidden(high_byte(flag.spec_bitmask())),
            Operand::Const(flag.spec_name()),
        ]);
        schema
    } else {
        let schema = vec![OperandType::Hidden(low), OperandType::Hidden(high)];
        assert(schema_view(schema@) =~= seq![
            Operand::Hidden(low_byte(flag.spec_bitmask())),
            Operand::Hidden(high_byte(flag.spec_bitmask())),
        ]);
        schema
    }
}

/// Appends the rows of a mnemonic that sets or clears a flag.
fn push_flag_rows(table: &mut Vec<Row>, opcode: u8, mnemonic: &str)
    ensures
        table_view(final(table)@) == table_view(old(table)@) + flag_rows(opcode, mnemonic@),
{
    push_row(table, opcode, mnemonic, flag_schema(Flag::Zero, true));
    push_row(table, opcode, mnemonic, flag_schema(Flag::Sign, true));
    push_row(table, opcode, mnemonic, flag_schema(Flag::Carry, true));
    push_row(table, opcode, mnemonic, flag_schema(Flag::Overflow, true));
    push_row(table, opcode, mnemonic, flag_schema(Flag::EnableInterrupt, true));
    push_row(table, opcode, mnemonic, flag_schema(Flag::Halt, true));
    assert(table_view(table@) =~= table_view(old(table)@) + flag_rows(opcode, mnemonic@));
}

/// Appends a row whose only operand is a register.
fn push_register_row(table: &mut Vec<Row>, opcode: u8, mnemonic: &str)
    ensures
        table_view(final(table)@) == table_view(old(table)@).push(
            row(opcode, mnemonic@, seq![Operand::Register]),
        ),
{
    let schema = vec![OperandType::Register];
    assert(schema_view(schema@) =~= seq![Operand::Register]);
    push_row(table, opcode, mnemonic, schema);
}

/// Appends the rows of the operations on one register operand.
fn push_register_rows(table: &mut Vec<Row>)
    ensures
        table_view(final(table)@) == table_view(old(table)@) + register_rows(),
{
    push_register_row(table, 0x40, "AND");
    push_register_row(table, 0x44, "OR");
    push_register_row(table, 0x48, "XOR");
    push_register_row(table, 0x4C, "SHL");
    push_register_row(table, 0x50, "SHR");
    push_register_row(table, 0x54, "ADD");
    push_register_row(table, 0x58, "SUB");
    push_register_row(table, 0x5C, "ROL");
    push_register_row(table, 0x60, "ROR");
    push_register_row(table, 0x64, "ADC");
    push_register_row(table, 0x68, "SBB");
    push_register_row(table, 0x6C, "NEG");
    push_register_row(table, 0x70, "NOT");
    push_register_row(table, 0x74, "INC");
    push_register_row(table, 0x78, "DEC");
    push_register_row(table, 0x7C, "CMP");
    push_register_row(table, 0x80, "TEST");
    push_register_row(table, 0xE8, "PUSH");
    push_register_row(table, 0xEC, "POP");
    assert(table_view(table@) =~= table_view(old(table)@) + register_rows());
}

/// Appends the rows that fit no family.
fn push_single_rows(table: &mut Vec<Row>)
    ensures
        table_view(final(table)@) == table_view(old(table)@) + single_rows(),
{
    let register_word = vec![OperandType::Register, OperandType::Word];
    assert(schema_view(register_word@) =~= seq![Operand::Register, Operand::Word]);
    push_row(table, 0x00, "LDI", register_word);
    let pair = vec![OperandType::RegisterPair];
    assert(schema_view(pair@) =~= seq![Operand::RegisterPair]);
    push_row(table, 0x20, "MOV", pair);
    let zero = vec![OperandType::Hidden(0)];
    assert(schema_view(zero@) =~= seq![Operand::Hidden(0)]);
    push_row(table, 0x20, "NOP", zero);
    let compare = vec![OperandType::Register, OperandType::Word];
    assert(schema_view(compare@) =~= seq![Operand::Register, Operand::Word]);
    push_row(table, 0xA8, "CMP", compare);
    let test = vec![OperandType::Register, OperandType::Word];
    assert(schema_view(test@) =~= seq![Operand::Register, Operand::Word]);
    push_row(table, 0xAC, "TEST", test);
    let counter = vec![OperandType::Hidden(6)];
    assert(schema_view(counter@) =~= seq![Operand::Hidden(6)]);
    push_row(table, 0xEC, "RET", counter);
    let byte = vec![OperandType::Byte];
    assert(schema_view(byte@) =~= seq![Operand::Byte]);
    push_row(table, 0xF2, "INT", byte);
    let none: Vec<OperandType> = Vec::new();
    assert(schema_view(none@) =~= Seq::<Operand>::empty());
    push_row(table, 0xF3, "IRET", none);
    push_row(table, 0xFF, "EI", flag_schema(Flag::EnableInterrupt, false));
    push_row(table, 0xFE, "DI", flag_schema(Flag::EnableInterrupt, false));
    push_row(table, 0xFF, "HLT", flag_schema(Flag::Halt, false));
    push_row(table, 0xFF, "HALT", flag_schema(Flag::Halt, false));
    assert(table_view(table@) =~= table_view(old(table)@) + single_rows());
}

/// The instruction table.
pub fn instructions() -> (table: Vec<Row>)
    ensures
        table_view(table@) == isa_table(),
{
    let mut table: Vec<Row> = Vec::new();
    let none: Vec<OperandType> = Vec::new();
    assert(schema_view(none@) =~= Seq::<Operand>::empty());
    assert(table_view(table@) =~= Seq::<RowView>::empty());
    push_transfer_rows(&mut table, "LD", 0x04, 0x05, 0x08);
    push_transfer_rows(&mut table, "LDW", 0x06, 0x07, 0x0C);
    push_transfer_rows(&mut table, "ST", 0x11, 0x12, 0x18);
    push_transfer_rows(&mut table, "STW", 0x15, 0x16, 0x1C);
    push_register_rows(&mut table);
    push_single_rows(&mut table);
    push_branch_rows(&mut table, "JMP", 0xC0, &none);
    push_branch_rows(&mut table, "CALL", 0xD0, &none);
    push_conditional_rows(&mut table);
    push_flag_rows(&mut table, 0xFF, "SET");
    push_flag_rows(&mut table, 0xFE, "CLR");
    assert(table_view(table@) =~= isa_table());
    table
}

} // verus!
