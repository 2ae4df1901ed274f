//! The assembler and the decoder read the same encoding: what a row of the
//! instruction table emits is an instruction that the decoder takes whole.

use vstd::prelude::*;
use crate::compile::{spec_consume, spec_match_from, spec_match_row, PatchView};
use crate::condition::{condition_of_code, spec_condition_at, CONDITION_NAMES};
use crate::condition::ConditionCode;
use crate::isa::{decode, layout_of, operands_at, spec_layout, Layout};
use crate::register::{pair_of_byte, register_of_code, Register};
use crate::table::{
    branch_rows, conditional_rows, flag_rows, isa_table, register_rows, schema_view,
    single_rows, table_view, transfer_rows, Operand, OperandType, Row, RowView,
};

verus! {

/// What is known of one emitted byte from the schema alone.
#[derive(Debug, PartialEq, Eq, Structural, Clone, Copy)]
pub enum ByteClass {
    /// Any byte: part of a number.
    Any,
    /// The code of a register.
    Register,
    /// A packed pair of register codes.
    Pair,
    /// This very byte.
    Fixed(u8),
}

/// Whether a byte is what its class says.
pub open spec fn fits(class: ByteClass, byte: u8) -> bool {
    match class {
        ByteClass::Any => true,
        ByteClass::Register => register_of_code(byte as int) is Some,
        ByteClass::Pair => pair_of_byte(byte as int) is Some,
        ByteClass::Fixed(fixed) => byte == fixed,
    }
}

/// Whether each byte is what its class says.
pub open spec fn conforms(bytes: Seq<u8>, classes: Seq<ByteClass>) -> bool {
    &&& bytes.len() == classes.len()
    &&& forall|j: int| 0 <= j < bytes.len() ==> fits(#[trigger] classes[j], bytes[j])
}

/// The classes of the bytes that one schema entry emits.
pub open spec fn entry_classes(entry: Operand) -> Seq<ByteClass> {
    match entry {
        Operand::Address | Operand::Word => seq![ByteClass::Any, ByteClass::Any],
        Operand::Offset | Operand::Byte => seq![ByteClass::Any],
        Operand::Register => seq![ByteClass::Register],
        Operand::RegisterPair => seq![ByteClass::Pair],
        Operand::Const(_) => Seq::<ByteClass>::empty(),
        Operand::Hidden(byte) => seq![ByteClass::Fixed(byte)],
    }
}

/// The classes of the bytes that the schema entries from index `k` on emit.
pub open spec fn schema_classes(schema: Seq<Operand>, k: int) -> Seq<ByteClass>
    decreases schema.len() - k,
{
    if k < 0 || k >= schema.len() {
        Seq::<ByteClass>::empty()
    } else {
        entry_classes(schema[k]) + schema_classes(schema, k + 1)
    }
}

/// Whether a byte of the class is sure to be the code of a register.
pub open spec fn names_register(class: ByteClass) -> bool {
    match class {
        ByteClass::Register => true,
        ByteClass::Fixed(byte) => register_of_code(byte as int) is Some,
        _ => false,
    }
}

/// Whether a byte of the class is sure to be a packed register pair.
pub open spec fn names_pair(class: ByteClass) -> bool {
    match class {
        ByteClass::Pair => true,
        ByteClass::Fixed(byte) => pair_of_byte(byte as int) is Some,
        _ => false,
    }
}

/// Whether a byte of the class is sure to be a condition code.
pub open spec fn names_condition(class: ByteClass) -> bool {
    match class {
        ByteClass::Fixed(byte) => condition_of_code(byte as int) is Some,
        _ => false,
    }
}

/// Whether operand bytes of the given classes are sure to be read without
/// error in a layout: there are as many as the layout takes, and those that
/// the layout reads as a register, a pair or a condition are one.
pub open spec fn accepts(layout: Layout, classes: Seq<ByteClass>) -> bool {
    &&& classes.len() == layout.spec_width()
    &&& match layout {
        Layout::Register | Layout::RegisterWord => names_register(classes[0]),
        Layout::Pair => names_pair(classes[0]),
        Layout::WordRegister => names_register(classes[2]),
        Layout::ConditionOffset | Layout::ConditionWord => names_condition(classes[0]),
        Layout::ConditionWordRegister => names_condition(classes[0]) && names_register(
            classes[3],
        ),
        _ => true,
    }
}

/// Whether the schema of a row emits operand bytes that the layout of the
/// row's opcode accepts.
pub open spec fn row_agrees(row: RowView) -> bool {
    match spec_layout(row.opcode) {
        Some(layout) => accepts(layout, schema_classes(row.operands, 0)),
        None => false,
    }
}

/// Whether every row of a table agrees with the layout of its opcode.
pub open spec fn table_agrees(table: Seq<RowView>) -> bool {
    forall|i: int| 0 <= i < table.len() ==> row_agrees(#[trigger] table[i])
}

/// The classes of the bytes that a schema emits.
pub fn classes_of(operands: &Vec<OperandType>) -> (classes: Vec<ByteClass>)
    ensures
        classes@ == schema_classes(schema_view(operands@), 0),
{
    let ghost schema = schema_view(operands@);
    let mut classes: Vec<ByteClass> = Vec::new();
    let mut k: usize = 0;
    while k < operands.len()
        invariant
            k <= operands@.len(),
            schema == schema_view(operands@),
            classes@ + schema_classes(schema, k as int) == schema_classes(schema, 0),
        decreases operands@.len() - k,
    {
        let ghost before = classes@;
        assert(schema[k as int] == operands@[k as int]@);
        match &operands[k] {
            OperandType::Address | OperandType::Word => {
                classes.push(ByteClass::Any);
                classes.push(ByteClass::Any);
            },
            OperandType::Offset | OperandType::Byte => {
                classes.push(ByteClass::Any);
            },
            OperandType::Register => {
                classes.push(ByteClass::Register);
            },
            OperandType::RegisterPair => {
                classes.push(ByteClass::Pair);
            },
            OperandType::Const(_) => {},
            OperandType::Hidden(byte) => {
                classes.push(ByteClass::Fixed(*byte));
            },
        }
        assert(classes@ =~= before + entry_classes(schema[k as int]));
        assert(classes@ + schema_classes(schema, k + 1) =~= before + schema_classes(
            schema,
            k as int,
        ));
        k = k + 1;
    }
    assert(classes@ + Seq::<ByteClass>::empty() =~= classes@);
    classes
}

/// Whether a byte of the class is sure to be the code of a register.
fn class_names_register(class: ByteClass) -> (yes: bool)
    ensures
        yes == names_register(class),
{
    match class {
        ByteClass::Register => true,
        ByteClass::Fixed(byte) => Register::try_from_code(byte).is_ok(),
        _ => false,
    }
}

/// Whether a byte of the class is sure to be a packed register pair.
fn class_names_pair(class: ByteClass) -> (yes: bool)
    ensures
        yes == names_pair(class),
{
    match class {
        ByteClass::Pair => true,
        ByteClass::Fixed(byte) => Register::pair_from(&byte).is_ok(),
        _ => false,
    }
}

/// Whether a byte of the class is sure to be a condition code.
fn class_names_condition(class: ByteClass) -> (yes: bool)
    ensures
        yes == names_condition(class),
{
    match class {
        ByteClass::Fixed(byte) => ConditionCode::try_from_code(byte).is_ok(),
        _ => false,
    }
}

/// Whether the schema of a row emits operand bytes that the layout of the
/// row's opcode accepts. What such a row emits is an instruction to the
/// decoder.
pub fn check_row(entry: &Row) -> (yes: bool)
    ensures
        yes == row_agrees(entry@),
{
    let layout = match layout_of(entry.opcode) {
        Some(layout) => layout,
        None => {
            return false;
        },
    };
    let classes = classes_of(&entry.operands);
    if classes.len() != layout.width() as usize {
        return false;
    }
    match layout {
        Layout::Register | Layout::RegisterWord => class_names_register(classes[0]),
        Layout::Pair => class_names_pair(classes[0]),
        Layout::WordRegister => class_names_register(classes[2]),
        Layout::ConditionOffset | Layout::ConditionWord => class_names_condition(classes[0]),
        Layout::ConditionWordRegister => class_names_condition(classes[0])
            && class_names_register(classes[3]),
        _ => true,
    }
}

/// Whether every row of a table agrees with the layout of its opcode.
pub fn check_table(table: &[Row]) -> (yes: bool)
    ensures
        yes == table_agrees(table_view(table@)),
{
    let ghost rows = table_view(table@);
    let mut i: usize = 0;
    while i < table.len()
        invariant
            i <= table@.len(),
            rows == table_view(table@),
            forall|k: int| 0 <= k < i ==> row_agrees(#[trigger] rows[k]),
        decreases table@.len() - i,
    {
        assert(rows[i as int] == table@[i as int]@);
        if !check_row(&table[i]) {
            return false;
        }
        i = i + 1;
    }
    true
}

/// What one schema entry emits is of the entry's classes.
proof fn lemma_consume_conforms(entry: Operand, ops: Seq<Seq<char>>, used: int, bytes: Seq<u8>)
    requires
        spec_consume(entry, ops, used, bytes) is Ok,
    ensures
        ({
            let emitted = spec_consume(entry, ops, used, bytes)->Ok_0.1;
            &&& emitted.len() >= bytes.len()
            &&& emitted.subrange(0, bytes.len() as int) == bytes
            &&& conforms(
                emitted.subrange(bytes.len() as int, emitted.len() as int),
                entry_classes(entry),
            )
        }),
{
    let emitted = spec_consume(entry, ops, used, bytes)->Ok_0.1;
    let tail = emitted.subrange(bytes.len() as int, emitted.len() as int);
    assert(emitted.subrange(0, bytes.len() as int) =~= bytes);
    match entry {
        Operand::Register => {
            let reg = crate::compile::spec_register(ops[used]).unwrap();
            crate::register::lemma_register_code_round_trip(reg, 0);
            assert(tail[0] == reg.spec_code() as u8);
        },
        Operand::RegisterPair => {
            let dst = crate::compile::spec_register(ops[used]).unwrap();
            let src = crate::compile::spec_register(ops[used + 1]).unwrap();
            assert(pair_of_byte(crate::register::pair_byte(dst, src)) == Some((dst, src)));
            assert(tail[0] == crate::register::pair_byte(dst, src) as u8);
        },
        _ => {},
    }
}

/// Bytes of two runs of classes, one after the other, are of the classes
/// of both runs.
proof fn lemma_conforms_concat(
    first: Seq<u8>,
    first_classes: Seq<ByteClass>,
    second: Seq<u8>,
    second_classes: Seq<ByteClass>,
)
    requires
        conforms(first, first_classes),
        conforms(second, second_classes),
    ensures
        conforms(first + second, first_classes + second_classes),
{
    let bytes = first + second;
    let classes = first_classes + second_classes;
    assert forall|j: int| 0 <= j < bytes.len() implies fits(#[trigger] classes[j], bytes[j]) by {
        if j < first.len() {
            assert(fits(first_classes[j], first[j]));
        } else {
            assert(fits(second_classes[j - first.len()], second[j - first.len()]));
        }
    }
}

/// What the schema entries from index `k` on emit stands behind the bytes
/// emitted before and is of the classes of those entries.
proof fn lemma_match_conforms(
    schema: Seq<Operand>,
    k: int,
    ops: Seq<Seq<char>>,
    used: int,
    bytes: Seq<u8>,
    patches: Seq<PatchView>,
)
    requires
        0 <= k,
        spec_match_from(schema, k, ops, used, bytes, patches) is Ok,
    ensures
        ({
            let emitted = spec_match_from(schema, k, ops, used, bytes, patches)->Ok_0.bytes;
            &&& emitted.len() >= bytes.len()
            &&& emitted.subrange(0, bytes.len() as int) == bytes
            &&& conforms(
                emitted.subrange(bytes.len() as int, emitted.len() as int),
                schema_classes(schema, k),
            )
        }),
    decreases schema.len() - k,
{
    let emitted = spec_match_from(schema, k, ops, used, bytes, patches)->Ok_0.bytes;
    if k >= schema.len() {
        assert(emitted.subrange(0, bytes.len() as int) =~= bytes);
        assert(emitted.subrange(bytes.len() as int, emitted.len() as int) =~= Seq::<u8>::empty());
    } else {
        let step = spec_consume(schema[k], ops, used, bytes)->Ok_0;
        let next_patches = match step.2 {
            Some(p) => patches.push(p),
            None => patches,
        };
        lemma_consume_conforms(schema[k], ops, used, bytes);
        lemma_match_conforms(schema, k + 1, ops, step.0, step.1, next_patches);
        let first = step.1.subrange(bytes.len() as int, step.1.len() as int);
        let second = emitted.subrange(step.1.len() as int, emitted.len() as int);
        lemma_conforms_concat(
            first,
            entry_classes(schema[k]),
            second,
            schema_classes(schema, k + 1),
        );
        assert(emitted.subrange(0, step.1.len() as int) == step.1);
        assert(emitted.subrange(0, bytes.len() as int) =~= step.1.subrange(
            0,
            bytes.len() as int,
        ));
        assert(emitted.subrange(bytes.len() as int, emitted.len() as int) =~= first + second) by {
            assert forall|j: int| 0 <= j < first.len() implies emitted[bytes.len() + j]
                == first[j] by {
                assert(emitted.subrange(0, step.1.len() as int)[bytes.len() + j]
                    == step.1[bytes.len() + j]);
            }
        }
    }
}

/// Operand bytes of classes that a layout accepts are read without error
/// in that layout.
proof fn lemma_accepted_bytes_are_read(opcode: u8, layout: Layout, tail: Seq<u8>, classes: Seq<ByteClass>)
    requires
        conforms(tail, classes),
        accepts(layout, classes),
    ensures
        operands_at(seq![opcode] + tail, layout) is Ok,
        tail.len() == layout.spec_width(),
{
    let bytes = seq![opcode] + tail;
    assert(forall|j: int| 0 <= j < tail.len() ==> bytes[1 + j] == tail[j]);
    if tail.len() > 0 {
        assert(fits(classes[0], tail[0]));
    }
    if tail.len() > 2 {
        assert(fits(classes[2], tail[2]));
    }
    if tail.len() > 3 {
        assert(fits(classes[3], tail[3]));
    }
}

/// Where a row agrees with its opcode's layout, whatever the row emits for
/// the operands of a line is an instruction to the decoder, and the decoder
/// takes every byte of it.
pub proof fn lemma_row_emits_an_instruction(row: RowView, ops: Seq<Seq<char>>)
    requires
        row_agrees(row),
        spec_match_row(row, ops) is Ok,
    ensures
        decode(spec_match_row(row, ops)->Ok_0.bytes) is Ok,
        decode(spec_match_row(row, ops)->Ok_0.bytes)->Ok_0.1 == spec_match_row(
            row,
            ops,
        )->Ok_0.bytes.len(),
{
    let emitted = spec_match_row(row, ops)->Ok_0.bytes;
    let layout = spec_layout(row.opcode).unwrap();
    lemma_match_conforms(row.operands, 0, ops, 0, seq![row.opcode], Seq::<PatchView>::empty());
    let tail = emitted.subrange(1, emitted.len() as int);
    assert(emitted.subrange(0, 1)[0] == emitted[0]);
    assert(emitted =~= seq![row.opcode] + tail);
    lemma_accepted_bytes_are_read(row.opcode, layout, tail, schema_classes(row.operands, 0));
}

/// Two tables whose rows agree make a table whose rows agree.
proof fn lemma_tables_agree(first: Seq<RowView>, second: Seq<RowView>)
    requires
        table_agrees(first),
        table_agrees(second),
    ensures
        table_agrees(first + second),
{
    let table = first + second;
    assert forall|i: int| 0 <= i < table.len() implies row_agrees(#[trigger] table[i]) by {
        if i < first.len() {
            assert(row_agrees(first[i]));
        } else {
            assert(row_agrees(second[i - first.len()]));
        }
    }
}

/// The rows of a load or store mnemonic agree with the layouts of their
/// opcodes.
proof fn lemma_transfer_rows_agree(mnemonic: Seq<char>, absolute: u8, stack: u8, indexed: u8)
    requires
        spec_layout(absolute) == Some(Layout::Word),
        spec_layout(stack) == Some(Layout::Offset),
        spec_layout(indexed) == Some(Layout::WordRegister),
    ensures
        table_agrees(transfer_rows(mnemonic, absolute, stack, indexed)),
{
    reveal_with_fuel(schema_classes, 5);
    let rows = transfer_rows(mnemonic, absolute, stack, indexed);
    assert(schema_classes(rows[0].operands, 0) =~= seq![ByteClass::Any, ByteClass::Any]);
    assert(schema_classes(rows[1].operands, 0) =~= seq![ByteClass::Any]);
    assert(schema_classes(rows[2].operands, 0) =~= seq![
        ByteClass::Any,
        ByteClass::Any,
        ByteClass::Register,
    ]);
    assert(schema_classes(rows[3].operands, 0) =~= seq![
        ByteClass::Fixed(0),
        ByteClass::Fixed(0),
        ByteClass::Register,
    ]);
}

/// The rows of an unconditional branch or call agree with the layouts of
/// their opcodes.
proof fn lemma_branch_rows_agree(mnemonic: Seq<char>, base: u8)
    requires
        base == 0xC0 || base == 0xD0,
    ensures
        table_agrees(branch_rows(mnemonic, base, Seq::<Operand>::empty())),
{
    reveal_with_fuel(schema_classes, 5);
    let none = Seq::<Operand>::empty();
    let rows = branch_rows(mnemonic, base, none);
    assert(rows[0].operands =~= seq![Operand::Address]);
    assert(rows[1].operands =~= seq![Operand::Offset, Operand::Const("PC"@)]);
    assert(rows[2].operands =~= seq![Operand::Offset, Operand::Const("SP"@)]);
    assert(rows[3].operands =~= seq![Operand::Address, Operand::Register]);
    assert(schema_classes(rows[0].operands, 0) =~= seq![ByteClass::Any, ByteClass::Any]);
    assert(schema_classes(rows[1].operands, 0) =~= seq![ByteClass::Any]);
    assert(schema_classes(rows[2].operands, 0) =~= seq![ByteClass::Any]);
    assert(schema_classes(rows[3].operands, 0) =~= seq![
        ByteClass::Any,
        ByteClass::Any,
        ByteClass::Register,
    ]);
}

/// The rows of a conditional branch agree with the layouts of their
/// opcodes, where the hidden byte is a condition code.
proof fn lemma_condition_rows_agree(mnemonic: Seq<char>, code: u8)
    requires
        condition_of_code(code as int) is Some,
    ensures
        table_agrees(branch_rows(mnemonic, 0xC8, seq![Operand::Hidden(code)])),
{
    reveal_with_fuel(schema_classes, 5);
    let hidden = seq![Operand::Hidden(code)];
    let rows = branch_rows(mnemonic, 0xC8, hidden);
    assert(rows[0].operands =~= seq![Operand::Hidden(code), Operand::Address]);
    assert(rows[1].operands =~= seq![
        Operand::Hidden(code),
        Operand::Offset,
        Operand::Const("PC"@),
    ]);
    assert(rows[2].operands =~= seq![
        Operand::Hidden(code),
        Operand::Offset,
        Operand::Const("SP"@),
    ]);
    assert(rows[3].operands =~= seq![
        Operand::Hidden(code),
        Operand::Address,
        Operand::Register,
    ]);
    assert(schema_classes(rows[0].operands, 0) =~= seq![
        ByteClass::Fixed(code),
        ByteClass::Any,
        ByteClass::Any,
    ]);
    assert(schema_classes(rows[1].operands, 0) =~= seq![ByteClass::Fixed(code), ByteClass::Any]);
    assert(schema_classes(rows[2].operands, 0) =~= seq![ByteClass::Fixed(code), ByteClass::Any]);
    assert(schema_classes(rows[3].operands, 0) =~= seq![
        ByteClass::Fixed(code),
        ByteClass::Any,
        ByteClass::Any,
        ByteClass::Register,
    ]);
}

/// The rows of the conditional branch for the first `count` condition
/// names agree with the layouts of their opcodes.
proof fn lemma_conditional_rows_agree(count: int)
    requires
        count <= CONDITION_NAMES,
    ensures
        table_agrees(conditional_rows(count)),
    decreases count,
{
    if count > 0 {
        lemma_conditional_rows_agree(count - 1);
        let condition = spec_condition_at(count - 1);
        crate::condition::lemma_condition_code_round_trip(condition, 0);
        lemma_condition_rows_agree(
            "J"@ + crate::condition::spec_condition_name(count - 1),
            condition.spec_code() as u8,
        );
        lemma_tables_agree(
            conditional_rows(count - 1),
            branch_rows(
                "J"@ + crate::condition::spec_condition_name(count - 1),
                0xC8,
                seq![Operand::Hidden(condition.spec_code() as u8)],
            ),
        );
    }
}

/// The rows that set or clear a flag agree with the layout of their
/// opcode.
proof fn lemma_flag_rows_agree(opcode: u8, mnemonic: Seq<char>)
    requires
        opcode == 0xFE || opcode == 0xFF,
    ensures
        table_agrees(flag_rows(opcode, mnemonic)),
{
    reveal_with_fuel(schema_classes, 5);
    let rows = flag_rows(opcode, mnemonic);
    assert forall|i: int| 0 <= i < rows.len() implies row_agrees(#[trigger] rows[i]) by {
        assert(schema_classes(rows[i].operands, 0).len() == 2);
    }
}

/// The rows of the operations on one register agree with the layouts of
/// their opcodes.
proof fn lemma_register_rows_agree()
    ensures
        table_agrees(register_rows()),
{
    reveal_with_fuel(schema_classes, 3);
    let rows = register_rows();
    assert forall|i: int| 0 <= i < rows.len() implies row_agrees(#[trigger] rows[i]) by {
        assert(rows[i].operands =~= seq![Operand::Register]);
        assert(schema_classes(rows[i].operands, 0) =~= seq![ByteClass::Register]);
    }
}

/// The rows that fit no family agree with the layouts of their opcodes.
proof fn lemma_single_rows_agree()
    ensures
        table_agrees(single_rows()),
{
    reveal_with_fuel(schema_classes, 5);
    let rows = single_rows();
    assert(schema_classes(rows[0].operands, 0) =~= seq![
        ByteClass::Register,
        ByteClass::Any,
        ByteClass::Any,
    ]);
    assert(schema_classes(rows[1].operands, 0) =~= seq![ByteClass::Pair]);
    assert(schema_classes(rows[2].operands, 0) =~= seq![ByteClass::Fixed(0)]);
    assert(pair_of_byte(0) is Some);
    assert(schema_classes(rows[3].operands, 0) =~= seq![
        ByteClass::Register,
        ByteClass::Any,
        ByteClass::Any,
    ]);
    assert(schema_classes(rows[4].operands, 0) =~= seq![
        ByteClass::Register,
        ByteClass::Any,
        ByteClass::Any,
    ]);
    assert(schema_classes(rows[5].operands, 0) =~= seq![ByteClass::Fixed(6)]);
    assert(schema_classes(rows[6].operands, 0) =~= seq![ByteClass::Any]);
    assert(schema_classes(rows[7].operands, 0) =~= Seq::<ByteClass>::empty());
    assert(schema_classes(rows[8].operands, 0).len() == 2);
    assert(schema_classes(rows[9].operands, 0).len() == 2);
    assert(schema_classes(rows[10].operands, 0).len() == 2);
    assert(schema_classes(rows[11].operands, 0).len() == 2);
}

/// Every row of the instruction table agrees with the layout of its
/// opcode.
pub proof fn lemma_table_agrees()
    ensures
        table_agrees(isa_table()),
{
    let none = Seq::<Operand>::empty();
    let a = transfer_rows("LD"@, 0x04, 0x05, 0x08);
    let b = transfer_rows("LDW"@, 0x06, 0x07, 0x0C);
    let c = transfer_rows("ST"@, 0x11, 0x12, 0x18);
    let d = transfer_rows("STW"@, 0x15, 0x16, 0x1C);
    let e = register_rows();
    let f = single_rows();
    let g = branch_rows("JMP"@, 0xC0, none);
    let h = branch_rows("CALL"@, 0xD0, none);
    let i = conditional_rows(CONDITION_NAMES as int);
    let j = flag_rows(0xFF, "SET"@);
    let k = flag_rows(0xFE, "CLR"@);
    lemma_transfer_rows_agree("LD"@, 0x04, 0x05, 0x08);
    lemma_transfer_rows_agree("LDW"@, 0x06, 0x07, 0x0C);
    lemma_transfer_rows_agree("ST"@, 0x11, 0x12, 0x18);
    lemma_transfer_rows_agree("STW"@, 0x15, 0x16, 0x1C);
    lemma_register_rows_agree();
    lemma_single_rows_agree();
    lemma_branch_rows_agree("JMP"@, 0xC0);
    lemma_branch_rows_agree("CALL"@, 0xD0);
    lemma_conditional_rows_agree(CONDITION_NAMES as int);
    lemma_flag_rows_agree(0xFF, "SET"@);
    lemma_flag_rows_agree(0xFE, "CLR"@);
    lemma_tables_agree(a, b);
    lemma_tables_agree(a + b, c);
    lemma_tables_agree(a + b + c, d);
    lemma_tables_agree(a + b + c + d, e);
    lemma_tables_agree(a + b + c + d + e, f);
    lemma_tables_agree(a + b + c + d + e + f, g);
    lemma_tables_agree(a + b + c + d + e + f + g, h);
    lemma_tables_agree(a + b + c + d + e + f + g + h, i);
    lemma_tables_agree(a + b + c + d + e + f + g + h + i, j);
    lemma_tables_agree(a + b + c + d + e + f + g + h + i + j, k);
}

/// The assembler emits what the decoder accepts: whatever a row of the
/// instruction table emits for the operands of a line, the decoder reads
/// as one instruction and takes every byte of it.
pub proof fn lemma_table_emits_instructions(i: int, ops: Seq<Seq<char>>)
    requires
        0 <= i < isa_table().len(),
        spec_match_row(isa_table()[i], ops) is Ok,
    ensures
        decode(spec_match_row(isa_table()[i], ops)->Ok_0.bytes) is Ok,
        decode(spec_match_row(isa_table()[i], ops)->Ok_0.bytes)->Ok_0.1 == spec_match_row(
            isa_table()[i],
            ops,
        )->Ok_0.bytes.len(),
{
    lemma_table_agrees();
    lemma_row_emits_an_instruction(isa_table()[i], ops);
}

} // verus!
