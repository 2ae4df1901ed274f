//! Instruction tables in tab-separated text: one row per line under a header
//! row, with templates in the mnemonic that stand for every condition name
//! or every flag.

use vstd::prelude::*;
use vstd::slice::slice_subrange;
use crate::condition::{
    condition_at, condition_name, spec_condition_at, spec_condition_name, CONDITION_NAMES,
};
use crate::flag::{flag_at, spec_flag_at, FLAGS};
use crate::memory::{high_byte, low_byte, split_word};
use crate::number::{literal_within, u8_from_str_radix};
use crate::table::{row, schema_view, table_view, Operand, OperandType, Row, RowView};
use crate::text::{chars_eq_str, chars_of, spec_split, split, string_of, texts};

verus! {

/// Why a text is no instruction table. Lines are counted from zero, the
/// header row included.
#[derive(Debug, PartialEq, Eq, Clone)]
pub enum TableError {
    /// The first column of the line is no byte in hexadecimal.
    InvalidOpcode(usize, String),
    /// An operand column of the line starts with `!` and does not go on
    /// with a byte in decimal.
    InvalidHidden(usize, String),
}

/// Why a text is no instruction table, as plain values.
pub ghost enum TableFault {
    InvalidOpcode(int, Seq<char>),
    InvalidHidden(int, Seq<char>),
}

impl View for TableError {
    type V = TableFault;

    open spec fn view(&self) -> TableFault {
        match self {
            TableError::InvalidOpcode(line, text) => TableFault::InvalidOpcode(*line as int, text@),
            TableError::InvalidHidden(line, text) => TableFault::InvalidHidden(*line as int, text@),
        }
    }
}

/// Whether a pattern stands in a text at a position.
pub open spec fn spec_matches_at(text: Seq<char>, at: int, pattern: Seq<char>) -> bool {
    &&& 0 <= at
    &&& at + pattern.len() <= text.len()
    &&& text.subrange(at, at + pattern.len()) == pattern
}

/// Whether a pattern stands in a text at or after a position.
pub open spec fn spec_contains_from(text: Seq<char>, from: int, pattern: Seq<char>) -> bool
    decreases text.len() - from,
{
    if from < 0 || from >= text.len() || from + pattern.len() > text.len() {
        false
    } else if spec_matches_at(text, from, pattern) {
        true
    } else {
        spec_contains_from(text, from + 1, pattern)
    }
}

/// The text from a position on with every occurrence of a pattern replaced,
/// from left to right, an occurrence never starting inside another.
pub open spec fn spec_replace_from(
    text: Seq<char>,
    from: int,
    pattern: Seq<char>,
    with: Seq<char>,
) -> Seq<char>
    decreases text.len() - from,
{
    if from < 0 || from >= text.len() {
        Seq::<char>::empty()
    } else if pattern.len() > 0 && spec_matches_at(text, from, pattern) {
        with + spec_replace_from(text, from + pattern.len(), pattern, with)
    } else {
        seq![text[from]] + spec_replace_from(text, from + 1, pattern, with)
    }
}

/// The schema entry that an operand column stands for: nothing if the
/// column is empty, a hidden byte after `!`, one of the operand kinds by
/// its keyword, and any other text an operand that must be that very text.
pub open spec fn spec_operand(token: Seq<char>) -> Result<Option<Operand>, ()> {
    if token.len() == 0 {
        Ok(None)
    } else if token[0] == '!' {
        match literal_within(token.subrange(1, token.len() as int), 10, false, 0, 0xFF) {
            Some(value) => Ok(Some(Operand::Hidden(value as u8))),
            None => Err(()),
        }
    } else if token == "addr"@ {
        Ok(Some(Operand::Address))
    } else if token == "dst"@ || token == "src"@ || token == "reg"@ {
        Ok(Some(Operand::Register))
    } else if token == "#imm8"@ || token == "imm8"@ {
        Ok(Some(Operand::Byte))
    } else if token == "#imm"@ || token == "#imm16"@ || token == "imm"@ || token == "imm16"@ {
        Ok(Some(Operand::Word))
    } else if token == "rel"@ {
        Ok(Some(Operand::Offset))
    } else {
        Ok(Some(Operand::Const(token)))
    }
}

/// The schema entry of a column, if the column holds one.
pub open spec fn present(operand: Option<Operand>) -> Seq<Operand> {
    match operand {
        Some(entry) => seq![entry],
        None => Seq::<Operand>::empty(),
    }
}

/// The schema of a row: its hidden bytes, then its operands. Two register
/// operands that are the only operands are one register pair.
pub open spec fn spec_schema(
    hidden: Seq<Operand>,
    first: Option<Operand>,
    second: Option<Operand>,
    third: Option<Operand>,
) -> Seq<Operand> {
    if first == Some(Operand::Register) && second == Some(Operand::Register) && third is None {
        hidden + seq![Operand::RegisterPair]
    } else {
        hidden + present(first) + present(second) + present(third)
    }
}

/// The hidden bytes that stand for a flag: the two bytes of its mask, low
/// byte first.
pub open spec fn flag_hidden(index: int) -> Seq<Operand> {
    seq![
        Operand::Hidden(low_byte(spec_flag_at(index).spec_bitmask())),
        Operand::Hidden(high_byte(spec_flag_at(index).spec_bitmask())),
    ]
}

/// The rows that a row with `{flag}` in its mnemonic stands for, for the
/// first `count` flags: the template gives way to the flag's symbol, and
/// the flag's mask follows the hidden bytes.
pub open spec fn spec_flag_rows(
    opcode: u8,
    mnemonic: Seq<char>,
    hidden: Seq<Operand>,
    first: Option<Operand>,
    second: Option<Operand>,
    third: Option<Operand>,
    count: int,
) -> Seq<RowView>
    decreases count,
{
    if count <= 0 {
        Seq::<RowView>::empty()
    } else {
        spec_flag_rows(opcode, mnemonic, hidden, first, second, third, count - 1).push(
            row(
                opcode,
                spec_replace_from(mnemonic, 0, "{flag}"@, spec_flag_at(count - 1).spec_name()),
                spec_schema(hidden + flag_hidden(count - 1), first, second, third),
            ),
        )
    }
}

/// The rows that a row stands for once its condition is settled: one for
/// each flag if it is a flag template, else the row itself.
pub open spec fn spec_settled_rows(
    opcode: u8,
    mnemonic: Seq<char>,
    by_flag: bool,
    hidden: Seq<Operand>,
    first: Option<Operand>,
    second: Option<Operand>,
    third: Option<Operand>,
) -> Seq<RowView> {
    if by_flag {
        spec_flag_rows(opcode, mnemonic, hidden, first, second, third, FLAGS as int)
    } else {
        seq![row(opcode, mnemonic, spec_schema(hidden, first, second, third))]
    }
}

/// The rows that a row with `{cc}` in its mnemonic stands for, for the
/// first `count` condition names: the template gives way to the name, and
/// the condition's code goes first as a hidden byte.
pub open spec fn spec_condition_rows(
    opcode: u8,
    mnemonic: Seq<char>,
    by_flag: bool,
    first: Option<Operand>,
    second: Option<Operand>,
    third: Option<Operand>,
    count: int,
) -> Seq<RowView>
    decreases count,
{
    if count <= 0 {
        Seq::<RowView>::empty()
    } else {
        spec_condition_rows(opcode, mnemonic, by_flag, first, second, third, count - 1)
            + spec_settled_rows(
            opcode,
            spec_replace_from(mnemonic, 0, "{cc}"@, spec_condition_name(count - 1)),
            by_flag,
            seq![Operand::Hidden(spec_condition_at(count - 1).spec_code() as u8)],
            first,
            second,
            third,
        )
    }
}

/// The rows that one row of the text stands for.
pub open spec fn spec_expanded(
    opcode: u8,
    mnemonic: Seq<char>,
    first: Option<Operand>,
    second: Option<Operand>,
    third: Option<Operand>,
) -> Seq<RowView> {
    let by_flag = spec_contains_from(mnemonic, 0, "{flag}"@);
    if spec_contains_from(mnemonic, 0, "{cc}"@) {
        spec_condition_rows(
            opcode,
            mnemonic,
            by_flag,
            first,
            second,
            third,
            CONDITION_NAMES as int,
        )
    } else {
        spec_settled_rows(opcode, mnemonic, by_flag, Seq::<Operand>::empty(), first, second, third)
    }
}

/// The column at an index of a line, or the empty text if the line has no
/// such column.
pub open spec fn column(parts: Seq<Seq<char>>, index: int) -> Seq<char> {
    if 0 <= index < parts.len() {
        parts[index]
    } else {
        Seq::<char>::empty()
    }
}

/// The rows that a line of the text stands for, given how many operand
/// columns the text has. A line whose mnemonic is empty or begins with `#`
/// stands for none.
pub open spec fn spec_line_rows(line: Seq<char>, number: int, columns: int) -> Result<
    Seq<RowView>,
    TableFault,
> {
    let parts = spec_split(line, '\t');
    let mnemonic = column(parts, 1);
    if mnemonic.len() == 0 || mnemonic[0] == '#' {
        Ok(Seq::<RowView>::empty())
    } else {
        match literal_within(column(parts, 0), 16, false, 0, 0xFF) {
            None => Err(TableFault::InvalidOpcode(number, column(parts, 0))),
            Some(opcode) => {
                let third = if columns >= 3 {
                    column(parts, 4)
                } else {
                    Seq::<char>::empty()
                };
                match spec_operand(column(parts, 2)) {
                    Err(_) => Err(TableFault::InvalidHidden(number, column(parts, 2))),
                    Ok(first) => match spec_operand(column(parts, 3)) {
                        Err(_) => Err(TableFault::InvalidHidden(number, column(parts, 3))),
                        Ok(second) => match spec_operand(third) {
                            Err(_) => Err(TableFault::InvalidHidden(number, third)),
                            Ok(last) => Ok(
                                spec_expanded(opcode as u8, mnemonic, first, second, last),
                            ),
                        },
                    },
                }
            },
        }
    }
}

/// A line as the reader takes it: without a carriage return at its end.
pub open spec fn spec_row_text(line: Seq<char>) -> Seq<char> {
    if line.len() > 0 && line.last() == '\r' {
        line.drop_last()
    } else {
        line
    }
}

/// The table that the lines from index `i` on add to the rows read so far.
pub open spec fn spec_read_from(
    lines: Seq<Seq<char>>,
    i: int,
    columns: int,
    rows: Seq<RowView>,
) -> Result<Seq<RowView>, TableFault>
    decreases lines.len() - i,
{
    if i < 0 || i >= lines.len() {
        Ok(rows)
    } else {
        match spec_line_rows(spec_row_text(lines[i]), i, columns) {
            Ok(more) => spec_read_from(lines, i + 1, columns, rows + more),
            Err(fault) => Err(fault),
        }
    }
}

/// How many operand columns a table has: three if its header row has at
/// least seven columns, else two.
pub open spec fn spec_operand_columns(header: Seq<char>) -> int {
    if spec_split(header, '\t').len() >= 7 {
        3
    } else {
        2
    }
}

/// The table that a tab-separated text stands for: the first line is the
/// header row, every further line a row.
pub open spec fn spec_read_table(text: Seq<char>) -> Result<Seq<RowView>, TableFault> {
    let lines = spec_split(text, '\n');
    spec_read_from(
        lines,
        1,
        spec_operand_columns(spec_row_text(lines[0])),
        Seq::<RowView>::empty(),
    )
}

/// Whether a pattern stands in a text at a position.
pub fn matches_at(text: &[char], at: usize, pattern: &str) -> (yes: bool)
    ensures
        yes == spec_matches_at(text@, at as int, pattern@),
{
    let length = pattern.unicode_len();
    if at > text.len() || length > text.len() - at {
        return false;
    }
    chars_eq_str(slice_subrange(text, at, at + length), pattern)
}

/// Whether a pattern stands somewhere in a text.
pub fn contains(text: &[char], pattern: &str) -> (yes: bool)
    ensures
        yes == spec_contains_from(text@, 0, pattern@),
{
    let length = pattern.unicode_len();
    let mut at: usize = 0;
    while at < text.len() && length <= text.len() - at
        invariant
            length == pattern@.len(),
            spec_contains_from(text@, at as int, pattern@) == spec_contains_from(
                text@,
                0,
                pattern@,
            ),
        decreases text@.len() - at,
    {
        if matches_at(text, at, pattern) {
            return true;
        }
        at = at + 1;
    }
    false
}

/// A text with every occurrence of a pattern replaced, from left to right.
pub fn replace(text: &[char], pattern: &str, with: &str) -> (replaced: Vec<char>)
    ensures
        replaced@ == spec_replace_from(text@, 0, pattern@, with@),
{
    let length = pattern.unicode_len();
    let insert = chars_of(with);
    let mut replaced: Vec<char> = Vec::new();
    let mut at: usize = 0;
    while at < text.len()
        invariant
            at <= text@.len(),
            length == pattern@.len(),
            insert@ == with@,
            replaced@ + spec_replace_from(text@, at as int, pattern@, with@) == spec_replace_from(
                text@,
                0,
                pattern@,
                with@,
            ),
        decreases text@.len() - at,
    {
        let ghost before = replaced@;
        if length > 0 && matches_at(text, at, pattern) {
            let mut k: usize = 0;
            while k < insert.len()
                invariant
                    k <= insert@.len(),
                    replaced@ == before + insert@.subrange(0, k as int),
                decreases insert@.len() - k,
            {
                replaced.push(insert[k]);
                k = k + 1;
                assert(replaced@ =~= before + insert@.subrange(0, k as int));
            }
            assert(insert@.subrange(0, insert@.len() as int) =~= insert@);
            assert(replaced@ + spec_replace_from(text@, at + length, pattern@, with@) =~= before
                + spec_replace_from(text@, at as int, pattern@, with@));
            at = at + length;
        } else {
            replaced.push(text[at]);
            assert(replaced@ + spec_replace_from(text@, at + 1, pattern@, with@) =~= before
                + spec_replace_from(text@, at as int, pattern@, with@));
            at = at + 1;
        }
    }
    assert(replaced@ + Seq::<char>::empty() =~= replaced@);
    replaced
}

/// Reads the schema entry of an operand column: nothing for an empty
/// column, a hidden byte after `!`, an operand kind for `addr`, `dst`,
/// `src`, `reg`, `#imm8`, `imm8`, `#imm`, `#imm16`, `imm`, `imm16` and
/// `rel`, and for any other text an operand that must be that very text.
/// `Err` if what follows `!` is no byte in decimal.
pub fn parse_operand(token: &[char]) -> (res: Result<Option<OperandType>, ()>)
    ensures
        match spec_operand(token@) {
            Ok(Some(entry)) => res is Ok && res->Ok_0 is Some && res->Ok_0->Some_0@ == entry,
            Ok(None) => res is Ok && res->Ok_0 is None,
            Err(_) => res is Err,
        },
{
    if token.len() == 0 {
        Ok(None)
    } else if token[0] == '!' {
        let digits = string_of(slice_subrange(token, 1, token.len()));
        match u8_from_str_radix(digits.as_str(), 10) {
            Ok(value) => Ok(Some(OperandType::Hidden(value))),
            Err(_) => Err(()),
        }
    } else if chars_eq_str(token, "addr") {
        Ok(Some(OperandType::Address))
    } else if chars_eq_str(token, "dst") || chars_eq_str(token, "src") || chars_eq_str(
        token,
        "reg",
    ) {
        Ok(Some(OperandType::Register))
    } else if chars_eq_str(token, "#imm8") || chars_eq_str(token, "imm8") {
        Ok(Some(OperandType::Byte))
    } else if chars_eq_str(token, "#imm") || chars_eq_str(token, "#imm16") || chars_eq_str(
        token,
        "imm",
    ) || chars_eq_str(token, "imm16") {
        Ok(Some(OperandType::Word))
    } else if chars_eq_str(token, "rel") {
        Ok(Some(OperandType::Offset))
    } else {
        Ok(Some(OperandType::Const(string_of(token))))
    }
}

/// The schema entry of a column, as plain values.
pub open spec fn operand_view(operand: Option<OperandType>) -> Option<Operand> {
    match operand {
        Some(entry) => Some(entry@),
        None => None,
    }
}

/// Appends the schema entry of a column to a schema, if the column holds
/// one.
fn push_present(schema: &mut Vec<OperandType>, operand: &Option<OperandType>)
    ensures
        schema_view(final(schema)@) == schema_view(old(schema)@) + present(
            operand_view(*operand),
        ),
{
    match operand {
        Some(entry) => {
            schema.push(entry.copy());
            assert(schema_view(schema@) =~= schema_view(old(schema)@) + seq![entry@]);
        },
        None => {
            assert(schema_view(schema@) =~= schema_view(old(schema)@) + Seq::<Operand>::empty());
        },
    }
}

/// Whether a column holds a register operand.
fn is_register(operand: &Option<OperandType>) -> (yes: bool)
    ensures
        yes == (operand_view(*operand) == Some(Operand::Register)),
{
    match operand {
        Some(OperandType::Register) => true,
        _ => false,
    }
}

/// The schema of a row: its hidden bytes, then its operands. Two register
/// operands that are the only operands become one register pair.
fn make_schema(
    hidden: Vec<OperandType>,
    first: &Option<OperandType>,
    second: &Option<OperandType>,
    third: &Option<OperandType>,
) -> (schema: Vec<OperandType>)
    ensures
        schema_view(schema@) == spec_schema(
            schema_view(hidden@),
            operand_view(*first),
            operand_view(*second),
            operand_view(*third),
        ),
{
    let mut schema = hidden;
    if is_register(first) && is_register(second) && third.is_none() {
        schema.push(OperandType::RegisterPair);
        assert(schema_view(schema@) =~= schema_view(hidden@) + seq![Operand::RegisterPair]);
    } else {
        push_present(&mut schema, first);
        push_present(&mut schema, second);
        push_present(&mut schema, third);
    }
    schema
}

/// A copy of a schema.
fn copy_schema(schema: &Vec<OperandType>) -> (copy: Vec<OperandType>)
    ensures
        schema_view(copy@) == schema_view(schema@),
{
    let mut copy: Vec<OperandType> = Vec::new();
    let mut i: usize = 0;
    while i < schema.len()
        invariant
            i <= schema@.len(),
            copy@.len() == i,
            forall|k: int| 0 <= k < i ==> copy@[k]@ == schema@[k]@,
        decreases schema@.len() - i,
    {
        copy.push(schema[i].copy());
        i = i + 1;
    }
    assert(schema_view(copy@) =~= schema_view(schema@));
    copy
}

/// Appends to a table the rows that a row stands for once its condition is
/// settled.
fn push_settled_rows(
    table: &mut Vec<Row>,
    opcode: u8,
    mnemonic: &[char],
    by_flag: bool,
    hidden: &Vec<OperandType>,
    first: &Option<OperandType>,
    second: &Option<OperandType>,
    third: &Option<OperandType>,
)
    ensures
        table_view(final(table)@) == table_view(old(table)@) + spec_settled_rows(
            opcode,
            mnemonic@,
            by_flag,
            schema_view(hidden@),
            operand_view(*first),
            operand_view(*second),
            operand_view(*third),
        ),
{
    if by_flag {
        let mut index: usize = 0;
        assert(table_view(table@) =~= table_view(old(table)@) + spec_flag_rows(
            opcode,
            mnemonic@,
            schema_view(hidden@),
            operand_view(*first),
            operand_view(*second),
            operand_view(*third),
            0,
        ));
        while index < FLAGS
            invariant
                index <= FLAGS,
                table_view(table@) == table_view(old(table)@) + spec_flag_rows(
                    opcode,
                    mnemonic@,
                    schema_view(hidden@),
                    operand_view(*first),
                    operand_view(*second),
                    operand_view(*third),
                    index as int,
                ),
            decreases FLAGS - index,
        {
            let flag = flag_at(index);
            let name = replace(mnemonic, "{flag}", flag.name());
            let (low, high) = split_word(flag.to_bitmask());
            let mut bytes = copy_schema(hidden);
            bytes.push(OperandType::Hidden(low));
            bytes.push(OperandType::Hidden(high));
            assert(schema_view(bytes@) =~= schema_view(hidden@) + flag_hidden(index as int));
            let schema = make_schema(bytes, first, second, third);
            let ghost before = table@;
            table.push(Row { opcode, mnemonic: string_of(name.as_slice()), operands: schema });
            assert(table_view(table@) =~= table_view(before).push(
                row(opcode, name@, schema_view(schema@)),
            ));
            index = index + 1;
            assert(table_view(table@) =~= table_view(old(table)@) + spec_flag_rows(
                opcode,
                mnemonic@,
                schema_view(hidden@),
                operand_view(*first),
                operand_view(*second),
                operand_view(*third),
                index as int,
            ));
        }
    } else {
        let schema = make_schema(copy_schema(hidden), first, second, third);
        let ghost before = table@;
        table.push(Row { opcode, mnemonic: string_of(mnemonic), operands: schema });
        assert(table_view(table@) =~= table_view(before) + seq![
            row(opcode, mnemonic@, schema_view(schema@)),
        ]);
    }
}

/// Appends to a table the rows that one row of the text stands for. A
/// mnemonic with `{cc}` stands for one row for each condition name, with the
/// condition's code as a hidden byte in front; a mnemonic with `{flag}` for
/// one row for each flag, with the two bytes of the flag's mask as hidden
/// bytes.
pub fn expand_row(
    table: &mut Vec<Row>,
    opcode: u8,
    mnemonic: &[char],
    first: &Option<OperandType>,
    second: &Option<OperandType>,
    third: &Option<OperandType>,
)
    ensures
        table_view(final(table)@) == table_view(old(table)@) + spec_expanded(
            opcode,
            mnemonic@,
            operand_view(*first),
            operand_view(*second),
            operand_view(*third),
        ),
{
    let by_flag = contains(mnemonic, "{flag}");
    if contains(mnemonic, "{cc}") {
        let mut index: usize = 0;
        assert(table_view(table@) =~= table_view(old(table)@) + spec_condition_rows(
            opcode,
            mnemonic@,
            by_flag,
            operand_view(*first),
            operand_view(*second),
            operand_view(*third),
            0,
        ));
        while index < CONDITION_NAMES
            invariant
                index <= CONDITION_NAMES,
                table_view(table@) == table_view(old(table)@) + spec_condition_rows(
                    opcode,
                    mnemonic@,
                    by_flag,
                    operand_view(*first),
                    operand_view(*second),
                    operand_view(*third),
                    index as int,
                ),
            decreases CONDITION_NAMES - index,
        {
            let name = replace(mnemonic, "{cc}", condition_name(index));
            let hidden = vec![OperandType::Hidden(condition_at(index).code())];
            assert(schema_view(hidden@) =~= seq![
                Operand::Hidden(spec_condition_at(index as int).spec_code() as u8),
            ]);
            push_settled_rows(
                table,
                opcode,
                name.as_slice(),
                by_flag,
                &hidden,
                first,
                second,
                third,
            );
            index = index + 1;
            assert(table_view(table@) =~= table_view(old(table)@) + spec_condition_rows(
                opcode,
                mnemonic@,
                by_flag,
                operand_view(*first),
                operand_view(*second),
                operand_view(*third),
                index as int,
            ));
        }
    } else {
        let hidden: Vec<OperandType> = Vec::new();
        assert(schema_view(hidden@) =~= Seq::<Operand>::empty());
        push_settled_rows(table, opcode, mnemonic, by_flag, &hidden, first, second, third);
    }
}

/// The column at an index of a line, or the empty text if the line has no
/// such column.
fn column_of<'a>(parts: &Vec<&'a [char]>, index: usize, line: &'a [char]) -> (text: &'a [char])
    ensures
        text@ == column(texts(parts@), index as int),
{
    if index < parts.len() {
        parts[index]
    } else {
        slice_subrange(line, 0, 0)
    }
}

/// Appends to a table the rows that a line of the text stands for. A line
/// whose mnemonic is empty or begins with `#` is skipped.
fn read_line(table: &mut Vec<Row>, line: &[char], number: usize, columns: usize) -> (res: Result<
    (),
    TableError,
>)
    ensures
        match spec_line_rows(line@, number as int, columns as int) {
            Ok(rows) => res is Ok && table_view(final(table)@) == table_view(old(table)@) + rows,
            Err(fault) => res is Err && res->Err_0@ == fault,
        },
{
    let parts = split(line, '\t');
    let mnemonic = column_of(&parts, 1, line);
    if mnemonic.len() == 0 || mnemonic[0] == '#' {
        assert(table_view(table@) =~= table_view(old(table)@) + Seq::<RowView>::empty());
        return Ok(());
    }
    let code = column_of(&parts, 0, line);
    let opcode = match u8_from_str_radix(string_of(code).as_str(), 16) {
        Ok(value) => value,
        Err(_) => {
            return Err(TableError::InvalidOpcode(number, string_of(code)));
        },
    };
    let first_text = column_of(&parts, 2, line);
    let second_text = column_of(&parts, 3, line);
    let third_text = if columns >= 3 {
        column_of(&parts, 4, line)
    } else {
        slice_subrange(line, 0, 0)
    };
    let first = match parse_operand(first_text) {
        Ok(operand) => operand,
        Err(_) => {
            return Err(TableError::InvalidHidden(number, string_of(first_text)));
        },
    };
    let second = match parse_operand(second_text) {
        Ok(operand) => operand,
        Err(_) => {
            return Err(TableError::InvalidHidden(number, string_of(second_text)));
        },
    };
    let third = match parse_operand(third_text) {
        Ok(operand) => operand,
        Err(_) => {
            return Err(TableError::InvalidHidden(number, string_of(third_text)));
        },
    };
    expand_row(table, opcode, mnemonic, &first, &second, &third);
    Ok(())
}

/// Reads an instruction table from tab-separated text. The first line is
/// the header row: `Op`, `Mnemonic`, two or three operand columns, `Bytes`
/// and `Description`. Every further line is a row: the opcode in
/// hexadecimal, the mnemonic, and the operand columns; what follows them is
/// not looked at. A line whose mnemonic is empty or begins with `#` is
/// skipped.
pub fn read_table(text: &str) -> (res: Result<Vec<Row>, TableError>)
    ensures
        match spec_read_table(text@) {
            Ok(rows) => res is Ok && table_view(res->Ok_0@) == rows,
            Err(fault) => res is Err && res->Err_0@ == fault,
        },
{
    let chars = chars_of(text);
    let lines = split(chars.as_slice(), '\n');
    let header = strip_return(lines[0]);
    let columns: usize = if split(header, '\t').len() >= 7 {
        3
    } else {
        2
    };
    let mut table: Vec<Row> = Vec::new();
    assert(table_view(table@) =~= Seq::<RowView>::empty());
    let mut i: usize = 1;
    while i < lines.len()
        invariant
            1 <= i,
            texts(lines@) == spec_split(text@, '\n'),
            spec_read_from(texts(lines@), i as int, columns as int, table_view(table@))
                == spec_read_table(text@),
        decreases lines@.len() - i,
    {
        let line = strip_return(lines[i]);
        match read_line(&mut table, line, i, columns) {
            Ok(()) => {},
            Err(e) => {
                return Err(e);
            },
        }
        i = i + 1;
    }
    Ok(table)
}

/// A line without a carriage return at its end.
fn strip_return<'a>(line: &'a [char]) -> (text: &'a [char])
    ensures
        text@ == spec_row_text(line@),
{
    if line.len() > 0 && line[line.len() - 1] == '\r' {
        slice_subrange(line, 0, line.len() - 1)
    } else {
        assert(line@.subrange(0, line@.len() as int) =~= line@);
        slice_subrange(line, 0, line.len())
    }
}

} // verus!
