//! The assembler: operands, instruction lines matched against the
//! instruction table, directives, and the two passes that turn a source text
//! into a binary image.

use vstd::prelude::*;
use vstd::slice::slice_subrange;
use crate::isa::{offset_byte, offset_from_byte, offset_of_byte, offset_to_byte};
use crate::memory::{high_byte, low_byte, split_word};
use crate::number::{parse_integer16, parse_integer8, spec_integer16, spec_integer8};
use crate::register::{pair_byte, register_of_name, Register};
use crate::table::{instructions, isa_table, table_view, Operand, OperandType, Row, RowView};
use crate::text::{
    chars_eq_str, chars_of, find_char, find_whitespace, is_alphanumeric,
    is_unicode_alphanumeric, skip_whitespace, spec_find_char, spec_find_whitespace,
    spec_skip_whitespace, spec_split, spec_tokens, spec_trim, spec_trim_start, split, string_of,
    texts, to_uppercase, tokens, trim, trim_start, unicode_uppercase,
};
use vstd::utf8::encode_utf8;

verus! {

/// Why a line is not an instruction.
#[derive(Debug, PartialEq, Eq, Clone)]
pub enum InstructionError {
    /// The line starts with something that cannot be a mnemonic.
    ExpectedMnemonic(String),
    /// The operand is neither a number of the width asked for nor a symbol.
    InvalidNumber(String),
    /// The operand should be an immediate and lacks its `#`.
    InvalidImmediate(String),
    /// The operand is no register name.
    InvalidRegister(String),
    /// The operand is a number that does not fit a signed offset.
    InvalidOffset(String),
    /// No row of the table has this mnemonic.
    InvalidMnemonic(String),
    /// The operand should be one fixed text and is another.
    InvalidConstant { expected: String, found: String },
    /// The line ends before the operand that the row asks for.
    MissingOperand(String),
    /// The line has an operand that the row does not ask for.
    ExtraOperand(String),
}

/// Why a line is not an instruction, as plain values.
pub ghost enum InstructionFault {
    ExpectedMnemonic(Seq<char>),
    InvalidNumber(Seq<char>),
    InvalidImmediate(Seq<char>),
    InvalidRegister(Seq<char>),
    InvalidOffset(Seq<char>),
    InvalidMnemonic(Seq<char>),
    InvalidConstant { expected: Seq<char>, found: Seq<char> },
    MissingOperand(Seq<char>),
    ExtraOperand(Seq<char>),
}

impl View for InstructionError {
    type V = InstructionFault;

    open spec fn view(&self) -> InstructionFault {
        match self {
            InstructionError::ExpectedMnemonic(text) => InstructionFault::ExpectedMnemonic(text@),
            InstructionError::InvalidNumber(text) => InstructionFault::InvalidNumber(text@),
            InstructionError::InvalidImmediate(text) => InstructionFault::InvalidImmediate(text@),
            InstructionError::InvalidRegister(text) => InstructionFault::InvalidRegister(text@),
            InstructionError::InvalidOffset(text) => InstructionFault::InvalidOffset(text@),
            InstructionError::InvalidMnemonic(text) => InstructionFault::InvalidMnemonic(text@),
            InstructionError::InvalidConstant { expected, found } => {
                InstructionFault::InvalidConstant { expected: expected@, found: found@ }
            },
            InstructionError::MissingOperand(text) => InstructionFault::MissingOperand(text@),
            InstructionError::ExtraOperand(text) => InstructionFault::ExtraOperand(text@),
        }
    }
}

/// An operand that gives a number: the number itself, or the symbol that
/// will give it once it is defined.
#[derive(Debug, PartialEq, Eq, Clone)]
pub enum Value<T> {
    Literal(T),
    Symbol(String),
}

/// An operand that gives a number, as plain values.
pub ghost enum ValueView<T> {
    Literal(T),
    Symbol(Seq<char>),
}

impl<T> View for Value<T> {
    type V = ValueView<T>;

    open spec fn view(&self) -> ValueView<T> {
        match self {
            Value::Literal(value) => ValueView::Literal(*value),
            Value::Symbol(name) => ValueView::Symbol(name@),
        }
    }
}

/// A reference to a symbol that is still to be filled in: where its bytes
/// go, the symbol's name, and how many bytes it takes, one or two.
#[derive(Debug, PartialEq, Eq, Clone)]
pub struct Patch {
    pub offset: usize,
    pub symbol: String,
    pub width: usize,
}

/// A reference to a symbol that is still to be filled in, as plain values.
pub ghost struct PatchView {
    pub offset: int,
    pub symbol: Seq<char>,
    pub width: int,
}

impl View for Patch {
    type V = PatchView;

    open spec fn view(&self) -> PatchView {
        PatchView { offset: self.offset as int, symbol: self.symbol@, width: self.width as int }
    }
}

/// The patches that a list holds, as plain values.
pub open spec fn patches_view(patches: Seq<Patch>) -> Seq<PatchView> {
    Seq::new(patches.len(), |i: int| patches[i]@)
}

/// What one instruction line emits: its bytes, and the symbol references in
/// them, with offsets from the first of these bytes.
#[derive(Debug, PartialEq, Eq, Clone)]
pub struct InstructionEmission {
    pub bytes: Vec<u8>,
    pub symbols: Vec<Patch>,
}

/// What one instruction line emits, as plain values.
pub ghost struct EmissionView {
    pub bytes: Seq<u8>,
    pub patches: Seq<PatchView>,
}

impl EmissionView {
    /// Whether every patch lies within the bytes.
    pub open spec fn wf(self) -> bool {
        forall|i: int|
            0 <= i < self.patches.len() ==> 0 <= (#[trigger] self.patches[i]).offset
                && self.patches[i].offset + self.patches[i].width <= self.bytes.len()
    }
}

impl View for InstructionEmission {
    type V = EmissionView;

    open spec fn view(&self) -> EmissionView {
        EmissionView { bytes: self.bytes@, patches: patches_view(self.symbols@) }
    }
}

/// Whether a character may stand in a symbol: alphanumerics and `_`, `-`,
/// `.`, `+`.
pub open spec fn is_symbol_char(c: char) -> bool {
    is_unicode_alphanumeric(c) || c == '_' || c == '-' || c == '.' || c == '+'
}

/// Whether a text is made of symbol characters only.
pub open spec fn all_symbol_chars(text: Seq<char>) -> bool {
    forall|i: int| 0 <= i < text.len() ==> is_symbol_char(#[trigger] text[i])
}

/// The register that a text names, in any case.
pub open spec fn spec_register(text: Seq<char>) -> Option<Register> {
    register_of_name(unicode_uppercase(text))
}

/// Whether a text is a symbol: made of symbol characters only, and not the
/// name of a register.
pub open spec fn spec_is_symbol(text: Seq<char>) -> bool {
    all_symbol_chars(text) && spec_register(text) is None
}

/// A 16-bit number, or else a symbol.
pub open spec fn spec_or_symbol16(text: Seq<char>) -> Option<ValueView<u16>> {
    match spec_integer16(text) {
        Some(value) => Some(ValueView::Literal(value)),
        None => if spec_is_symbol(text) {
            Some(ValueView::Symbol(text))
        } else {
            None
        },
    }
}

/// An 8-bit number, or else a symbol.
pub open spec fn spec_or_symbol8(text: Seq<char>) -> Option<ValueView<u8>> {
    match spec_integer8(text) {
        Some(value) => Some(ValueView::Literal(value)),
        None => if spec_is_symbol(text) {
            Some(ValueView::Symbol(text))
        } else {
            None
        },
    }
}

/// The text after the mark of an immediate: after `#`, or after the width
/// letter and `#`.
pub open spec fn spec_immediate_body(text: Seq<char>, letter: char) -> Option<Seq<char>> {
    if text.len() >= 1 && text[0] == '#' {
        Some(text.subrange(1, text.len() as int))
    } else if text.len() >= 2 && text[0] == letter && text[1] == '#' {
        Some(text.subrange(2, text.len() as int))
    } else {
        None
    }
}

/// An address operand: a 16-bit number or a symbol.
pub open spec fn spec_address(text: Seq<char>) -> Result<ValueView<u16>, InstructionFault> {
    match spec_or_symbol16(text) {
        Some(value) => Ok(value),
        None => Err(InstructionFault::InvalidNumber(text)),
    }
}

/// A 16-bit immediate operand: `#` or `W#`, then a 16-bit number or a
/// symbol.
pub open spec fn spec_immediate(text: Seq<char>) -> Result<ValueView<u16>, InstructionFault> {
    match spec_immediate_body(text, 'W') {
        Some(body) => match spec_or_symbol16(body) {
            Some(value) => Ok(value),
            None => Err(InstructionFault::InvalidNumber(body)),
        },
        None => Err(InstructionFault::InvalidImmediate(text)),
    }
}

/// An 8-bit immediate operand: `#` or `B#`, then an 8-bit number. Symbols
/// are not taken here.
pub open spec fn spec_immediate8(text: Seq<char>) -> Result<ValueView<u8>, InstructionFault> {
    match spec_immediate_body(text, 'B') {
        Some(body) => match spec_integer8(body) {
            Some(value) => Ok(ValueView::Literal(value)),
            None => Err(InstructionFault::InvalidNumber(body)),
        },
        None => Err(InstructionFault::InvalidImmediate(text)),
    }
}

/// An 8-bit immediate operand that may also be a symbol.
pub open spec fn spec_immediate8_symbol(text: Seq<char>) -> Result<
    ValueView<u8>,
    InstructionFault,
> {
    match spec_immediate_body(text, 'B') {
        Some(body) => match spec_or_symbol8(body) {
            Some(value) => Ok(value),
            None => Err(InstructionFault::InvalidNumber(body)),
        },
        None => Err(InstructionFault::InvalidImmediate(text)),
    }
}

/// An offset operand: a number from -128 to 255, kept as a signed byte, or
/// a symbol. A number that fits 16 bits but not an offset is
/// `InvalidOffset`.
pub open spec fn spec_offset(text: Seq<char>) -> Result<ValueView<i8>, InstructionFault> {
    match spec_integer8(text) {
        Some(value) => Ok(ValueView::Literal(offset_of_byte(value))),
        None => if spec_integer16(text) is Some {
            Err(InstructionFault::InvalidOffset(text))
        } else if spec_is_symbol(text) {
            Ok(ValueView::Symbol(text))
        } else {
            Err(InstructionFault::InvalidNumber(text))
        },
    }
}

/// A register operand, as the register's code.
pub open spec fn spec_register_code(text: Seq<char>) -> Result<u8, InstructionFault> {
    match spec_register(text) {
        Some(reg) => Ok(reg.spec_code() as u8),
        None => Err(InstructionFault::InvalidRegister(text)),
    }
}

/// Two register operands, destination first, as one packed byte.
pub open spec fn spec_register_pair(first: Seq<char>, second: Seq<char>) -> Result<
    u8,
    InstructionFault,
> {
    match spec_register(first) {
        Some(dst) => match spec_register(second) {
            Some(src) => Ok(pair_byte(dst, src) as u8),
            None => Err(InstructionFault::InvalidRegister(second)),
        },
        None => Err(InstructionFault::InvalidRegister(first)),
    }
}

/// Whether a text is made of symbol characters only.
pub fn has_symbol_chars_only(text: &[char]) -> (yes: bool)
    ensures
        yes == all_symbol_chars(text@),
{
    let mut i: usize = 0;
    while i < text.len()
        invariant
            i <= text@.len(),
            forall|k: int| 0 <= k < i ==> is_symbol_char(#[trigger] text@[k]),
        decreases text@.len() - i,
    {
        let c = text[i];
        if !(is_alphanumeric(c) || c == '_' || c == '-' || c == '.' || c == '+') {
            return false;
        }
        i = i + 1;
    }
    true
}

/// Reads a register name, in any case, as the register's code;
/// `InvalidRegister` with the text for anything else.
pub fn parse_register(string: &[char]) -> (res: Result<u8, InstructionError>)
    ensures
        match spec_register_code(string@) {
            Ok(code) => res == Ok::<u8, InstructionError>(code),
            Err(fault) => res is Err && res->Err_0@ == fault,
        },
{
    let upper = to_uppercase(string);
    match Register::from_chars(upper.as_slice()) {
        Ok(reg) => Ok(reg.code()),
        Err(_) => Err(InstructionError::InvalidRegister(string_of(string))),
    }
}

/// Reads two register names, destination first, as one packed byte;
/// `InvalidRegister` with the first text that is no register name.
pub fn parse_register_pair(string1: &[char], string2: &[char]) -> (res: Result<
    u8,
    InstructionError,
>)
    ensures
        match spec_register_pair(string1@, string2@) {
            Ok(byte) => res == Ok::<u8, InstructionError>(byte),
            Err(fault) => res is Err && res->Err_0@ == fault,
        },
{
    let dst = match Register::from_chars(to_uppercase(string1).as_slice()) {
        Ok(reg) => reg,
        Err(_) => {
            return Err(InstructionError::InvalidRegister(string_of(string1)));
        },
    };
    match Register::from_chars(to_uppercase(string2).as_slice()) {
        Ok(src) => Ok(Register::pair_into(dst, src)),
        Err(_) => Err(InstructionError::InvalidRegister(string_of(string2))),
    }
}

/// Reads a symbol: a text of symbol characters that is no register name.
pub fn parse_symbol(string: &[char]) -> (res: Result<String, ()>)
    ensures
        match res {
            Ok(name) => spec_is_symbol(string@) && name@ == string@,
            Err(_) => !spec_is_symbol(string@),
        },
{
    if has_symbol_chars_only(string) {
        let upper = to_uppercase(string);
        match Register::from_chars(upper.as_slice()) {
            Ok(_) => Err(()),
            Err(_) => Ok(string_of(string)),
        }
    } else {
        Err(())
    }
}

/// Reads a 16-bit number, or else a symbol; `None` if the text is neither.
pub fn parse_or_symbol16(string: &[char]) -> (res: Option<Value<u16>>)
    ensures
        match spec_or_symbol16(string@) {
            Some(value) => res is Some && res->Some_0@ == value,
            None => res is None,
        },
{
    match parse_integer16(string) {
        Some(value) => Some(Value::Literal(value)),
        None => match parse_symbol(string) {
            Ok(name) => Some(Value::Symbol(name)),
            Err(_) => None,
        },
    }
}

/// Reads an 8-bit number, or else a symbol; `None` if the text is neither.
pub fn parse_or_symbol8(string: &[char]) -> (res: Option<Value<u8>>)
    ensures
        match spec_or_symbol8(string@) {
            Some(value) => res is Some && res->Some_0@ == value,
            None => res is None,
        },
{
    match parse_integer8(string) {
        Some(value) => Some(Value::Literal(value)),
        None => match parse_symbol(string) {
            Ok(name) => Some(Value::Symbol(name)),
            Err(_) => None,
        },
    }
}

/// The text after the mark of an immediate: after `#`, or after the width
/// letter and `#`.
fn immediate_body<'a>(string: &'a [char], letter: char) -> (body: Option<&'a [char]>)
    ensures
        match spec_immediate_body(string@, letter) {
            Some(text) => body is Some && body->Some_0@ == text,
            None => body is None,
        },
{
    if string.len() >= 1 && string[0] == '#' {
        Some(slice_subrange(string, 1, string.len()))
    } else if string.len() >= 2 && string[0] == letter && string[1] == '#' {
        Some(slice_subrange(string, 2, string.len()))
    } else {
        None
    }
}

/// Reads an address operand: a 16-bit number or a symbol; `InvalidNumber`
/// with the text for anything else.
pub fn parse_address(string: &[char]) -> (res: Result<Value<u16>, InstructionError>)
    ensures
        match spec_address(string@) {
            Ok(value) => res is Ok && res->Ok_0@ == value,
            Err(fault) => res is Err && res->Err_0@ == fault,
        },
{
    match parse_or_symbol16(string) {
        Some(value) => Ok(value),
        None => Err(InstructionError::InvalidNumber(string_of(string))),
    }
}

/// Reads a 16-bit immediate operand: `#` or `W#`, then a 16-bit number or
/// a symbol. `InvalidImmediate` with the text if the mark is missing,
/// `InvalidNumber` with the text after the mark if that is neither.
pub fn parse_immediate(string: &[char]) -> (res: Result<Value<u16>, InstructionError>)
    ensures
        match spec_immediate(string@) {
            Ok(value) => res is Ok && res->Ok_0@ == value,
            Err(fault) => res is Err && res->Err_0@ == fault,
        },
{
    match immediate_body(string, 'W') {
        Some(body) => match parse_or_symbol16(body) {
            Some(value) => Ok(value),
            None => Err(InstructionError::InvalidNumber(string_of(body))),
        },
        None => Err(InstructionError::InvalidImmediate(string_of(string))),
    }
}

/// Reads an 8-bit immediate operand: `#` or `B#`, then an 8-bit number; a
/// symbol is not taken. `InvalidImmediate` with the text if the mark is
/// missing, `InvalidNumber` with the text after the mark if that is no
/// 8-bit number.
pub fn parse_immediate8(string: &[char]) -> (res: Result<Value<u8>, InstructionError>)
    ensures
        match spec_immediate8(string@) {
            Ok(value) => res is Ok && res->Ok_0@ == value,
            Err(fault) => res is Err && res->Err_0@ == fault,
        },
{
    match immediate_body(string, 'B') {
        Some(body) => match parse_integer8(body) {
            Some(value) => Ok(Value::Literal(value)),
            None => Err(InstructionError::InvalidNumber(string_of(body))),
        },
        None => Err(InstructionError::InvalidImmediate(string_of(string))),
    }
}

/// Reads an 8-bit immediate operand that may also be a symbol.
pub fn parse_immediate8_symbol(string: &[char]) -> (res: Result<Value<u8>, InstructionError>)
    ensures
        match spec_immediate8_symbol(string@) {
            Ok(value) => res is Ok && res->Ok_0@ == value,
            Err(fault) => res is Err && res->Err_0@ == fault,
        },
{
    match immediate_body(string, 'B') {
        Some(body) => match parse_or_symbol8(body) {
            Some(value) => Ok(value),
            None => Err(InstructionError::InvalidNumber(string_of(body))),
        },
        None => Err(InstructionError::InvalidImmediate(string_of(string))),
    }
}

/// Reads an offset operand: a number from -128 to 255, kept as a signed
/// byte, or a symbol. `InvalidOffset` with the text for a 16-bit number
/// outside that range, `InvalidNumber` for what is neither number nor
/// symbol.
pub fn parse_offset(string: &[char]) -> (res: Result<Value<i8>, InstructionError>)
    ensures
        match spec_offset(string@) {
            Ok(value) => res is Ok && res->Ok_0@ == value,
            Err(fault) => res is Err && res->Err_0@ == fault,
        },
{
    match parse_integer8(string) {
        Some(value) => Ok(Value::Literal(offset_from_byte(value))),
        None => match parse_integer16(string) {
            Some(_) => Err(InstructionError::InvalidOffset(string_of(string))),
            None => match parse_symbol(string) {
                Ok(name) => Ok(Value::Symbol(name)),
                Err(_) => Err(InstructionError::InvalidNumber(string_of(string))),
            },
        },
    }
}

/// The operand that a piece between two commas holds: the piece without
/// the whitespace around it, or nothing if that leaves nothing.
pub open spec fn spec_piece(text: Seq<char>) -> Seq<Seq<char>> {
    if spec_trim(text).len() > 0 {
        seq![spec_trim(text)]
    } else {
        Seq::<Seq<char>>::empty()
    }
}

/// The operands of an operand list, from the piece that began at `start`
/// and has been scanned up to `from`.
pub open spec fn spec_operands_from(text: Seq<char>, from: int, start: int) -> Seq<Seq<char>>
    decreases text.len() - from,
{
    if from < 0 || from >= text.len() {
        spec_piece(text.subrange(start, text.len() as int))
    } else if text[from] == ',' {
        spec_piece(text.subrange(start, from)) + spec_operands_from(text, from + 1, from + 1)
    } else {
        spec_operands_from(text, from + 1, start)
    }
}

/// The operands of an operand list: the pieces between commas, each without
/// the whitespace around it, empty ones left out.
pub open spec fn spec_operands(text: Seq<char>) -> Seq<Seq<char>> {
    spec_operands_from(text, 0, 0)
}

/// The bytes and the patch that a number or a symbol of 16 bits emits at
/// the end of `bytes`.
pub open spec fn emit16(bytes: Seq<u8>, value: ValueView<u16>) -> (Seq<u8>, Option<PatchView>) {
    match value {
        ValueView::Literal(word) => (bytes + seq![low_byte(word), high_byte(word)], None),
        ValueView::Symbol(name) => (
            bytes + seq![0u8, 0u8],
            Some(PatchView { offset: bytes.len() as int, symbol: name, width: 2 }),
        ),
    }
}

/// What one schema entry does with the operands of a line: how many
/// operands are used afterwards, the bytes emitted so far, and the patch it
/// recorded, if any; or how deep into the operands it got and why it
/// failed.
pub open spec fn spec_consume(entry: Operand, ops: Seq<Seq<char>>, used: int, bytes: Seq<u8>) -> Result<
    (int, Seq<u8>, Option<PatchView>),
    (int, InstructionFault),
> {
    match entry {
        Operand::Hidden(byte) => Ok((used, bytes.push(byte), None)),
        Operand::RegisterPair => if used >= ops.len() {
            Err((used + 1, InstructionFault::MissingOperand(entry.slot())))
        } else if used + 1 >= ops.len() {
            Err((used + 2, InstructionFault::MissingOperand("src"@)))
        } else {
            match spec_register(ops[used]) {
                None => Err((used + 1, InstructionFault::InvalidRegister(ops[used]))),
                Some(dst) => match spec_register(ops[used + 1]) {
                    None => Err((used + 2, InstructionFault::InvalidRegister(ops[used + 1]))),
                    Some(src) => Ok((used + 2, bytes.push(pair_byte(dst, src) as u8), None)),
                },
            }
        },
        _ => if used >= ops.len() {
            Err((used + 1, InstructionFault::MissingOperand(entry.slot())))
        } else {
            let op = ops[used];
            match entry {
                Operand::Address => match spec_address(op) {
                    Ok(value) => Ok((used + 1, emit16(bytes, value).0, emit16(bytes, value).1)),
                    Err(fault) => Err((used + 1, fault)),
                },
                Operand::Word => match spec_immediate(op) {
                    Ok(value) => Ok((used + 1, emit16(bytes, value).0, emit16(bytes, value).1)),
                    Err(fault) => Err((used + 1, fault)),
                },
                Operand::Offset => match spec_offset(op) {
                    Ok(ValueView::Literal(offset)) => Ok(
                        (used + 1, bytes.push(offset_byte(offset)), None),
                    ),
                    Ok(ValueView::Symbol(name)) => Ok(
                        (
                            used + 1,
                            bytes.push(0u8),
                            Some(PatchView { offset: bytes.len() as int, symbol: name, width: 1 }),
                        ),
                    ),
                    Err(fault) => Err((used + 1, fault)),
                },
                Operand::Byte => match spec_immediate8(op) {
                    Ok(ValueView::Literal(byte)) => Ok((used + 1, bytes.push(byte), None)),
                    Ok(ValueView::Symbol(name)) => Ok(
                        (
                            used + 1,
                            bytes.push(0u8),
                            Some(PatchView { offset: bytes.len() as int, symbol: name, width: 1 }),
                        ),
                    ),
                    Err(fault) => Err((used + 1, fault)),
                },
                Operand::Register => match spec_register_code(op) {
                    Ok(code) => Ok((used + 1, bytes.push(code), None)),
                    Err(fault) => Err((used + 1, fault)),
                },
                Operand::Const(text) => if op == text {
                    Ok((used + 1, bytes, None))
                } else {
                    Err((used + 1, InstructionFault::InvalidConstant { expected: text, found: op }))
                },
                _ => Ok((used, bytes, None)),
            }
        },
    }
}

/// What the schema entries from index `k` on do with the operands of a
/// line. The row fits if every entry succeeds and no operand is left over.
pub open spec fn spec_match_from(
    schema: Seq<Operand>,
    k: int,
    ops: Seq<Seq<char>>,
    used: int,
    bytes: Seq<u8>,
    patches: Seq<PatchView>,
) -> Result<EmissionView, (int, InstructionFault)>
    decreases schema.len() - k,
{
    if k < 0 || k >= schema.len() {
        if 0 <= used < ops.len() {
            Err((used + 1, InstructionFault::ExtraOperand(ops[used])))
        } else {
            Ok(EmissionView { bytes, patches })
        }
    } else {
        match spec_consume(schema[k], ops, used, bytes) {
            Ok((next, emitted, patch)) => spec_match_from(
                schema,
                k + 1,
                ops,
                next,
                emitted,
                match patch {
                    Some(p) => patches.push(p),
                    None => patches,
                },
            ),
            Err(e) => Err(e),
        }
    }
}

/// What a row emits for the operands of a line: the opcode, then what each
/// schema entry emits; or how deep into the operands the row got and why it
/// does not fit.
pub open spec fn spec_match_row(row: RowView, ops: Seq<Seq<char>>) -> Result<
    EmissionView,
    (int, InstructionFault),
> {
    spec_match_from(row.operands, 0, ops, 0, seq![row.opcode], Seq::<PatchView>::empty())
}

/// The emission of the first row from index `i` on that has the mnemonic
/// and fits the operands. If none fits, the error of the row that got
/// deepest into the operands, the earliest of them; `best` holds depth and
/// error of the rows before `i`.
pub open spec fn spec_search(
    table: Seq<RowView>,
    i: int,
    mnemonic: Seq<char>,
    ops: Seq<Seq<char>>,
    best: (int, InstructionFault),
) -> Result<EmissionView, InstructionFault>
    decreases table.len() - i,
{
    if i < 0 || i >= table.len() {
        Err(best.1)
    } else if table[i].mnemonic != mnemonic {
        spec_search(table, i + 1, mnemonic, ops, best)
    } else {
        match spec_match_row(table[i], ops) {
            Ok(emission) => Ok(emission),
            Err(found) => spec_search(
                table,
                i + 1,
                mnemonic,
                ops,
                if best.0 < found.0 {
                    found
                } else {
                    best
                },
            ),
        }
    }
}

/// A line without its comment: what stands before the first `;`.
pub open spec fn spec_strip_comment(line: Seq<char>) -> Seq<char> {
    line.subrange(0, spec_find_char(line, 0, ';'))
}

/// What an instruction line emits under a table. The comment is left off;
/// a line with nothing else emits nothing. The first word, in upper case,
/// is the mnemonic and must be made of symbol characters; the rest is the
/// operand list.
pub open spec fn spec_instruction(table: Seq<RowView>, line: Seq<char>) -> Result<
    EmissionView,
    InstructionFault,
> {
    let text = spec_trim_start(spec_strip_comment(line));
    if text.len() == 0 {
        Ok(EmissionView { bytes: Seq::<u8>::empty(), patches: Seq::<PatchView>::empty() })
    } else {
        let end = spec_find_whitespace(text, 0);
        let word = text.subrange(0, end);
        let rest = if end < text.len() {
            text.subrange(end + 1, text.len() as int)
        } else {
            Seq::<char>::empty()
        };
        if !all_symbol_chars(word) {
            Err(InstructionFault::ExpectedMnemonic(word))
        } else {
            spec_search(
                table,
                0,
                unicode_uppercase(word),
                spec_operands(rest),
                (0, InstructionFault::InvalidMnemonic(unicode_uppercase(word))),
            )
        }
    }
}

/// The operands of an operand list: the pieces between commas, each without
/// the whitespace around it, empty ones left out.
pub fn operands<'a>(text: &'a [char]) -> (pieces: Vec<&'a [char]>)
    ensures
        texts(pieces@) == spec_operands(text@),
        2 * pieces@.len() <= text@.len() + 1,
{
    let mut pieces: Vec<&'a [char]> = Vec::new();
    let mut start: usize = 0;
    let mut at: usize = 0;
    while at < text.len()
        invariant
            start <= at <= text@.len(),
            2 * pieces@.len() <= start,
            texts(pieces@) + spec_operands_from(text@, at as int, start as int) == spec_operands(
                text@,
            ),
        decreases text@.len() - at,
    {
        if text[at] == ',' {
            let piece = trim(slice_subrange(text, start, at));
            let ghost before = pieces@;
            if piece.len() > 0 {
                pieces.push(piece);
                assert(texts(pieces@) =~= texts(before) + spec_piece(
                    text@.subrange(start as int, at as int),
                ));
            } else {
                assert(texts(pieces@) =~= texts(before) + spec_piece(
                    text@.subrange(start as int, at as int),
                ));
            }
            assert(texts(pieces@) + spec_operands_from(text@, at + 1, at + 1) =~= texts(before)
                + spec_operands_from(text@, at as int, start as int));
            start = at + 1;
        }
        at = at + 1;
    }
    let piece = trim(slice_subrange(text, start, text.len()));
    let ghost before = pieces@;
    if piece.len() > 0 {
        pieces.push(piece);
    }
    assert(texts(pieces@) =~= texts(before) + spec_piece(
        text@.subrange(start as int, text@.len() as int),
    ));
    pieces
}

/// Appends to `bytes` what a 16-bit number or symbol emits, and records the
/// patch of a symbol.
fn emit_value16(value: Value<u16>, bytes: &mut Vec<u8>, symbols: &mut Vec<Patch>)
    ensures
        final(bytes)@ == emit16(old(bytes)@, value@).0,
        patches_view(final(symbols)@) == match emit16(old(bytes)@, value@).1 {
            Some(patch) => patches_view(old(symbols)@).push(patch),
            None => patches_view(old(symbols)@),
        },
{
    match value {
        Value::Literal(word) => {
            let (low, high) = split_word(word);
            bytes.push(low);
            bytes.push(high);
            assert(bytes@ =~= old(bytes)@ + seq![low_byte(word), high_byte(word)]);
        },
        Value::Symbol(name) => {
            record(symbols, bytes.len(), name, 2);
            bytes.push(0);
            bytes.push(0);
            assert(bytes@ =~= old(bytes)@ + seq![0u8, 0u8]);
        },
    }
}

/// Appends a patch to a list.
fn record(symbols: &mut Vec<Patch>, offset: usize, symbol: String, width: usize)
    ensures
        patches_view(final(symbols)@) == patches_view(old(symbols)@).push(
            PatchView { offset: offset as int, symbol: symbol@, width: width as int },
        ),
{
    symbols.push(Patch { offset, symbol, width });
    assert(patches_view(symbols@) =~= patches_view(old(symbols)@).push(
        PatchView { offset: offset as int, symbol: symbol@, width: width as int },
    ));
}

/// Lets one schema entry take what it asks for from the operands of a line,
/// from operand `used` on: appends what it emits to `bytes` and the patch
/// it records to `symbols`, and says how many operands are used afterwards.
/// On failure it says how deep into the operands it got, and why.
fn consume(
    entry: &OperandType,
    ops: &Vec<&[char]>,
    used: usize,
    bytes: &mut Vec<u8>,
    symbols: &mut Vec<Patch>,
) -> (res: Result<usize, (usize, InstructionError)>)
    requires
        used <= ops@.len(),
        ops@.len() + 2 <= usize::MAX,
    ensures
        match spec_consume(entry@, texts(ops@), used as int, old(bytes)@) {
            Ok((next, emitted, patch)) => res == Ok::<usize, (usize, InstructionError)>(
                next as usize,
            ) && next <= ops@.len() && final(bytes)@ == emitted && emitted.len() >= old(
                bytes,
            )@.len() && patches_view(final(symbols)@) == match patch {
                Some(p) => patches_view(old(symbols)@).push(p),
                None => patches_view(old(symbols)@),
            } && match patch {
                Some(p) => p.offset == old(bytes)@.len() && p.offset + p.width <= emitted.len()
                    && 1 <= p.width <= 2,
                None => true,
            },
            Err((depth, fault)) => res is Err && res->Err_0.0 == depth && res->Err_0.1@ == fault,
        },
{
    match entry {
        OperandType::Hidden(byte) => {
            bytes.push(*byte);
            Ok(used)
        },
        OperandType::RegisterPair => {
            if used >= ops.len() {
                Err((used + 1, InstructionError::MissingOperand(entry.to_string())))
            } else if used + 1 >= ops.len() {
                Err((used + 2, InstructionError::MissingOperand(String::from_str("src"))))
            } else {
                let first = ops[used];
                let second = ops[used + 1];
                match parse_register(first) {
                    Err(e) => Err((used + 1, e)),
                    Ok(dst) => match parse_register(second) {
                        Err(e) => Err((used + 2, e)),
                        Ok(src) => {
                            bytes.push(dst * 16 + src);
                            Ok(used + 2)
                        },
                    },
                }
            }
        },
        _ => {
            if used >= ops.len() {
                return Err(
                    (used + 1, InstructionError::MissingOperand(entry.to_string())),
                );
            }
            let op = ops[used];
            match entry {
                OperandType::Address => match parse_address(op) {
                    Ok(value) => {
                        emit_value16(value, bytes, symbols);
                        Ok(used + 1)
                    },
                    Err(e) => Err((used + 1, e)),
                },
                OperandType::Word => match parse_immediate(op) {
                    Ok(value) => {
                        emit_value16(value, bytes, symbols);
                        Ok(used + 1)
                    },
                    Err(e) => Err((used + 1, e)),
                },
                OperandType::Offset => match parse_offset(op) {
                    Ok(Value::Literal(offset)) => {
                        bytes.push(offset_to_byte(offset));
                        Ok(used + 1)
                    },
                    Ok(Value::Symbol(name)) => {
                        record(symbols, bytes.len(), name, 1);
                        bytes.push(0);
                        Ok(used + 1)
                    },
                    Err(e) => Err((used + 1, e)),
                },
                OperandType::Byte => match parse_immediate8(op) {
                    Ok(Value::Literal(byte)) => {
                        bytes.push(byte);
                        Ok(used + 1)
                    },
                    Ok(Value::Symbol(name)) => {
                        record(symbols, bytes.len(), name, 1);
                        bytes.push(0);
                        Ok(used + 1)
                    },
                    Err(e) => Err((used + 1, e)),
                },
                OperandType::Register => match parse_register(op) {
                    Ok(code) => {
                        bytes.push(code);
                        Ok(used + 1)
                    },
                    Err(e) => Err((used + 1, e)),
                },
                OperandType::Const(text) => {
                    if chars_eq_str(op, text.as_str()) {
                        Ok(used + 1)
                    } else {
                        Err(
                            (
                                used + 1,
                                InstructionError::InvalidConstant {
                                    expected: text.clone(),
                                    found: string_of(op),
                                },
                            ),
                        )
                    }
                },
                _ => Ok(used),
            }
        },
    }
}

/// Matches the operands of a line against one row: emits the opcode, then
/// what each schema entry asks for, in order. The row fits if every entry
/// succeeds and no operand is left over. Otherwise the result says how deep
/// into the operands the row got, and why it does not fit.
pub fn match_row(row: &Row, ops: &Vec<&[char]>) -> (res: Result<
    InstructionEmission,
    (usize, InstructionError),
>)
    requires
        ops@.len() + 2 <= usize::MAX,
    ensures
        match spec_match_row(row@, texts(ops@)) {
            Ok(emission) => res is Ok && res->Ok_0@ == emission && emission.wf(),
            Err((depth, fault)) => res is Err && res->Err_0.0 == depth && res->Err_0.1@ == fault,
        },
{
    let mut bytes: Vec<u8> = Vec::new();
    bytes.push(row.opcode);
    assert(bytes@ =~= seq![row.opcode]);
    let mut symbols: Vec<Patch> = Vec::new();
    assert(patches_view(symbols@) =~= Seq::<PatchView>::empty());
    let mut used: usize = 0;
    let mut k: usize = 0;
    while k < row.operands.len()
        invariant
            k <= row.operands@.len(),
            used <= ops@.len(),
            ops@.len() + 2 <= usize::MAX,
            forall|i: int|
                0 <= i < patches_view(symbols@).len() ==> 0 <= (#[trigger] patches_view(
                    symbols@,
                )[i]).offset && patches_view(symbols@)[i].offset + patches_view(
                    symbols@,
                )[i].width <= bytes@.len(),
            spec_match_from(
                row@.operands,
                k as int,
                texts(ops@),
                used as int,
                bytes@,
                patches_view(symbols@),
            ) == spec_match_row(row@, texts(ops@)),
        decreases row.operands@.len() - k,
    {
        assert(row@.operands[k as int] == row.operands@[k as int]@);
        let ghost before = patches_view(symbols@);
        let ghost emitted = bytes@;
        let ghost step = spec_consume(row@.operands[k as int], texts(ops@), used as int, bytes@);
        match consume(&row.operands[k], ops, used, &mut bytes, &mut symbols) {
            Ok(next) => {
                used = next;
            },
            Err(e) => {
                return Err(e);
            },
        }
        proof {
            let after = patches_view(symbols@);
            let patch = step->Ok_0.2;
            assert forall|i: int| 0 <= i < after.len() implies 0 <= (#[trigger] after[i]).offset
                && after[i].offset + after[i].width <= bytes@.len() by {
                if i < before.len() {
                    assert(after[i] == before[i]);
                    assert(before[i].offset + before[i].width <= emitted.len());
                } else {
                    assert(patch is Some);
                    assert(after[i] == patch->Some_0);
                }
            }
        }
        k = k + 1;
    }
    if used < ops.len() {
        Err((used + 1, InstructionError::ExtraOperand(string_of(ops[used]))))
    } else {
        Ok(InstructionEmission { bytes, symbols })
    }
}

/// Assembles one instruction line under a table. The comment is left off;
/// a line with nothing else emits nothing. The first word, in upper case,
/// is the mnemonic; the rest is the operand list. The rows with that
/// mnemonic are tried in table order and the first that fits decides what
/// is emitted. If none fits, the error is that of the row that got deepest
/// into the operands, or `InvalidMnemonic` if no row has the mnemonic;
/// `ExpectedMnemonic` if the first word is not made of symbol characters.
pub fn parse_instruction(table: &[Row], line: &[char]) -> (res: Result<
    InstructionEmission,
    InstructionError,
>)
    ensures
        match spec_instruction(crate::table::table_view(table@), line@) {
            Ok(emission) => res is Ok && res->Ok_0@ == emission && emission.wf(),
            Err(fault) => res is Err && res->Err_0@ == fault,
        },
{
    let end = find_char(line, 0, ';');
    let text = trim_start(slice_subrange(line, 0, end));
    if text.len() == 0 {
        let emission = InstructionEmission { bytes: Vec::new(), symbols: Vec::new() };
        assert(emission@.patches =~= Seq::<PatchView>::empty());
        return Ok(emission);
    }
    let end = find_whitespace(text, 0);
    let word = slice_subrange(text, 0, end);
    let rest = if end < text.len() {
        slice_subrange(text, end + 1, text.len())
    } else {
        slice_subrange(text, text.len(), text.len())
    };
    assert(end >= text@.len() ==> rest@ =~= Seq::<char>::empty());
    if !has_symbol_chars_only(word) {
        return Err(InstructionError::ExpectedMnemonic(string_of(word)));
    }
    let mnemonic = to_uppercase(word);
    let ops = operands(rest);
    let ghost rows = crate::table::table_view(table@);
    let mut depth: usize = 0;
    let mut error = InstructionError::InvalidMnemonic(string_of(mnemonic.as_slice()));
    let mut i: usize = 0;
    assert(spec_instruction(rows, line@) == spec_search(
        rows,
        0,
        mnemonic@,
        texts(ops@),
        (0, InstructionFault::InvalidMnemonic(mnemonic@)),
    ));
    while i < table.len()
        invariant
            i <= table@.len(),
            rows == crate::table::table_view(table@),
            ops@.len() + 2 <= usize::MAX,
            spec_instruction(rows, line@) == spec_search(
                rows,
                0,
                mnemonic@,
                texts(ops@),
                (0, InstructionFault::InvalidMnemonic(mnemonic@)),
            ),
            spec_search(rows, i as int, mnemonic@, texts(ops@), (depth as int, error@))
                == spec_search(
                rows,
                0,
                mnemonic@,
                texts(ops@),
                (0, InstructionFault::InvalidMnemonic(mnemonic@)),
            ),
        decreases table@.len() - i,
    {
        assert(rows[i as int] == table@[i as int]@);
        if chars_eq_str(mnemonic.as_slice(), table[i].mnemonic.as_str()) {
            match match_row(&table[i], &ops) {
                Ok(emission) => {
                    return Ok(emission);
                },
                Err((reached, e)) => {
                    if depth < reached {
                        depth = reached;
                        error = e;
                    }
                },
            }
        }
        i = i + 1;
    }
    Err(error)
}

/// Why a directive line cannot be carried out.
#[derive(Debug, PartialEq, Eq, Clone)]
pub enum DirectiveError {
    /// The name after the `.` is no directive.
    UnknownDirective(String),
    /// The operand is neither a number of the width asked for nor a symbol.
    InvalidNumber(String),
    /// The line ends before the operand of this name.
    MissingOperand(String),
    /// The line has an operand too many.
    ExtraOperand(String),
    /// The operand is no text between double quotes.
    ExpectedString(String),
    /// The symbol is needed at once and has no value yet.
    UndefinedSymbol(String),
    /// The address lies below the start of the image.
    SymbolOutOfRange(u64),
}

/// Why a directive line cannot be carried out, as plain values.
pub ghost enum DirectiveFault {
    UnknownDirective(Seq<char>),
    InvalidNumber(Seq<char>),
    MissingOperand(Seq<char>),
    ExtraOperand(Seq<char>),
    ExpectedString(Seq<char>),
    UndefinedSymbol(Seq<char>),
    SymbolOutOfRange(u64),
}

impl View for DirectiveError {
    type V = DirectiveFault;

    open spec fn view(&self) -> DirectiveFault {
        match self {
            DirectiveError::UnknownDirective(text) => DirectiveFault::UnknownDirective(text@),
            DirectiveError::InvalidNumber(text) => DirectiveFault::InvalidNumber(text@),
            DirectiveError::MissingOperand(text) => DirectiveFault::MissingOperand(text@),
            DirectiveError::ExtraOperand(text) => DirectiveFault::ExtraOperand(text@),
            DirectiveError::ExpectedString(text) => DirectiveFault::ExpectedString(text@),
            DirectiveError::UndefinedSymbol(text) => DirectiveFault::UndefinedSymbol(text@),
            DirectiveError::SymbolOutOfRange(value) => DirectiveFault::SymbolOutOfRange(*value),
        }
    }
}

/// Why a source text cannot be assembled.
#[derive(Debug, PartialEq, Eq, Clone)]
pub enum CompileError {
    /// A line is no instruction.
    InstructionError(InstructionError),
    /// A directive cannot be carried out.
    DirectiveError(DirectiveError),
    /// A symbol is referred to and never defined.
    UndefinedSymbol(String),
    /// A symbol's value does not fit the bytes it goes into: the symbol and
    /// the number of bytes.
    SymbolOutOfRange(String, usize),
}

/// Why a source text cannot be assembled, as plain values.
pub ghost enum CompileFault {
    InstructionError(InstructionFault),
    DirectiveError(DirectiveFault),
    UndefinedSymbol(Seq<char>),
    SymbolOutOfRange(Seq<char>, int),
}

impl View for CompileError {
    type V = CompileFault;

    open spec fn view(&self) -> CompileFault {
        match self {
            CompileError::InstructionError(e) => CompileFault::InstructionError(e@),
            CompileError::DirectiveError(e) => CompileFault::DirectiveError(e@),
            CompileError::UndefinedSymbol(name) => CompileFault::UndefinedSymbol(name@),
            CompileError::SymbolOutOfRange(name, width) => CompileFault::SymbolOutOfRange(
                name@,
                *width as int,
            ),
        }
    }
}

/// The address at which the image is loaded.
pub const START_ADDRESS: u16 = 0x8000;

/// A symbol with its value.
#[derive(Debug, PartialEq, Eq, Clone)]
pub struct Symbol {
    pub name: String,
    pub value: u16,
}

/// The state of one assembly: the image so far, the output cursor, the
/// symbol table and the patch list.
#[derive(Debug, PartialEq, Eq, Clone)]
pub struct Assembly {
    pub binary: Vec<u8>,
    pub cursor: usize,
    /// Every binding in the order it was made; the latest binding of a name
    /// is its value.
    pub symbols: Vec<Symbol>,
    pub errata: Vec<Patch>,
}

/// The state of one assembly, as plain values.
pub ghost struct AssemblyView {
    pub binary: Seq<u8>,
    pub cursor: int,
    pub symbols: Seq<(Seq<char>, u16)>,
    pub patches: Seq<PatchView>,
}

/// The bindings that a symbol table holds, as plain values.
pub open spec fn symbols_view(symbols: Seq<Symbol>) -> Seq<(Seq<char>, u16)> {
    Seq::new(symbols.len(), |i: int| (symbols[i].name@, symbols[i].value))
}

impl View for Assembly {
    type V = AssemblyView;

    open spec fn view(&self) -> AssemblyView {
        AssemblyView {
            binary: self.binary@,
            cursor: self.cursor as int,
            symbols: symbols_view(self.symbols@),
            patches: patches_view(self.errata@),
        }
    }
}

/// The value of a symbol: that of its latest binding.
pub open spec fn spec_lookup(symbols: Seq<(Seq<char>, u16)>, name: Seq<char>) -> Option<u16>
    decreases symbols.len(),
{
    if symbols.len() == 0 {
        None
    } else if symbols.last().0 == name {
        Some(symbols.last().1)
    } else {
        spec_lookup(symbols.drop_last(), name)
    }
}

/// An image with zero bytes added up to a position, if it ends before it.
pub open spec fn spec_padded(binary: Seq<u8>, at: int) -> Seq<u8> {
    if binary.len() >= at {
        binary
    } else {
        binary + Seq::new((at - binary.len()) as nat, |i: int| 0u8)
    }
}

/// An image with `data` written at a position: the bytes there are
/// replaced, the image grows as far as the data reaches, and a gap before
/// the position is filled with zero bytes. Writing nothing changes nothing.
pub open spec fn spec_write(binary: Seq<u8>, at: int, data: Seq<u8>) -> Seq<u8> {
    if data.len() == 0 {
        binary
    } else {
        let padded = spec_padded(binary, at);
        Seq::new(
            if padded.len() >= at + data.len() {
                padded.len()
            } else {
                (at + data.len()) as nat
            },
            |i: int|
                if at <= i < at + data.len() {
                    data[i - at]
                } else {
                    padded[i]
                },
        )
    }
}

/// The address that a label at an output position stands for: the start
/// address plus the position, modulo 65536.
pub open spec fn label_address(cursor: int) -> u16 {
    ((START_ADDRESS + cursor) % 0x10000) as u16
}

/// The patches of an emission, moved to where the emission goes.
pub open spec fn shifted(patches: Seq<PatchView>, by: int) -> Seq<PatchView> {
    Seq::new(
        patches.len(),
        |i: int| PatchView { offset: patches[i].offset + by, ..patches[i] },
    )
}

impl AssemblyView {
    /// An assembly that has emitted nothing and knows no symbol.
    pub open spec fn empty() -> AssemblyView {
        AssemblyView {
            binary: Seq::<u8>::empty(),
            cursor: 0,
            symbols: Seq::<(Seq<char>, u16)>::empty(),
            patches: Seq::<PatchView>::empty(),
        }
    }

    /// The assembly with a symbol bound.
    pub open spec fn bind(self, name: Seq<char>, value: u16) -> AssemblyView {
        AssemblyView { symbols: self.symbols.push((name, value)), ..self }
    }

    /// The assembly with bytes written at the cursor and the cursor after
    /// them.
    pub open spec fn write(self, data: Seq<u8>) -> AssemblyView {
        AssemblyView {
            binary: spec_write(self.binary, self.cursor, data),
            cursor: self.cursor + data.len(),
            ..self
        }
    }

    /// The assembly with a patch recorded at the cursor.
    pub open spec fn patch(self, symbol: Seq<char>, width: int) -> AssemblyView {
        AssemblyView {
            patches: self.patches.push(PatchView { offset: self.cursor, symbol, width }),
            ..self
        }
    }

    /// The assembly with what an instruction line emitted: its patches at
    /// the cursor, then its bytes.
    pub open spec fn emit(self, emission: EmissionView) -> AssemblyView {
        (AssemblyView {
            patches: self.patches + shifted(emission.patches, self.cursor),
            ..self
        }).write(emission.bytes)
    }
}

/// The value of a directive operand that must be known at once: a 16-bit
/// number, or a symbol that is already bound.
pub open spec fn spec_value_now(symbols: Seq<(Seq<char>, u16)>, text: Seq<char>) -> Result<
    u16,
    DirectiveFault,
> {
    match spec_or_symbol16(text) {
        None => Err(DirectiveFault::InvalidNumber(text)),
        Some(ValueView::Literal(value)) => Ok(value),
        Some(ValueView::Symbol(name)) => match spec_lookup(symbols, name) {
            Some(value) => Ok(value),
            None => Err(DirectiveFault::UndefinedSymbol(name)),
        },
    }
}

/// The assembly after the data tokens from index `i` on, each a number of
/// the given width in bytes or a symbol to be patched.
pub open spec fn spec_data(state: AssemblyView, tokens: Seq<Seq<char>>, i: int, width: int) -> Result<
    AssemblyView,
    DirectiveFault,
>
    decreases tokens.len() - i,
{
    if i < 0 || i >= tokens.len() {
        Ok(state)
    } else if width == 1 {
        match spec_or_symbol8(tokens[i]) {
            None => Err(DirectiveFault::InvalidNumber(tokens[i])),
            Some(ValueView::Literal(byte)) => spec_data(
                state.write(seq![byte]),
                tokens,
                i + 1,
                width,
            ),
            Some(ValueView::Symbol(name)) => spec_data(
                state.patch(name, 1).write(seq![0u8]),
                tokens,
                i + 1,
                width,
            ),
        }
    } else {
        match spec_or_symbol16(tokens[i]) {
            None => Err(DirectiveFault::InvalidNumber(tokens[i])),
            Some(ValueView::Literal(word)) => spec_data(
                state.write(seq![low_byte(word), high_byte(word)]),
                tokens,
                i + 1,
                width,
            ),
            Some(ValueView::Symbol(name)) => spec_data(
                state.patch(name, 2).write(seq![0u8, 0u8]),
                tokens,
                i + 1,
                width,
            ),
        }
    }
}

/// The assembly after a directive. `def` binds a symbol to a value known
/// now; `db` and `dw` emit bytes and little-endian words; `org` moves the
/// cursor to an address of the image; `ascii` emits the bytes of a text
/// between double quotes. A comment ends the operands of every directive
/// but `ascii`.
pub open spec fn spec_directive(state: AssemblyView, name: Seq<char>, line: Seq<char>) -> Result<
    AssemblyView,
    DirectiveFault,
> {
    let args = spec_strip_comment(line);
    if name == "def"@ {
        let tokens = spec_tokens(args);
        if tokens.len() == 0 {
            Err(DirectiveFault::MissingOperand("symbol"@))
        } else if tokens.len() == 1 {
            Err(DirectiveFault::MissingOperand("value"@))
        } else if tokens.len() > 2 {
            Err(DirectiveFault::ExtraOperand(tokens[2]))
        } else {
            match spec_value_now(state.symbols, tokens[1]) {
                Ok(value) => Ok(state.bind(tokens[0], value)),
                Err(fault) => Err(fault),
            }
        }
    } else if name == "db"@ {
        spec_data(state, spec_tokens(args), 0, 1)
    } else if name == "dw"@ {
        spec_data(state, spec_tokens(args), 0, 2)
    } else if name == "org"@ {
        match spec_value_now(state.symbols, spec_trim(args)) {
            Ok(value) => if value >= START_ADDRESS {
                Ok(AssemblyView { cursor: value - START_ADDRESS, ..state })
            } else {
                Err(DirectiveFault::SymbolOutOfRange(value as u64))
            },
            Err(fault) => Err(fault),
        }
    } else if name == "ascii"@ {
        let text = spec_trim(line);
        if text.len() >= 2 && text[0] == '"' && text[text.len() - 1] == '"' {
            Ok(state.write(encode_utf8(text.subrange(1, text.len() - 1))))
        } else {
            Err(DirectiveFault::ExpectedString(line))
        }
    } else {
        Err(DirectiveFault::UnknownDirective(name))
    }
}

/// Where the rest of a line starts once its labels are taken off, from
/// position `from` on. A label is a symbol of at least one character
/// directly before a `:`, with nothing but whitespace before it.
pub open spec fn spec_labels_end(line: Seq<char>, from: int) -> int
    decreases line.len() - from,
{
    let start = spec_skip_whitespace(line, from);
    let colon = spec_find_char(line, start, ':');
    if 0 <= from <= start && start < colon && colon < line.len() && spec_is_symbol(
        line.subrange(start, colon),
    ) {
        spec_labels_end(line, colon + 1)
    } else {
        from
    }
}

/// The assembly with the labels of a line bound, from position `from` on:
/// each is bound to the address of the cursor.
pub open spec fn spec_bind_labels(state: AssemblyView, line: Seq<char>, from: int) -> AssemblyView
    decreases line.len() - from,
{
    let start = spec_skip_whitespace(line, from);
    let colon = spec_find_char(line, start, ':');
    if 0 <= from <= start && start < colon && colon < line.len() && spec_is_symbol(
        line.subrange(start, colon),
    ) {
        spec_bind_labels(
            state.bind(line.subrange(start, colon), label_address(state.cursor)),
            line,
            colon + 1,
        )
    } else {
        state
    }
}

/// The assembly after one line: its labels are bound to the cursor, then
/// its directive is carried out, if what follows begins with `.`, or else
/// its instruction is emitted.
pub open spec fn spec_line(table: Seq<RowView>, state: AssemblyView, line: Seq<char>) -> Result<
    AssemblyView,
    CompileFault,
> {
    let bound = spec_bind_labels(state, line, 0);
    let rest = spec_trim_start(line.subrange(spec_labels_end(line, 0), line.len() as int));
    if rest.len() > 0 && rest[0] == '.' {
        let body = rest.subrange(1, rest.len() as int);
        let space = spec_find_whitespace(body, 0);
        let name = body.subrange(0, space);
        let args = if space < body.len() {
            body.subrange(space + 1, body.len() as int)
        } else {
            Seq::<char>::empty()
        };
        match spec_directive(bound, name, args) {
            Ok(after) => Ok(after),
            Err(fault) => Err(CompileFault::DirectiveError(fault)),
        }
    } else {
        match spec_instruction(table, rest) {
            Ok(emission) => Ok(bound.emit(emission)),
            Err(fault) => Err(CompileFault::InstructionError(fault)),
        }
    }
}

/// A line as the assembler reads it: without a carriage return at its end.
pub open spec fn spec_line_text(line: Seq<char>) -> Seq<char> {
    if line.len() > 0 && line.last() == '\r' {
        line.drop_last()
    } else {
        line
    }
}

/// The assembly after the lines from index `i` on; or the index of the
/// first line that fails, with its error.
pub open spec fn spec_first_pass(
    table: Seq<RowView>,
    lines: Seq<Seq<char>>,
    i: int,
    state: AssemblyView,
) -> Result<AssemblyView, (int, CompileFault)>
    decreases lines.len() - i,
{
    if i < 0 || i >= lines.len() {
        Ok(state)
    } else {
        match spec_line(table, state, spec_line_text(lines[i])) {
            Ok(after) => spec_first_pass(table, lines, i + 1, after),
            Err(fault) => Err((i, fault)),
        }
    }
}

/// Whether a symbol's value fits one byte: from 0 to 255, or from -128 to
/// -1 in 16-bit two's complement.
pub open spec fn fits_byte(value: u16) -> bool {
    value <= 0xFF || value >= 0xFF80
}

/// The bytes that a patch of the given width writes for a value: its
/// little-endian bytes, cut to the width.
pub open spec fn patch_bytes(value: u16, width: int) -> Seq<u8> {
    if width == 1 {
        seq![low_byte(value)]
    } else {
        seq![low_byte(value), high_byte(value)]
    }
}

/// The image after the patches from index `i` on: each writes the value of
/// its symbol at its offset. A symbol without a binding is
/// `UndefinedSymbol`; a value that does not fit a patch of one byte is
/// `SymbolOutOfRange`.
pub open spec fn spec_second_pass(
    binary: Seq<u8>,
    symbols: Seq<(Seq<char>, u16)>,
    patches: Seq<PatchView>,
    i: int,
) -> Result<Seq<u8>, CompileFault>
    decreases patches.len() - i,
{
    if i < 0 || i >= patches.len() {
        Ok(binary)
    } else {
        let patch = patches[i];
        match spec_lookup(symbols, patch.symbol) {
            None => Err(CompileFault::UndefinedSymbol(patch.symbol)),
            Some(value) => if patch.width == 1 && !fits_byte(value) {
                Err(CompileFault::SymbolOutOfRange(patch.symbol, patch.width))
            } else {
                spec_second_pass(
                    spec_write(binary, patch.offset, patch_bytes(value, patch.width)),
                    symbols,
                    patches,
                    i + 1,
                )
            },
        }
    }
}

/// The lines of a source text: the pieces between line feeds.
pub open spec fn spec_lines(source: Seq<char>) -> Seq<Seq<char>> {
    spec_split(source, '\n')
}

/// The binary image that a source text assembles to under a table; or the
/// error, with the index of the line it occurred on if it occurred in the
/// first pass.
pub open spec fn spec_assemble(table: Seq<RowView>, source: Seq<char>) -> Result<
    Seq<u8>,
    (Option<int>, CompileFault),
> {
    match spec_first_pass(table, spec_lines(source), 0, AssemblyView::empty()) {
        Err((line, fault)) => Err((Some(line), fault)),
        Ok(state) => match spec_second_pass(state.binary, state.symbols, state.patches, 0) {
            Ok(binary) => Ok(binary),
            Err(fault) => Err((None, fault)),
        },
    }
}

/// The binary image that a source text assembles to under the instruction
/// table.
pub open spec fn spec_compile(source: Seq<char>) -> Result<Seq<u8>, (Option<int>, CompileFault)> {
    spec_assemble(isa_table(), source)
}

/// Writes `data` into an image at a position and says where the data ends:
/// bytes there are replaced, the image grows as far as the data reaches,
/// and a gap before the position is filled with zero bytes. Writing
/// nothing changes nothing.
pub fn write_at(binary: &mut Vec<u8>, at: usize, data: &[u8]) -> (end: usize)
    ensures
        final(binary)@ == spec_write(old(binary)@, at as int, data@),
        end == at + data@.len(),
        data@.len() > 0 ==> end <= final(binary)@.len(),
{
    if data.len() == 0 {
        return at;
    }
    while binary.len() < at
        invariant
            binary@.len() <= at || binary@ == old(binary)@,
            binary@.len() >= old(binary)@.len(),
            forall|i: int| 0 <= i < old(binary)@.len() ==> binary@[i] == old(binary)@[i],
            forall|i: int| old(binary)@.len() <= i < binary@.len() ==> binary@[i] == 0u8,
        decreases at - binary@.len(),
    {
        binary.push(0);
    }
    let ghost padded = binary@;
    assert(padded =~= spec_padded(old(binary)@, at as int));
    let mut i: usize = 0;
    let mut pos: usize = at;
    while i < data.len()
        invariant
            i <= data@.len(),
            pos == at + i,
            pos <= binary@.len(),
            padded.len() >= at,
            binary@.len() == if padded.len() >= at + i {
                padded.len()
            } else {
                (at + i) as nat
            },
            forall|k: int|
                0 <= k < binary@.len() ==> binary@[k] == if at <= k < at + i {
                    data@[k - at]
                } else {
                    padded[k]
                },
        decreases data@.len() - i,
    {
        if pos < binary.len() {
            binary[pos] = data[i];
        } else {
            binary.push(data[i]);
        }
        let length = binary.len();
        assert(pos < length);
        pos = pos + 1;
        i = i + 1;
    }
    assert(binary@ =~= spec_write(old(binary)@, at as int, data@));
    pos
}

impl Assembly {
    /// An assembly that has emitted nothing and knows no symbol.
    pub fn new() -> (state: Assembly)
        ensures
            state@ == AssemblyView::empty(),
    {
        let state = Assembly {
            binary: Vec::new(),
            cursor: 0,
            symbols: Vec::new(),
            errata: Vec::new(),
        };
        assert(state@.symbols =~= Seq::<(Seq<char>, u16)>::empty());
        assert(state@.patches =~= Seq::<PatchView>::empty());
        state
    }

    /// The value of a symbol: that of its latest binding, if it has one.
    pub fn lookup(&self, name: &String) -> (value: Option<u16>)
        ensures
            value == spec_lookup(self@.symbols, name@),
    {
        let mut i: usize = self.symbols.len();
        assert(symbols_view(self.symbols@).subrange(0, i as int) =~= symbols_view(self.symbols@));
        while i > 0
            invariant
                i <= self.symbols@.len(),
                spec_lookup(symbols_view(self.symbols@).subrange(0, i as int), name@)
                    == spec_lookup(symbols_view(self.symbols@), name@),
            decreases i,
        {
            let ghost bindings = symbols_view(self.symbols@).subrange(0, i as int);
            assert(bindings.last() == (
                self.symbols@[i - 1].name@,
                self.symbols@[i - 1].value,
            ));
            assert(bindings.drop_last() =~= symbols_view(self.symbols@).subrange(0, i - 1));
            if self.symbols[i - 1].name == *name {
                return Some(self.symbols[i - 1].value);
            }
            i = i - 1;
        }
        None
    }

    /// Binds a symbol to a value. A later binding of the same name takes
    /// its place.
    pub fn bind(&mut self, name: String, value: u16)
        ensures
            final(self)@ == old(self)@.bind(name@, value),
    {
        self.symbols.push(Symbol { name, value });
        assert(final(self)@.symbols =~= old(self)@.symbols.push((name@, value)));
    }

    /// Writes bytes at the cursor and moves the cursor past them.
    pub fn write(&mut self, data: &[u8])
        ensures
            final(self)@ == old(self)@.write(data@),
    {
        self.cursor = write_at(&mut self.binary, self.cursor, data);
    }

    /// Records at the cursor a reference to a symbol of the given width.
    pub fn patch(&mut self, symbol: String, width: usize)
        ensures
            final(self)@ == old(self)@.patch(symbol@, width as int),
    {
        record(&mut self.errata, self.cursor, symbol, width);
    }

    /// Takes in what an instruction line emitted: its patches at the
    /// cursor, then its bytes.
    pub fn emit(&mut self, emission: &InstructionEmission)
        requires
            emission@.wf(),
        ensures
            final(self)@ == old(self)@.emit(emission@),
    {
        let base = self.cursor;
        self.write(emission.bytes.as_slice());
        let mut i: usize = 0;
        assert(patches_view(self.errata@) =~= old(self)@.patches + shifted(
            emission@.patches.subrange(0, 0),
            base as int,
        ));
        while i < emission.symbols.len()
            invariant
                i <= emission.symbols@.len(),
                emission@.wf(),
                base + emission.bytes@.len() <= usize::MAX,
                self.binary@ == spec_write(old(self)@.binary, base as int, emission.bytes@),
                self.cursor == base + emission.bytes@.len(),
                self@.symbols == old(self)@.symbols,
                patches_view(self.errata@) == old(self)@.patches + shifted(
                    emission@.patches.subrange(0, i as int),
                    base as int,
                ),
            decreases emission.symbols@.len() - i,
        {
            let ghost before = patches_view(self.errata@);
            assert(emission@.patches[i as int] == emission.symbols@[i as int]@);
            let found = &emission.symbols[i];
            record(&mut self.errata, found.offset + base, found.symbol.clone(), found.width);
            i = i + 1;
            assert(patches_view(self.errata@) =~= old(self)@.patches + shifted(
                emission@.patches.subrange(0, i as int),
                base as int,
            ));
        }
        assert(emission@.patches.subrange(0, emission@.patches.len() as int)
            =~= emission@.patches);
    }
}

/// The value of a directive operand that must be known at once: a 16-bit
/// number, or a symbol that is already bound.
fn value_now(state: &Assembly, text: &[char]) -> (res: Result<u16, DirectiveError>)
    ensures
        match spec_value_now(state@.symbols, text@) {
            Ok(value) => res == Ok::<u16, DirectiveError>(value),
            Err(fault) => res is Err && res->Err_0@ == fault,
        },
{
    match parse_or_symbol16(text) {
        None => Err(DirectiveError::InvalidNumber(string_of(text))),
        Some(Value::Literal(value)) => Ok(value),
        Some(Value::Symbol(name)) => match state.lookup(&name) {
            Some(value) => Ok(value),
            None => Err(DirectiveError::UndefinedSymbol(name)),
        },
    }
}

/// Emits data tokens, each a number of the given width in bytes or a symbol
/// to be patched.
fn emit_data(state: &mut Assembly, tokens: &Vec<&[char]>, width: usize) -> (res: Result<
    (),
    DirectiveError,
>)
    requires
        width == 1 || width == 2,
    ensures
        match spec_data(old(state)@, texts(tokens@), 0, width as int) {
            Ok(after) => res is Ok && final(state)@ == after,
            Err(fault) => res is Err && res->Err_0@ == fault,
        },
{
    let mut i: usize = 0;
    while i < tokens.len()
        invariant
            i <= tokens@.len(),
            width == 1 || width == 2,
            spec_data(state@, texts(tokens@), i as int, width as int) == spec_data(
                old(state)@,
                texts(tokens@),
                0,
                width as int,
            ),
        decreases tokens@.len() - i,
    {
        let token = tokens[i];
        if width == 1 {
            match parse_or_symbol8(token) {
                None => {
                    return Err(DirectiveError::InvalidNumber(string_of(token)));
                },
                Some(Value::Literal(byte)) => {
                    let data = [byte];
                    assert(data@ =~= seq![byte]);
                    state.write(data.as_slice());
                },
                Some(Value::Symbol(name)) => {
                    state.patch(name, 1);
                    let data = [0u8];
                    assert(data@ =~= seq![0u8]);
                    state.write(data.as_slice());
                },
            }
        } else {
            match parse_or_symbol16(token) {
                None => {
                    return Err(DirectiveError::InvalidNumber(string_of(token)));
                },
                Some(Value::Literal(word)) => {
                    let (low, high) = split_word(word);
                    let data = [low, high];
                    assert(data@ =~= seq![low_byte(word), high_byte(word)]);
                    state.write(data.as_slice());
                },
                Some(Value::Symbol(name)) => {
                    state.patch(name, 2);
                    let data = [0u8, 0u8];
                    assert(data@ =~= seq![0u8, 0u8]);
                    state.write(data.as_slice());
                },
            }
        }
        i = i + 1;
    }
    Ok(())
}

/// Carries out a directive, given its name and what follows the name on the
/// line. `def SYM VALUE` binds a symbol to a number or to the value of a
/// symbol that is already bound; `db` and `dw` emit bytes and little-endian
/// words, recording a patch for each symbol; `org ADDR` moves the cursor to
/// an address of the image; `ascii "..."` emits the bytes of the text
/// between the quotes. A comment ends the operands of every directive but
/// `ascii`, whose text may hold a `;`. Any other name is
/// `UnknownDirective`.
pub fn parse_directive(directive: &[char], line: &[char], state: &mut Assembly) -> (res: Result<
    (),
    DirectiveError,
>)
    ensures
        match spec_directive(old(state)@, directive@, line@) {
            Ok(after) => res is Ok && final(state)@ == after,
            Err(fault) => res is Err && res->Err_0@ == fault,
        },
{
    let end = find_char(line, 0, ';');
    let args = slice_subrange(line, 0, end);
    if chars_eq_str(directive, "def") {
        let operands = tokens(args);
        if operands.len() == 0 {
            return Err(DirectiveError::MissingOperand(String::from_str("symbol")));
        }
        if operands.len() == 1 {
            return Err(DirectiveError::MissingOperand(String::from_str("value")));
        }
        if operands.len() > 2 {
            return Err(DirectiveError::ExtraOperand(string_of(operands[2])));
        }
        match value_now(state, operands[1]) {
            Ok(value) => {
                state.bind(string_of(operands[0]), value);
                Ok(())
            },
            Err(e) => Err(e),
        }
    } else if chars_eq_str(directive, "db") {
        let operands = tokens(args);
        emit_data(state, &operands, 1)
    } else if chars_eq_str(directive, "dw") {
        let operands = tokens(args);
        emit_data(state, &operands, 2)
    } else if chars_eq_str(directive, "org") {
        match value_now(state, trim(args)) {
            Ok(value) => {
                if value >= START_ADDRESS {
                    state.cursor = (value - START_ADDRESS) as usize;
                    Ok(())
                } else {
                    Err(DirectiveError::SymbolOutOfRange(value as u64))
                }
            },
            Err(e) => Err(e),
        }
    } else if chars_eq_str(directive, "ascii") {
        let text = trim(line);
        if text.len() >= 2 && text[0] == '"' && text[text.len() - 1] == '"' {
            let inner = string_of(slice_subrange(text, 1, text.len() - 1));
            state.write(inner.as_str().as_bytes());
            Ok(())
        } else {
            Err(DirectiveError::ExpectedString(string_of(line)))
        }
    } else {
        Err(DirectiveError::UnknownDirective(string_of(directive)))
    }
}

/// Finds the label that a line holds at position `from`: a symbol of at
/// least one character directly before a `:`, with nothing but whitespace
/// before it. Says where the label starts and where its `:` stands.
pub fn parse_label(line: &[char], from: usize) -> (res: Option<(usize, usize)>)
    requires
        from <= line@.len(),
    ensures
        match res {
            Some((start, colon)) => {
                &&& start == spec_skip_whitespace(line@, from as int)
                &&& colon == spec_find_char(line@, start as int, ':')
                &&& from <= start < colon < line@.len()
                &&& spec_is_symbol(line@.subrange(start as int, colon as int))
            },
            None => {
                let start = spec_skip_whitespace(line@, from as int);
                let colon = spec_find_char(line@, start, ':');
                !(from <= start && start < colon && colon < line@.len() && spec_is_symbol(
                    line@.subrange(start, colon),
                ))
            },
        },
{
    let start = skip_whitespace(line, from);
    let colon = find_char(line, start, ':');
    if start < colon && colon < line.len() {
        match parse_symbol(slice_subrange(line, start, colon)) {
            Ok(_) => Some((start, colon)),
            Err(_) => None,
        }
    } else {
        None
    }
}

/// The address that a label at an output position stands for.
fn address_of(cursor: usize) -> (address: u16)
    ensures
        address == label_address(cursor as int),
{
    let low: u32 = (cursor % 0x10000) as u32;
    ((low + 0x8000) % 0x10000) as u16
}

/// Binds the labels at the start of a line to the address of the cursor and
/// says where the rest of the line starts.
fn bind_labels(state: &mut Assembly, line: &[char]) -> (end: usize)
    ensures
        final(state)@ == spec_bind_labels(old(state)@, line@, 0),
        end == spec_labels_end(line@, 0),
        end <= line@.len(),
{
    let mut at: usize = 0;
    let length = line.len();
    loop
        invariant
            at <= line@.len(),
            line@.len() == length,
            spec_bind_labels(state@, line@, at as int) == spec_bind_labels(old(state)@, line@, 0),
            spec_labels_end(line@, at as int) == spec_labels_end(line@, 0),
        ensures
            state@ == spec_bind_labels(old(state)@, line@, 0),
            at == spec_labels_end(line@, 0),
            at <= line@.len(),
        decreases line@.len() - at,
    {
        match parse_label(line, at) {
            Some((start, colon)) => {
                let name = string_of(slice_subrange(line, start, colon));
                let address = address_of(state.cursor);
                state.bind(name, address);
                at = colon + 1;
            },
            None => {
                break ;
            },
        }
    }
    at
}

/// Assembles one line into an assembly: binds its labels to the cursor,
/// then carries out its directive, if what follows begins with `.`, or
/// else emits its instruction.
pub fn assemble_line(table: &[Row], state: &mut Assembly, line: &[char]) -> (res: Result<
    (),
    CompileError,
>)
    ensures
        match spec_line(table_view(table@), old(state)@, line@) {
            Ok(after) => res is Ok && final(state)@ == after,
            Err(fault) => res is Err && res->Err_0@ == fault,
        },
{
    let end = bind_labels(state, line);
    let rest = trim_start(slice_subrange(line, end, line.len()));
    if rest.len() > 0 && rest[0] == '.' {
        let body = slice_subrange(rest, 1, rest.len());
        let space = find_whitespace(body, 0);
        let name = slice_subrange(body, 0, space);
        let args = if space < body.len() {
            slice_subrange(body, space + 1, body.len())
        } else {
            slice_subrange(body, body.len(), body.len())
        };
        assert(space >= body@.len() ==> args@ =~= Seq::<char>::empty());
        match parse_directive(name, args, state) {
            Ok(()) => Ok(()),
            Err(e) => Err(CompileError::DirectiveError(e)),
        }
    } else {
        match parse_instruction(table, rest) {
            Ok(emission) => {
                state.emit(&emission);
                Ok(())
            },
            Err(e) => Err(CompileError::InstructionError(e)),
        }
    }
}

/// Fills in the symbol references of an image: each patch writes the value
/// of its symbol at its offset, little-endian and cut to the patch's
/// width. `UndefinedSymbol` for a symbol without a binding;
/// `SymbolOutOfRange` where a value does not fit a patch of one byte.
pub fn back_patch(state: Assembly) -> (res: Result<Vec<u8>, CompileError>)
    ensures
        match spec_second_pass(state@.binary, state@.symbols, state@.patches, 0) {
            Ok(binary) => res is Ok && res->Ok_0@ == binary,
            Err(fault) => res is Err && res->Err_0@ == fault,
        },
{
    let mut work = state;
    let ghost symbols = state@.symbols;
    let ghost patches = state@.patches;
    let mut i: usize = 0;
    while i < work.errata.len()
        invariant
            i <= work.errata@.len(),
            work@.symbols == symbols,
            work@.patches == patches,
            symbols == state@.symbols,
            patches == state@.patches,
            spec_second_pass(work@.binary, symbols, patches, i as int) == spec_second_pass(
                state@.binary,
                symbols,
                patches,
                0,
            ),
        decreases work.errata@.len() - i,
    {
        assert(patches[i as int] == work.errata@[i as int]@);
        let value = match work.lookup(&work.errata[i].symbol) {
            Some(value) => value,
            None => {
                return Err(CompileError::UndefinedSymbol(work.errata[i].symbol.clone()));
            },
        };
        let width = work.errata[i].width;
        let offset = work.errata[i].offset;
        if width == 1 && !(value <= 0xFF || value >= 0xFF80) {
            return Err(CompileError::SymbolOutOfRange(work.errata[i].symbol.clone(), width));
        }
        let (low, high) = split_word(value);
        if width == 1 {
            let data = [low];
            assert(data@ =~= patch_bytes(value, 1));
            write_at(&mut work.binary, offset, data.as_slice());
        } else {
            let data = [low, high];
            assert(data@ =~= patch_bytes(value, width as int));
            write_at(&mut work.binary, offset, data.as_slice());
        }
        i = i + 1;
    }
    Ok(work.binary)
}

/// Assembles a source text under a table. First pass: line by line, labels
/// are bound and directives and instructions emit into the image. Second
/// pass: the symbol references are filled in. An error of the first pass
/// comes with the index of its line, counted from zero.
pub fn assemble(table: &[Row], source: &[char]) -> (res: Result<
    Vec<u8>,
    (Option<usize>, CompileError),
>)
    ensures
        match spec_assemble(table_view(table@), source@) {
            Ok(binary) => res is Ok && res->Ok_0@ == binary,
            Err((line, fault)) => res is Err && res->Err_0.1@ == fault && match line {
                Some(number) => res->Err_0.0 == Some(number as usize),
                None => res->Err_0.0 is None,
            },
        },
{
    let lines = split(source, '\n');
    let mut state = Assembly::new();
    let ghost rows = table_view(table@);
    let mut i: usize = 0;
    while i < lines.len()
        invariant
            i <= lines@.len(),
            rows == table_view(table@),
            texts(lines@) == spec_lines(source@),
            spec_first_pass(rows, texts(lines@), i as int, state@) == spec_first_pass(
                rows,
                texts(lines@),
                0,
                AssemblyView::empty(),
            ),
        decreases lines@.len() - i,
    {
        let line = lines[i];
        let line = if line.len() > 0 && line[line.len() - 1] == '\r' {
            slice_subrange(line, 0, line.len() - 1)
        } else {
            line
        };
        assert(line@ =~= spec_line_text(texts(lines@)[i as int]));
        match assemble_line(table, &mut state, line) {
            Ok(()) => {},
            Err(e) => {
                return Err((Some(i), e));
            },
        }
        i = i + 1;
    }
    match back_patch(state) {
        Ok(binary) => Ok(binary),
        Err(e) => Err((None, e)),
    }
}

/// Assembles a source text into a binary image.
///
/// The source is read line by line. A line holds, in this order, any number
/// of labels, each a symbol directly before a `:`; one directive or one
/// instruction; and a comment from `;` to the end of the line. A label
/// stands for the address of the output cursor, which is the start address
/// plus the cursor. A symbol used where a number is expected is filled in
/// after the last line, wherever it is defined.
///
/// An error of a line comes with the line's index, counted from zero; an
/// error in filling in the symbols comes without one.
pub fn compile(source: &str) -> (res: Result<Vec<u8>, (Option<usize>, CompileError)>)
    ensures
        match spec_compile(source@) {
            Ok(binary) => res is Ok && res->Ok_0@ == binary,
            Err((line, fault)) => res is Err && res->Err_0.1@ == fault && match line {
                Some(number) => res->Err_0.0 == Some(number as usize),
                None => res->Err_0.0 is None,
            },
        },
{
    let table = instructions();
    let chars = chars_of(source);
    assemble(table.as_slice(), chars.as_slice())
}

/// Assembles one instruction line that refers to no symbol and hands out
/// its bytes; `None` if the line is no instruction or refers to a symbol.
pub fn compile_line(line: &str) -> (res: Option<Vec<u8>>)
    ensures
        match spec_instruction(isa_table(), line@) {
            Ok(emission) => if emission.patches.len() == 0 {
                res is Some && res->Some_0@ == emission.bytes
            } else {
                res is None
            },
            Err(_) => res is None,
        },
{
    let table = instructions();
    let chars = chars_of(line);
    match parse_instruction(table.as_slice(), chars.as_slice()) {
        Ok(emission) => {
            if emission.symbols.len() == 0 {
                Some(emission.bytes)
            } else {
                None
            }
        },
        Err(_) => None,
    }
}

/// Assembler determinism: the image or the error of an assembly depends on
/// the source text alone, so assembling the same source twice yields the
/// same bytes.
pub proof fn lemma_compile_is_deterministic(first: Seq<char>, second: Seq<char>)
    requires
        first == second,
    ensures
        spec_compile(first) == spec_compile(second),
{
}

/// What a write does to an image: the bytes written stand where they were
/// written, every other byte of the image stays, and the image does not
/// shrink.
pub proof fn lemma_write(binary: Seq<u8>, at: int, data: Seq<u8>, k: int)
    requires
        at >= 0,
    ensures
        spec_write(binary, at, data).len() >= binary.len(),
        data.len() > 0 ==> spec_write(binary, at, data).len() >= at + data.len(),
        at <= k < at + data.len() ==> spec_write(binary, at, data)[k] == data[k - at],
        0 <= k < binary.len() && !(at <= k < at + data.len()) ==> spec_write(binary, at, data)[k]
            == binary[k],
{
}

/// Whether every patch from index `i` on is sound: it lies at an offset of
/// the image and is one or two bytes wide.
pub open spec fn patches_sound(patches: Seq<PatchView>, i: int) -> bool {
    forall|k: int|
        i <= k < patches.len() ==> 0 <= (#[trigger] patches[k]).offset && 1 <= patches[k].width
            <= 2
}

/// Whether no patch from index `i` on covers a position.
pub open spec fn untouched(patches: Seq<PatchView>, i: int, at: int) -> bool {
    forall|k: int|
        i <= k < patches.len() ==> !((#[trigger] patches[k]).offset <= at < patches[k].offset
            + patches[k].width)
}

/// The second pass leaves alone every byte that no patch covers.
pub proof fn lemma_second_pass_keeps(
    binary: Seq<u8>,
    symbols: Seq<(Seq<char>, u16)>,
    patches: Seq<PatchView>,
    i: int,
    at: int,
)
    requires
        0 <= i,
        patches_sound(patches, i),
        spec_second_pass(binary, symbols, patches, i) is Ok,
        0 <= at < binary.len(),
        untouched(patches, i, at),
    ensures
        at < spec_second_pass(binary, symbols, patches, i)->Ok_0.len(),
        spec_second_pass(binary, symbols, patches, i)->Ok_0[at] == binary[at],
    decreases patches.len() - i,
{
    if i < patches.len() {
        let patch = patches[i];
        let value = spec_lookup(symbols, patch.symbol).unwrap();
        let data = patch_bytes(value, patch.width);
        lemma_write(binary, patch.offset, data, at);
        lemma_second_pass_keeps(
            spec_write(binary, patch.offset, data),
            symbols,
            patches,
            i + 1,
            at,
        );
    }
}

/// Symbol resolution, second pass: where the assembly succeeds, the bytes
/// of a patch hold the value of the patch's symbol, little-endian and cut
/// to the patch's width, unless a later patch covers them. For a patch of
/// two bytes whose symbol is a label bound at cursor `k`, these bytes are
/// the little-endian encoding of the start address plus `k`.
pub proof fn lemma_patch_holds_symbol_value(
    binary: Seq<u8>,
    symbols: Seq<(Seq<char>, u16)>,
    patches: Seq<PatchView>,
    i: int,
    j: int,
)
    requires
        0 <= i <= j < patches.len(),
        patches_sound(patches, i),
        spec_second_pass(binary, symbols, patches, i) is Ok,
        untouched(patches, j + 1, patches[j].offset),
        patches[j].width == 2 ==> untouched(patches, j + 1, patches[j].offset + 1),
    ensures
        spec_lookup(symbols, patches[j].symbol) is Some,
        ({
            let image = spec_second_pass(binary, symbols, patches, i)->Ok_0;
            let value = spec_lookup(symbols, patches[j].symbol).unwrap();
            let at = patches[j].offset;
            &&& at + patches[j].width <= image.len()
            &&& image[at] == low_byte(value)
            &&& patches[j].width == 2 ==> image[at + 1] == high_byte(value)
        }),
    decreases j - i,
{
    let patch = patches[i];
    let value = spec_lookup(symbols, patch.symbol).unwrap();
    let data = patch_bytes(value, patch.width);
    let written = spec_write(binary, patch.offset, data);
    if i < j {
        lemma_patch_holds_symbol_value(written, symbols, patches, i + 1, j);
    } else {
        lemma_write(binary, patch.offset, data, patch.offset);
        lemma_write(binary, patch.offset, data, patch.offset + 1);
        lemma_second_pass_keeps(written, symbols, patches, j + 1, patch.offset);
        if patch.width == 2 {
            lemma_second_pass_keeps(written, symbols, patches, j + 1, patch.offset + 1);
        }
    }
}

/// A symbol has the value that it was last bound to, and binding one symbol
/// leaves the value of every other as it was.
pub proof fn lemma_bind_then_lookup(
    state: AssemblyView,
    name: Seq<char>,
    value: u16,
    other: Seq<char>,
)
    ensures
        spec_lookup(state.bind(name, value).symbols, name) == Some(value),
        other != name ==> spec_lookup(state.bind(name, value).symbols, other) == spec_lookup(
            state.symbols,
            other,
        ),
{
    assert(state.bind(name, value).symbols.drop_last() =~= state.symbols);
}

/// Binding the labels of a line changes nothing but the symbol table, and
/// there it gives each name either the value it had or the address of the
/// cursor.
pub proof fn lemma_bind_labels(state: AssemblyView, line: Seq<char>, from: int, name: Seq<char>)
    ensures
        spec_bind_labels(state, line, from).cursor == state.cursor,
        spec_bind_labels(state, line, from).binary == state.binary,
        spec_bind_labels(state, line, from).patches == state.patches,
        spec_lookup(spec_bind_labels(state, line, from).symbols, name) == spec_lookup(
            state.symbols,
            name,
        ) || spec_lookup(spec_bind_labels(state, line, from).symbols, name) == Some(
            label_address(state.cursor),
        ),
    decreases line.len() - from,
{
    let start = spec_skip_whitespace(line, from);
    let colon = spec_find_char(line, start, ':');
    if 0 <= from <= start && start < colon && colon < line.len() && spec_is_symbol(
        line.subrange(start, colon),
    ) {
        let label = line.subrange(start, colon);
        let bound = state.bind(label, label_address(state.cursor));
        assert(bound.symbols.drop_last() =~= state.symbols);
        lemma_bind_labels(bound, line, colon + 1, name);
    }
}

/// Symbol resolution, first pass: a label stands for the address of the
/// output cursor of its line, which is the start address plus the cursor
/// while the cursor lies within the image.
pub proof fn lemma_label_is_bound_to_cursor(state: AssemblyView, line: Seq<char>, from: int)
    requires
        0 <= from <= spec_skip_whitespace(line, from),
        spec_skip_whitespace(line, from) < spec_find_char(
            line,
            spec_skip_whitespace(line, from),
            ':',
        ) < line.len(),
        spec_is_symbol(
            line.subrange(
                spec_skip_whitespace(line, from),
                spec_find_char(line, spec_skip_whitespace(line, from), ':'),
            ),
        ),
    ensures
        spec_lookup(
            spec_bind_labels(state, line, from).symbols,
            line.subrange(
                spec_skip_whitespace(line, from),
                spec_find_char(line, spec_skip_whitespace(line, from), ':'),
            ),
        ) == Some(label_address(state.cursor)),
        0 <= state.cursor < 0x8000 ==> label_address(state.cursor) == START_ADDRESS
            + state.cursor,
{
    let start = spec_skip_whitespace(line, from);
    let colon = spec_find_char(line, start, ':');
    let label = line.subrange(start, colon);
    let bound = state.bind(label, label_address(state.cursor));
    assert(bound.symbols.drop_last() =~= state.symbols);
    lemma_bind_labels(bound, line, colon + 1, label);
}

} // verus!
