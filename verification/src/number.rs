//! Integer literals: the syntax that the assembler accepts for numbers, and
//! the conversion of digit strings by the `num` crate.

use vstd::prelude::*;
use vstd::slice::slice_subrange;
use crate::text::string_of;

verus! {

/// The error of a failed conversion of a digit string.
#[verifier::external_type_specification]
#[verifier::external_body]
pub struct ExParseIntError(core::num::ParseIntError);

/// The value of a character as a digit in a radix: `0`-`9` count from zero,
/// letters of either case from ten; `None` if the character is no digit or
/// its value is not below the radix.
pub open spec fn digit_value(c: char, radix: int) -> Option<int> {
    let code = c as u32;
    let value: int = if 48 <= code <= 57 {
        code - 48
    } else if 65 <= code <= 90 {
        code - 65 + 10
    } else if 97 <= code <= 122 {
        code - 97 + 10
    } else {
        36
    };
    if value < radix {
        Some(value)
    } else {
        None
    }
}

/// The number that the digits from `from` on add to `sum`, most significant
/// digit first; `None` if one of the characters is no digit of the radix.
pub open spec fn accumulate(text: Seq<char>, from: int, radix: int, sum: int) -> Option<int>
    decreases text.len() - from,
{
    if from < 0 || from >= text.len() {
        Some(sum)
    } else {
        match digit_value(text[from], radix) {
            Some(digit) => accumulate(text, from + 1, radix, sum * radix + digit),
            None => None,
        }
    }
}

/// The number that a digit string stands for in a radix: an optional sign,
/// `+` or, where `signed`, `-`, then at least one digit and nothing else.
pub open spec fn literal(text: Seq<char>, radix: int, signed: bool) -> Option<int> {
    if text.len() == 0 {
        None
    } else if text[0] == '+' {
        if text.len() == 1 {
            None
        } else {
            accumulate(text, 1, radix, 0)
        }
    } else if text[0] == '-' && signed {
        if text.len() == 1 {
            None
        } else {
            match accumulate(text, 1, radix, 0) {
                Some(value) => Some(-value),
                None => None,
            }
        }
    } else {
        accumulate(text, 0, radix, 0)
    }
}

/// The number that a digit string stands for if it lies between `low` and
/// `high`.
pub open spec fn literal_within(text: Seq<char>, radix: int, signed: bool, low: int, high: int) -> Option<
    int,
> {
    match literal(text, radix, signed) {
        Some(value) => if low <= value <= high {
            Some(value)
        } else {
            None
        },
        None => None,
    }
}

/// Calls `<u16 as num::Num>::from_str_radix`, which hands the text to
/// `u16::from_str_radix`: an optional `+`, then digits of the radix only.
/// The call succeeds exactly if the text is such a literal and its value
/// fits in 16 bits, and then yields that value.
#[verifier::external_body]
pub(crate) fn u16_from_str_radix(text: &str, radix: u32) -> (res: Result<
    u16,
    core::num::ParseIntError,
>)
    requires
        2 <= radix <= 36,
    ensures
        res is Ok <==> literal_within(text@, radix as int, false, 0, 0xFFFF) is Some,
        res is Ok ==> Some(res->Ok_0 as int) == literal_within(text@, radix as int, false, 0, 0xFFFF),
{
    <u16 as num::Num>::from_str_radix(text, radix)
}

/// Calls `<i16 as num::Num>::from_str_radix`, which hands the text to
/// `i16::from_str_radix`: an optional `+` or `-`, then digits of the radix
/// only. The call succeeds exactly if the text is such a literal and its
/// value fits in a signed 16-bit word, and then yields that value.
#[verifier::external_body]
pub(crate) fn i16_from_str_radix(text: &str, radix: u32) -> (res: Result<
    i16,
    core::num::ParseIntError,
>)
    requires
        2 <= radix <= 36,
    ensures
        res is Ok <==> literal_within(text@, radix as int, true, -0x8000, 0x7FFF) is Some,
        res is Ok ==> Some(res->Ok_0 as int) == literal_within(
            text@,
            radix as int,
            true,
            -0x8000,
            0x7FFF,
        ),
{
    <i16 as num::Num>::from_str_radix(text, radix)
}

/// Calls `<u8 as num::Num>::from_str_radix`, which hands the text to
/// `u8::from_str_radix`: an optional `+`, then digits of the radix only.
/// The call succeeds exactly if the text is such a literal and its value
/// fits in 8 bits, and then yields that value.
#[verifier::external_body]
pub(crate) fn u8_from_str_radix(text: &str, radix: u32) -> (res: Result<
    u8,
    core::num::ParseIntError,
>)
    requires
        2 <= radix <= 36,
    ensures
        res is Ok <==> literal_within(text@, radix as int, false, 0, 0xFF) is Some,
        res is Ok ==> Some(res->Ok_0 as int) == literal_within(text@, radix as int, false, 0, 0xFF),
{
    <u8 as num::Num>::from_str_radix(text, radix)
}

/// Calls `<i8 as num::Num>::from_str_radix`, which hands the text to
/// `i8::from_str_radix`: an optional `+` or `-`, then digits of the radix
/// only. The call succeeds exactly if the text is such a literal and its
/// value fits in a signed byte, and then yields that value.
#[verifier::external_body]
pub(crate) fn i8_from_str_radix(text: &str, radix: u32) -> (res: Result<
    i8,
    core::num::ParseIntError,
>)
    requires
        2 <= radix <= 36,
    ensures
        res is Ok <==> literal_within(text@, radix as int, true, -0x80, 0x7F) is Some,
        res is Ok ==> Some(res->Ok_0 as int) == literal_within(text@, radix as int, true, -0x80, 0x7F),
{
    <i8 as num::Num>::from_str_radix(text, radix)
}

/// The radix that the first character of a number selects: `$` sixteen, `%`
/// two, a leading `0` before further characters eight, anything else ten.
pub open spec fn radix_of(text: Seq<char>) -> int {
    if text.len() > 0 && text[0] == '$' {
        16
    } else if text.len() > 0 && text[0] == '%' {
        2
    } else if text.len() > 1 && text[0] == '0' {
        8
    } else {
        10
    }
}

/// The digit string of a number: the text after its radix prefix.
pub open spec fn digits_of(text: Seq<char>) -> Seq<char> {
    if radix_of(text) == 10 {
        text
    } else {
        text.subrange(1, text.len() as int)
    }
}

/// The number that a text stands for: `$hex`, `%binary`, `0octal` or bare
/// decimal, each with an optional sign after the prefix.
pub open spec fn spec_number(text: Seq<char>) -> Option<int> {
    literal(digits_of(text), radix_of(text), true)
}

/// The 16-bit word that a number text stands for: values from 0 to 65535 as
/// they are, values from -32768 to -1 in two's complement; `None` if the
/// text is no number or its value lies outside that range.
pub open spec fn spec_integer16(text: Seq<char>) -> Option<u16> {
    match spec_number(text) {
        Some(value) => if 0 <= value <= 0xFFFF {
            Some(value as u16)
        } else if -0x8000 <= value < 0 {
            Some((value + 0x10000) as u16)
        } else {
            None
        },
        None => None,
    }
}

/// The byte that a number text stands for: values from 0 to 255 as they
/// are, values from -128 to -1 in two's complement; `None` if the text is
/// no number or its value lies outside that range.
pub open spec fn spec_integer8(text: Seq<char>) -> Option<u8> {
    match spec_number(text) {
        Some(value) => if 0 <= value <= 0xFF {
            Some(value as u8)
        } else if -0x80 <= value < 0 {
            Some((value + 0x100) as u8)
        } else {
            None
        },
        None => None,
    }
}

/// A run of digits never makes a number smaller: what it yields is at least
/// the sum it started from.
pub proof fn lemma_accumulate_grows(text: Seq<char>, from: int, radix: int, sum: int)
    requires
        radix >= 1,
        sum >= 0,
        accumulate(text, from, radix, sum) is Some,
    ensures
        accumulate(text, from, radix, sum).unwrap() >= sum,
    decreases text.len() - from,
{
    if 0 <= from < text.len() {
        let digit = digit_value(text[from], radix).unwrap();
        assert(sum * radix + digit >= sum) by (nonlinear_arith)
            requires
                radix >= 1,
                sum >= 0,
                digit >= 0,
        ;
        lemma_accumulate_grows(text, from + 1, radix, sum * radix + digit);
    }
}

/// A literal without a minus sign is not negative, one with a minus sign is
/// not positive, and an unsigned literal is a signed literal without a
/// minus sign.
pub proof fn lemma_literal_signs(text: Seq<char>, radix: int)
    requires
        2 <= radix <= 36,
    ensures
        literal(text, radix, false) is Some ==> literal(text, radix, false).unwrap() >= 0
            && literal(text, radix, true) == literal(text, radix, false),
        literal(text, radix, true) is Some && literal(text, radix, false) is None ==> literal(
            text,
            radix,
            true,
        ).unwrap() <= 0,
{
    if text.len() > 0 {
        if text[0] == '+' {
            if text.len() > 1 && accumulate(text, 1, radix, 0) is Some {
                lemma_accumulate_grows(text, 1, radix, 0);
            }
        } else if text[0] == '-' {
            assert(digit_value('-', radix) is None);
            if text.len() > 1 && accumulate(text, 1, radix, 0) is Some {
                lemma_accumulate_grows(text, 1, radix, 0);
            }
        } else {
            if accumulate(text, 0, radix, 0) is Some {
                lemma_accumulate_grows(text, 0, radix, 0);
            }
        }
    }
}

/// Splits a number text into its radix and its digit string.
fn radix_and_digits<'a>(text: &'a [char]) -> (res: (u32, &'a [char]))
    ensures
        res.0 == radix_of(text@),
        res.1@ == digits_of(text@),
        2 <= res.0 <= 36,
{
    if text.len() > 0 && text[0] == '$' {
        (16, slice_subrange(text, 1, text.len()))
    } else if text.len() > 0 && text[0] == '%' {
        (2, slice_subrange(text, 1, text.len()))
    } else if text.len() > 1 && text[0] == '0' {
        (8, slice_subrange(text, 1, text.len()))
    } else {
        assert(text@.subrange(0, text@.len() as int) =~= text@);
        (10, slice_subrange(text, 0, text.len()))
    }
}

/// Reads a number as a 16-bit word: `$hex`, `%binary`, `0octal` or bare
/// decimal. The text is tried as an unsigned and then as a signed 16-bit
/// number; a negative value is kept in two's complement.
pub fn parse_integer16(text: &[char]) -> (res: Option<u16>)
    ensures
        res == spec_integer16(text@),
{
    let (radix, digits) = radix_and_digits(text);
    let digits = string_of(digits);
    proof {
        lemma_literal_signs(digits@, radix as int);
    }
    match u16_from_str_radix(digits.as_str(), radix) {
        Ok(value) => Some(value),
        Err(_) => match i16_from_str_radix(digits.as_str(), radix) {
            Ok(value) => {
                if value < 0 {
                    Some((value as i32 + 0x10000) as u16)
                } else {
                    Some(value as u16)
                }
            },
            Err(_) => None,
        },
    }
}

/// Reads a number as a byte: `$hex`, `%binary`, `0octal` or bare decimal.
/// The text is tried as an unsigned and then as a signed 8-bit number; a
/// negative value is kept in two's complement.
pub fn parse_integer8(text: &[char]) -> (res: Option<u8>)
    ensures
        res == spec_integer8(text@),
{
    let (radix, digits) = radix_and_digits(text);
    let digits = string_of(digits);
    proof {
        lemma_literal_signs(digits@, radix as int);
    }
    match u8_from_str_radix(digits.as_str(), radix) {
        Ok(value) => Some(value),
        Err(_) => match i8_from_str_radix(digits.as_str(), radix) {
            Ok(value) => {
                if value < 0 {
                    Some((value as i16 + 0x100) as u8)
                } else {
                    Some(value as u8)
                }
            },
            Err(_) => None,
        },
    }
}

} // verus!
