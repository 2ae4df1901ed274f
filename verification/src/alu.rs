//! Arithmetic, logic, shifts and rotates on 16-bit words, each with the
//! FLAGS word that it leaves behind.

use vstd::prelude::*;
use crate::flag::{flag_is_set, get_flag, set_flag, with_flag, Flag};

verus! {

/// The value of a word read as a two's-complement number.
pub open spec fn signed(value: u16) -> int {
    if value >= 0x8000 {
        value - 0x10000
    } else {
        value as int
    }
}

/// The word that holds the low 16 bits of a number between -65536 and
/// 131071.
pub open spec fn wrapped(value: int) -> u16 {
    if value < 0 {
        (value + 0x10000) as u16
    } else if value > 0xFFFF {
        (value - 0x10000) as u16
    } else {
        value as u16
    }
}

/// Whether a number lies outside the range of a signed 16-bit word.
pub open spec fn overflows(value: int) -> bool {
    value < -0x8000 || value > 0x7FFF
}

/// A FLAGS word with ZERO and SIGN taken from a result, and every other bit
/// kept.
pub open spec fn with_result_flags(flags: u16, result: u16) -> u16 {
    with_flag(with_flag(flags, Flag::Zero, result == 0), Flag::Sign, result >= 0x8000)
}

/// A FLAGS word with CARRY taken from a shift, ZERO and SIGN from its
/// result, and every other bit kept.
pub open spec fn with_shift_flags(flags: u16, result: u16, carry: bool) -> u16 {
    with_result_flags(with_flag(flags, Flag::Carry, carry), result)
}

/// A FLAGS word with all four arithmetic flags taken from an operation, and
/// every other bit kept.
pub open spec fn with_arithmetic_flags(flags: u16, result: u16, carry: bool, overflow: bool) -> u16 {
    with_result_flags(
        with_flag(with_flag(flags, Flag::Carry, carry), Flag::Overflow, overflow),
        result,
    )
}

/// The sum of two words and a carry: the result, and the FLAGS word with
/// CARRY set on unsigned overflow and OVERFLOW on signed overflow.
pub open spec fn spec_add(a: u16, b: u16, carry_in: bool, flags: u16) -> (u16, u16) {
    let c: int = if carry_in {
        1
    } else {
        0
    };
    let result = wrapped(a + b + c);
    (
        result,
        with_arithmetic_flags(
            flags,
            result,
            a + b + c > 0xFFFF,
            overflows(signed(a) + signed(b) + c),
        ),
    )
}

/// The difference of two words and a borrow: the result, and the FLAGS word
/// with CARRY set on unsigned borrow and OVERFLOW on signed overflow.
pub open spec fn spec_subtract(a: u16, b: u16, borrow_in: bool, flags: u16) -> (u16, u16) {
    let c: int = if borrow_in {
        1
    } else {
        0
    };
    let result = wrapped(a - b - c);
    (
        result,
        with_arithmetic_flags(flags, result, a - b - c < 0, overflows(signed(a) - signed(b) - c)),
    )
}

/// A word shifted left by `count` modulo 16, and the FLAGS word with CARRY
/// holding the last bit shifted out (clear if none was).
pub open spec fn spec_shift_left(a: u16, count: u16, flags: u16) -> (u16, u16) {
    let n = count % 16;
    let result = a << n;
    let carry = n > 0 && (a >> ((16 - n) as u16)) & 1 == 1;
    (result, with_shift_flags(flags, result, carry))
}

/// A word shifted right by `count` modulo 16, and the FLAGS word with CARRY
/// holding the last bit shifted out (clear if none was).
pub open spec fn spec_shift_right(a: u16, count: u16, flags: u16) -> (u16, u16) {
    let n = count % 16;
    let result = a >> n;
    let carry = n > 0 && (a >> ((n - 1) as u16)) & 1 == 1;
    (result, with_shift_flags(flags, result, carry))
}

/// A word rotated left by `count` modulo 16.
pub open spec fn spec_rotate_left(a: u16, count: u16) -> u16 {
    let n = count % 16;
    if n == 0 {
        a
    } else {
        (a << n) | (a >> ((16 - n) as u16))
    }
}

/// A word rotated right by `count` modulo 16.
pub open spec fn spec_rotate_right(a: u16, count: u16) -> u16 {
    let n = count % 16;
    if n == 0 {
        a
    } else {
        (a >> n) | (a << ((16 - n) as u16))
    }
}

/// Sets ZERO and SIGN from a result and keeps every other bit.
pub fn result_flags(flags: u16, result: u16) -> (out: u16)
    ensures
        out == with_result_flags(flags, result),
{
    let mut out = flags;
    set_flag(&mut out, Flag::Zero, result == 0);
    set_flag(&mut out, Flag::Sign, result >= 0x8000);
    out
}

/// Sets CARRY from a shift, ZERO and SIGN from its result, and keeps every
/// other bit.
pub fn shift_flags(flags: u16, result: u16, carry: bool) -> (out: u16)
    ensures
        out == with_shift_flags(flags, result, carry),
{
    let mut out = flags;
    set_flag(&mut out, Flag::Carry, carry);
    result_flags(out, result)
}

/// Sets all four arithmetic flags from an operation and keeps every other
/// bit.
pub fn arithmetic_flags(flags: u16, result: u16, carry: bool, overflow: bool) -> (out: u16)
    ensures
        out == with_arithmetic_flags(flags, result, carry, overflow),
{
    let mut out = flags;
    set_flag(&mut out, Flag::Carry, carry);
    set_flag(&mut out, Flag::Overflow, overflow);
    result_flags(out, result)
}

/// The value of a word read as a two's-complement number.
fn to_signed(value: u16) -> (out: i32)
    ensures
        out == signed(value),
{
    if value >= 0x8000 {
        value as i32 - 0x10000
    } else {
        value as i32
    }
}

/// Adds two words and a carry. The result is the sum modulo 65536; CARRY is
/// set on unsigned overflow, OVERFLOW on signed overflow, ZERO and SIGN
/// from the result.
pub fn add_with_carry(a: u16, b: u16, carry_in: bool, flags: u16) -> (out: (u16, u16))
    ensures
        out == spec_add(a, b, carry_in, flags),
{
    let c: i32 = if carry_in {
        1
    } else {
        0
    };
    let sum: i32 = a as i32 + b as i32 + c;
    let carry = sum > 0xFFFF;
    let result: u16 = if carry {
        (sum - 0x10000) as u16
    } else {
        sum as u16
    };
    let wide: i32 = to_signed(a) + to_signed(b) + c;
    let overflow = wide < -0x8000 || wide > 0x7FFF;
    (result, arithmetic_flags(flags, result, carry, overflow))
}

/// Subtracts a word and a borrow from a word. The result is the difference
/// modulo 65536; CARRY is set on unsigned borrow, OVERFLOW on signed
/// overflow, ZERO and SIGN from the result.
pub fn subtract_with_borrow(a: u16, b: u16, borrow_in: bool, flags: u16) -> (out: (u16, u16))
    ensures
        out == spec_subtract(a, b, borrow_in, flags),
{
    let c: i32 = if borrow_in {
        1
    } else {
        0
    };
    let difference: i32 = a as i32 - b as i32 - c;
    let carry = difference < 0;
    let result: u16 = if carry {
        (difference + 0x10000) as u16
    } else {
        difference as u16
    };
    let wide: i32 = to_signed(a) - to_signed(b) - c;
    let overflow = wide < -0x8000 || wide > 0x7FFF;
    (result, arithmetic_flags(flags, result, carry, overflow))
}

/// Shifts a word left by `count` modulo 16. CARRY receives the last bit
/// shifted out and is cleared if the count is a multiple of 16; ZERO and
/// SIGN come from the result.
pub fn shift_left(a: u16, count: u16, flags: u16) -> (out: (u16, u16))
    ensures
        out == spec_shift_left(a, count, flags),
{
    let n: u16 = count % 16;
    let result: u16 = a << n;
    let carry = n > 0 && (a >> (16 - n)) & 1 == 1;
    (result, shift_flags(flags, result, carry))
}

/// Shifts a word right by `count` modulo 16. CARRY receives the last bit
/// shifted out and is cleared if the count is a multiple of 16; ZERO and
/// SIGN come from the result.
pub fn shift_right(a: u16, count: u16, flags: u16) -> (out: (u16, u16))
    ensures
        out == spec_shift_right(a, count, flags),
{
    let n: u16 = count % 16;
    let result: u16 = a >> n;
    let carry = n > 0 && (a >> (n - 1)) & 1 == 1;
    (result, shift_flags(flags, result, carry))
}

/// Rotates a word left by `count` modulo 16.
pub fn rotate_left(a: u16, count: u16) -> (out: u16)
    ensures
        out == spec_rotate_left(a, count),
{
    let n: u16 = count % 16;
    if n == 0 {
        a
    } else {
        (a << n) | (a >> (16 - n))
    }
}

/// Rotates a word right by `count` modulo 16.
pub fn rotate_right(a: u16, count: u16) -> (out: u16)
    ensures
        out == spec_rotate_right(a, count),
{
    let n: u16 = count % 16;
    if n == 0 {
        a
    } else {
        (a >> n) | (a << (16 - n))
    }
}

/// Setting ZERO and SIGN from a result leaves CARRY, OVERFLOW,
/// ENABLE_INTERRUPT and HALT as they were.
pub proof fn lemma_result_flags(flags: u16, result: u16)
    ensures
        flag_is_set(with_result_flags(flags, result), Flag::Zero) == (result == 0),
        flag_is_set(with_result_flags(flags, result), Flag::Sign) == (result >= 0x8000),
        flag_is_set(with_result_flags(flags, result), Flag::Carry) == flag_is_set(
            flags,
            Flag::Carry,
        ),
        flag_is_set(with_result_flags(flags, result), Flag::Overflow) == flag_is_set(
            flags,
            Flag::Overflow,
        ),
        flag_is_set(with_result_flags(flags, result), Flag::EnableInterrupt) == flag_is_set(
            flags,
            Flag::EnableInterrupt,
        ),
        flag_is_set(with_result_flags(flags, result), Flag::Halt) == flag_is_set(
            flags,
            Flag::Halt,
        ),
{
    let first = with_flag(flags, Flag::Zero, result == 0);
    crate::flag::lemma_with_flag(flags, Flag::Zero, result == 0, Flag::Sign);
    crate::flag::lemma_with_flag(flags, Flag::Zero, result == 0, Flag::Carry);
    crate::flag::lemma_with_flag(flags, Flag::Zero, result == 0, Flag::Overflow);
    crate::flag::lemma_with_flag(flags, Flag::Zero, result == 0, Flag::EnableInterrupt);
    crate::flag::lemma_with_flag(flags, Flag::Zero, result == 0, Flag::Halt);
    crate::flag::lemma_with_flag(first, Flag::Sign, result >= 0x8000, Flag::Zero);
    crate::flag::lemma_with_flag(first, Flag::Sign, result >= 0x8000, Flag::Carry);
    crate::flag::lemma_with_flag(first, Flag::Sign, result >= 0x8000, Flag::Overflow);
    crate::flag::lemma_with_flag(first, Flag::Sign, result >= 0x8000, Flag::EnableInterrupt);
    crate::flag::lemma_with_flag(first, Flag::Sign, result >= 0x8000, Flag::Halt);
}

/// Setting the four arithmetic flags makes each read back as given and
/// leaves ENABLE_INTERRUPT and HALT as they were.
pub proof fn lemma_arithmetic_flags(flags: u16, result: u16, carry: bool, overflow: bool)
    ensures
        flag_is_set(with_arithmetic_flags(flags, result, carry, overflow), Flag::Zero) == (result
            == 0),
        flag_is_set(with_arithmetic_flags(flags, result, carry, overflow), Flag::Sign) == (result
            >= 0x8000),
        flag_is_set(with_arithmetic_flags(flags, result, carry, overflow), Flag::Carry) == carry,
        flag_is_set(with_arithmetic_flags(flags, result, carry, overflow), Flag::Overflow)
            == overflow,
        flag_is_set(with_arithmetic_flags(flags, result, carry, overflow), Flag::EnableInterrupt)
            == flag_is_set(flags, Flag::EnableInterrupt),
        flag_is_set(with_arithmetic_flags(flags, result, carry, overflow), Flag::Halt)
            == flag_is_set(flags, Flag::Halt),
{
    let first = with_flag(flags, Flag::Carry, carry);
    let second = with_flag(first, Flag::Overflow, overflow);
    crate::flag::lemma_with_flag(flags, Flag::Carry, carry, Flag::Overflow);
    crate::flag::lemma_with_flag(flags, Flag::Carry, carry, Flag::EnableInterrupt);
    crate::flag::lemma_with_flag(flags, Flag::Carry, carry, Flag::Halt);
    crate::flag::lemma_with_flag(first, Flag::Overflow, overflow, Flag::Carry);
    crate::flag::lemma_with_flag(first, Flag::Overflow, overflow, Flag::EnableInterrupt);
    crate::flag::lemma_with_flag(first, Flag::Overflow, overflow, Flag::Halt);
    lemma_result_flags(second, result);
}

/// Setting the arithmetic flags touches the four lowest bits of the word
/// and no other bit.
pub proof fn lemma_arithmetic_flags_keep_other_bits(
    flags: u16,
    result: u16,
    carry: bool,
    overflow: bool,
)
    ensures
        with_arithmetic_flags(flags, result, carry, overflow) & 0xFFF0 == flags & 0xFFF0,
        with_result_flags(flags, result) & 0xFFFC == flags & 0xFFFC,
{
    let first = with_flag(flags, Flag::Carry, carry);
    let second = with_flag(first, Flag::Overflow, overflow);
    let third = with_flag(second, Flag::Zero, result == 0);
    let low = with_flag(flags, Flag::Zero, result == 0);
    assert(0xFFF0u16 & (1u16 << 0u16) == 0 && 0xFFF0u16 & (1u16 << 1u16) == 0 && 0xFFF0u16 & (1u16
        << 2u16) == 0 && 0xFFF0u16 & (1u16 << 3u16) == 0 && 0xFFFCu16 & (1u16 << 0u16) == 0
        && 0xFFFCu16 & (1u16 << 1u16) == 0) by (bit_vector);
    crate::flag::lemma_with_flag_keeps_other_bits(flags, Flag::Carry, carry, 0xFFF0);
    crate::flag::lemma_with_flag_keeps_other_bits(first, Flag::Overflow, overflow, 0xFFF0);
    crate::flag::lemma_with_flag_keeps_other_bits(second, Flag::Zero, result == 0, 0xFFF0);
    crate::flag::lemma_with_flag_keeps_other_bits(third, Flag::Sign, result >= 0x8000, 0xFFF0);
    crate::flag::lemma_with_flag_keeps_other_bits(flags, Flag::Zero, result == 0, 0xFFFC);
    crate::flag::lemma_with_flag_keeps_other_bits(low, Flag::Sign, result >= 0x8000, 0xFFFC);
}

/// What an addition leaves in the flags: ZERO and SIGN of the 16-bit sum,
/// CARRY if the exact sum does not fit in 16 bits, OVERFLOW if the exact
/// signed sum does not fit in 16 bits.
pub proof fn lemma_add_flags(a: u16, b: u16, carry_in: bool, flags: u16)
    ensures
        ({
            let c: int = if carry_in {
                1
            } else {
                0
            };
            let out = spec_add(a, b, carry_in, flags);
            &&& out.0 == wrapped(a + b + c)
            &&& out.1 == with_arithmetic_flags(
                flags,
                wrapped(a + b + c),
                a + b + c < 0 || a + b + c > 0xFFFF,
                overflows(signed(a) + signed(b) + c),
            )
        }),
{
}

/// What a subtraction leaves in the flags: ZERO and SIGN of the 16-bit
/// difference, CARRY if the exact difference is negative, OVERFLOW if the
/// exact signed difference does not fit in 16 bits.
pub proof fn lemma_subtract_flags(a: u16, b: u16, borrow_in: bool, flags: u16)
    ensures
        ({
            let c: int = if borrow_in {
                1
            } else {
                0
            };
            let out = spec_subtract(a, b, borrow_in, flags);
            &&& out.0 == wrapped(a - b - c)
            &&& out.1 == with_arithmetic_flags(
                flags,
                wrapped(a - b - c),
                a - b - c < 0 || a - b - c > 0xFFFF,
                overflows(signed(a) - signed(b) - c),
            )
        }),
{
}

} // verus!
