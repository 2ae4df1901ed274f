//! The flag bits of the FLAGS word.

use vstd::prelude::*;
use crate::text::{chars_eq_str, chars_of};

verus! {

/// A named bit of the FLAGS word.
#[derive(Debug, PartialEq, Eq, Structural, PartialOrd, Ord, Hash, Clone, Copy)]
pub enum Flag {
    Zero,
    Sign,
    Carry,
    Overflow,
    EnableInterrupt,
    Halt,
}

/// How many flags there are.
pub const FLAGS: usize = 6;

/// The flag at a position of the list of flags, in the order of their bits.
pub open spec fn spec_flag_at(index: int) -> Flag {
    if index == 0 {
        Flag::Zero
    } else if index == 1 {
        Flag::Sign
    } else if index == 2 {
        Flag::Carry
    } else if index == 3 {
        Flag::Overflow
    } else if index == 4 {
        Flag::EnableInterrupt
    } else {
        Flag::Halt
    }
}

/// The flag at a position of the list of flags, in the order of their bits.
pub fn flag_at(index: usize) -> (flag: Flag)
    requires
        index < FLAGS,
    ensures
        flag == spec_flag_at(index as int),
{
    if index == 0 {
        Flag::Zero
    } else if index == 1 {
        Flag::Sign
    } else if index == 2 {
        Flag::Carry
    } else if index == 3 {
        Flag::Overflow
    } else if index == 4 {
        Flag::EnableInterrupt
    } else {
        Flag::Halt
    }
}

/// The flag at a bit position of the FLAGS word, if that bit is assigned.
pub open spec fn flag_of_bit(bit: int) -> Option<Flag> {
    if bit == 0 {
        Some(Flag::Zero)
    } else if bit == 1 {
        Some(Flag::Sign)
    } else if bit == 2 {
        Some(Flag::Carry)
    } else if bit == 3 {
        Some(Flag::Overflow)
    } else if bit == 6 {
        Some(Flag::EnableInterrupt)
    } else if bit == 7 {
        Some(Flag::Halt)
    } else {
        None
    }
}

/// The flag that an assembler symbol names, if any.
pub open spec fn flag_of_name(name: Seq<char>) -> Option<Flag> {
    if name == "ZF"@ {
        Some(Flag::Zero)
    } else if name == "SF"@ {
        Some(Flag::Sign)
    } else if name == "CF"@ {
        Some(Flag::Carry)
    } else if name == "OF"@ {
        Some(Flag::Overflow)
    } else if name == "EIF"@ {
        Some(Flag::EnableInterrupt)
    } else if name == "HLT"@ {
        Some(Flag::Halt)
    } else {
        None
    }
}

impl Flag {
    /// The bit position of the flag in the FLAGS word.
    pub open spec fn spec_bit(self) -> u16 {
        match self {
            Flag::Zero => 0,
            Flag::Sign => 1,
            Flag::Carry => 2,
            Flag::Overflow => 3,
            Flag::EnableInterrupt => 6,
            Flag::Halt => 7,
        }
    }

    /// The word with only this flag's bit set.
    pub open spec fn spec_bitmask(self) -> u16 {
        1u16 << self.spec_bit()
    }

    /// The assembler symbol of the flag.
    pub open spec fn spec_name(self) -> Seq<char> {
        match self {
            Flag::Zero => "ZF"@,
            Flag::Sign => "SF"@,
            Flag::Carry => "CF"@,
            Flag::Overflow => "OF"@,
            Flag::EnableInterrupt => "EIF"@,
            Flag::Halt => "HLT"@,
        }
    }

    /// The bit position of the flag in the FLAGS word.
    pub fn bit(&self) -> (bit: u8)
        ensures
            bit == self.spec_bit(),
            bit < 16,
            flag_of_bit(bit as int) == Some(*self),
    {
        match self {
            Flag::Zero => 0,
            Flag::Sign => 1,
            Flag::Carry => 2,
            Flag::Overflow => 3,
            Flag::EnableInterrupt => 6,
            Flag::Halt => 7,
        }
    }

    /// The word with only this flag's bit set.
    pub fn to_bitmask(&self) -> (mask: u16)
        ensures
            mask == self.spec_bitmask(),
    {
        let bit: u16 = self.bit() as u16;
        1u16 << bit
    }

    /// The flag at a bit position; `Err` where the bit is reserved.
    pub fn try_from_bit(value: u8) -> (res: Result<Flag, ()>)
        ensures
            match flag_of_bit(value as int) {
                Some(flag) => res == Ok::<Flag, ()>(flag),
                None => res == Err::<Flag, ()>(()),
            },
    {
        match value {
            0 => Ok(Flag::Zero),
            1 => Ok(Flag::Sign),
            2 => Ok(Flag::Carry),
            3 => Ok(Flag::Overflow),
            6 => Ok(Flag::EnableInterrupt),
            7 => Ok(Flag::Halt),
            _ => Err(()),
        }
    }

    /// The flag that an assembler symbol names (`ZF`, `SF`, `CF`, `OF`, `EIF`,
    /// `HLT`); `Err` for any other text.
    pub fn from_chars(name: &[char]) -> (res: Result<Flag, ()>)
        ensures
            match flag_of_name(name@) {
                Some(flag) => res == Ok::<Flag, ()>(flag),
                None => res is Err,
            },
    {
        if chars_eq_str(name, "ZF") {
            Ok(Flag::Zero)
        } else if chars_eq_str(name, "SF") {
            Ok(Flag::Sign)
        } else if chars_eq_str(name, "CF") {
            Ok(Flag::Carry)
        } else if chars_eq_str(name, "OF") {
            Ok(Flag::Overflow)
        } else if chars_eq_str(name, "EIF") {
            Ok(Flag::EnableInterrupt)
        } else if chars_eq_str(name, "HLT") {
            Ok(Flag::Halt)
        } else {
            Err(())
        }
    }

    /// The flag that an assembler symbol names; see `from_chars`.
    pub fn from_str(s: &str) -> (res: Result<Flag, ()>)
        ensures
            match flag_of_name(s@) {
                Some(flag) => res == Ok::<Flag, ()>(flag),
                None => res is Err,
            },
    {
        let chars = chars_of(s);
        Flag::from_chars(chars.as_slice())
    }

    /// The assembler symbol of the flag, as a string.
    pub fn to_string(&self) -> (text: String)
        ensures
            text@ == self.spec_name(),
    {
        String::from_str(self.name())
    }

    /// The assembler symbol of the flag.
    pub fn name(&self) -> (name: &'static str)
        ensures
            name@ == self.spec_name(),
    {
        match self {
            Flag::Zero => "ZF",
            Flag::Sign => "SF",
            Flag::Carry => "CF",
            Flag::Overflow => "OF",
            Flag::EnableInterrupt => "EIF",
            Flag::Halt => "HLT",
        }
    }
}

impl From<Flag> for u8 {
    /// The bit position of the flag.
    fn from(value: Flag) -> (bit: u8) {
        value.bit()
    }
}

impl vstd::std_specs::convert::FromSpecImpl<Flag> for u8 {
    open spec fn obeys_from_spec() -> bool {
        true
    }

    open spec fn from_spec(value: Flag) -> u8 {
        value.spec_bit() as u8
    }
}

impl TryFrom<u8> for Flag {
    type Error = ();

    /// The flag at a bit position; `Err` where the bit is reserved.
    fn try_from(value: u8) -> (res: Result<Flag, ()>) {
        Flag::try_from_bit(value)
    }
}

impl vstd::std_specs::convert::TryFromSpecImpl<u8> for Flag {
    open spec fn obeys_try_from_spec() -> bool {
        true
    }

    open spec fn try_from_spec(value: u8) -> Result<Flag, ()> {
        match flag_of_bit(value as int) {
            Some(flag) => Ok(flag),
            None => Err(()),
        }
    }
}

/// Whether a flag's bit is set in a FLAGS word.
pub open spec fn flag_is_set(status: u16, flag: Flag) -> bool {
    status & flag.spec_bitmask() != 0
}

/// A FLAGS word with one flag's bit set or cleared and every other bit kept.
pub open spec fn with_flag(status: u16, flag: Flag, value: bool) -> u16 {
    if value {
        status | flag.spec_bitmask()
    } else {
        status & !flag.spec_bitmask()
    }
}

/// Sets or clears one flag in a FLAGS word; every other bit keeps its value.
pub fn set_flag(status: &mut u16, flag: Flag, value: bool)
    ensures
        *final(status) == with_flag(*old(status), flag, value),
{
    let mask = flag.to_bitmask();
    if value {
        *status = *status | mask;
    } else {
        *status = *status & !mask;
    }
}

/// Whether a flag's bit is set in a FLAGS word.
pub fn get_flag(status: u16, flag: Flag) -> (set: bool)
    ensures
        set == flag_is_set(status, flag),
{
    (status & flag.to_bitmask()) != 0
}

/// Writing a flag makes it read back as written and leaves every other flag
/// as it was.
pub proof fn lemma_with_flag(status: u16, flag: Flag, value: bool, other: Flag)
    ensures
        flag_is_set(with_flag(status, flag, value), flag) == value,
        other != flag ==> flag_is_set(with_flag(status, flag, value), other) == flag_is_set(
            status,
            other,
        ),
{
    let i = flag.spec_bit();
    let j = other.spec_bit();
    assert(i < 16 && j < 16);
    assert(other != flag ==> i != j);
    let w = status;
    assert({
        &&& (w | (1u16 << i)) & (1u16 << i) != 0
        &&& (w & !(1u16 << i)) & (1u16 << i) == 0
        &&& (i != j ==> (w | (1u16 << i)) & (1u16 << j) == w & (1u16 << j))
        &&& (i != j ==> (w & !(1u16 << i)) & (1u16 << j) == w & (1u16 << j))
    }) by (bit_vector)
        requires
            i < 16,
            j < 16,
    ;
}

/// Writing a flag keeps every other bit of the word, the reserved ones
/// included: under a mask that leaves out the flag's own bit the word
/// stays as it was.
pub proof fn lemma_with_flag_keeps_other_bits(status: u16, flag: Flag, value: bool, keep: u16)
    requires
        keep & flag.spec_bitmask() == 0,
    ensures
        with_flag(status, flag, value) & keep == status & keep,
{
    let mask = flag.spec_bitmask();
    assert((status | mask) & keep == status & keep && (status & !mask) & keep == status & keep)
        by (bit_vector)
        requires
            keep & mask == 0,
    ;
}

/// Each symbol names the flag it belongs to, and each flag's bit position
/// names that flag.
pub proof fn lemma_flag_names(flag: Flag)
    ensures
        flag_of_name(flag.spec_name()) == Some(flag),
        flag_of_bit(flag.spec_bit() as int) == Some(flag),
{
    reveal_strlit("ZF");
    reveal_strlit("SF");
    reveal_strlit("CF");
    reveal_strlit("OF");
    reveal_strlit("EIF");
    reveal_strlit("HLT");
    assert("ZF"@[0] == 'Z' && "SF"@[0] == 'S' && "CF"@[0] == 'C' && "OF"@[0] == 'O');
    assert("EIF"@.len() == 3 && "HLT"@.len() == 3 && "EIF"@[0] == 'E' && "HLT"@[0] == 'H');
}

} // verus!
