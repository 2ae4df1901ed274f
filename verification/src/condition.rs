//! Condition codes: the 4-bit selector over the FLAGS word that conditional
//! branches carry, its textual names and its evaluation.

use vstd::prelude::*;
use crate::flag::{flag_is_set, get_flag, Flag};
use crate::text::{chars_eq_str, chars_of};

verus! {

/// A condition over the FLAGS word. Each value has one numeric code; several
/// textual names may stand for the same value.
#[derive(Debug, PartialEq, Eq, Structural, PartialOrd, Ord, Hash, Clone, Copy)]
pub enum ConditionCode {
    /// ZERO is set (also `EQ`, `E`).
    Z,
    /// SIGN is set.
    S,
    /// CARRY is set (also `B`, `NAE`).
    C,
    /// OVERFLOW is set.
    O,
    /// CARRY or ZERO is set (also `NA`).
    BE,
    /// SIGN differs from OVERFLOW (also `NGE`, `LT`).
    L,
    /// ZERO is set, or SIGN differs from OVERFLOW (also `NG`, `NGT`).
    LE,
    /// ZERO is clear (also `NE`, `NEQ`).
    NZ,
    /// SIGN is clear.
    NS,
    /// CARRY is clear (also `A`, `NBE`).
    NC,
    /// OVERFLOW is clear.
    NO,
    /// CARRY and ZERO are clear (also `AE`).
    NB,
    /// SIGN equals OVERFLOW (also `GE`, `NLT`).
    NL,
    /// ZERO is clear and SIGN equals OVERFLOW (also `G`, `GT`).
    NLE,
}

/// How many textual names the condition codes have in all.
pub const CONDITION_NAMES: usize = 32;

/// The textual name at a position of the list of condition names.
pub open spec fn spec_condition_name(index: int) -> Seq<char> {
    if index == 0 {
        "B"@
    } else if index == 1 {
        "BE"@
    } else if index == 2 {
        "EQ"@
    } else if index == 3 {
        "AE"@
    } else if index == 4 {
        "A"@
    } else if index == 5 {
        "NB"@
    } else if index == 6 {
        "NBE"@
    } else if index == 7 {
        "NEQ"@
    } else if index == 8 {
        "NAE"@
    } else if index == 9 {
        "NA"@
    } else if index == 10 {
        "L"@
    } else if index == 11 {
        "LE"@
    } else if index == 12 {
        "E"@
    } else if index == 13 {
        "G"@
    } else if index == 14 {
        "GE"@
    } else if index == 15 {
        "NL"@
    } else if index == 16 {
        "NLE"@
    } else if index == 17 {
        "NE"@
    } else if index == 18 {
        "NG"@
    } else if index == 19 {
        "NGE"@
    } else if index == 20 {
        "LT"@
    } else if index == 21 {
        "NLT"@
    } else if index == 22 {
        "GT"@
    } else if index == 23 {
        "NGT"@
    } else if index == 24 {
        "Z"@
    } else if index == 25 {
        "S"@
    } else if index == 26 {
        "C"@
    } else if index == 27 {
        "O"@
    } else if index == 28 {
        "NZ"@
    } else if index == 29 {
        "NS"@
    } else if index == 30 {
        "NC"@
    } else {
        "NO"@
    }
}

/// The condition that the name at a position of the list stands for.
pub open spec fn spec_condition_at(index: int) -> ConditionCode {
    if index == 0 {
        ConditionCode::C
    } else if index == 1 {
        ConditionCode::BE
    } else if index == 2 {
        ConditionCode::Z
    } else if index == 3 {
        ConditionCode::NB
    } else if index == 4 {
        ConditionCode::NC
    } else if index == 5 {
        ConditionCode::NB
    } else if index == 6 {
        ConditionCode::NC
    } else if index == 7 {
        ConditionCode::NZ
    } else if index == 8 {
        ConditionCode::C
    } else if index == 9 {
        ConditionCode::BE
    } else if index == 10 {
        ConditionCode::L
    } else if index == 11 {
        ConditionCode::LE
    } else if index == 12 {
        ConditionCode::Z
    } else if index == 13 {
        ConditionCode::NLE
    } else if index == 14 {
        ConditionCode::NL
    } else if index == 15 {
        ConditionCode::NL
    } else if index == 16 {
        ConditionCode::NLE
    } else if index == 17 {
        ConditionCode::NZ
    } else if index == 18 {
        ConditionCode::LE
    } else if index == 19 {
        ConditionCode::L
    } else if index == 20 {
        ConditionCode::L
    } else if index == 21 {
        ConditionCode::NL
    } else if index == 22 {
        ConditionCode::NLE
    } else if index == 23 {
        ConditionCode::LE
    } else if index == 24 {
        ConditionCode::Z
    } else if index == 25 {
        ConditionCode::S
    } else if index == 26 {
        ConditionCode::C
    } else if index == 27 {
        ConditionCode::O
    } else if index == 28 {
        ConditionCode::NZ
    } else if index == 29 {
        ConditionCode::NS
    } else if index == 30 {
        ConditionCode::NC
    } else {
        ConditionCode::NO
    }
}

/// The first position at or after `from` whose name is `name`, if any.
pub open spec fn find_condition_name(name: Seq<char>, from: int) -> Option<int>
    decreases CONDITION_NAMES - from,
{
    if from < 0 || from >= CONDITION_NAMES {
        None
    } else if spec_condition_name(from) == name {
        Some(from)
    } else {
        find_condition_name(name, from + 1)
    }
}

/// The condition that a textual name stands for, if it is a condition name.
pub open spec fn condition_of_name(name: Seq<char>) -> Option<ConditionCode> {
    match find_condition_name(name, 0) {
        Some(index) => Some(spec_condition_at(index)),
        None => None,
    }
}

/// The condition with the given numeric code. Codes 4 and 12 are reserved,
/// and no code lies above 15.
pub open spec fn condition_of_code(code: int) -> Option<ConditionCode> {
    if code == 0 {
        Some(ConditionCode::Z)
    } else if code == 1 {
        Some(ConditionCode::S)
    } else if code == 2 {
        Some(ConditionCode::C)
    } else if code == 3 {
        Some(ConditionCode::O)
    } else if code == 5 {
        Some(ConditionCode::BE)
    } else if code == 6 {
        Some(ConditionCode::L)
    } else if code == 7 {
        Some(ConditionCode::LE)
    } else if code == 8 {
        Some(ConditionCode::NZ)
    } else if code == 9 {
        Some(ConditionCode::NS)
    } else if code == 10 {
        Some(ConditionCode::NC)
    } else if code == 11 {
        Some(ConditionCode::NO)
    } else if code == 13 {
        Some(ConditionCode::NB)
    } else if code == 14 {
        Some(ConditionCode::NL)
    } else if code == 15 {
        Some(ConditionCode::NLE)
    } else {
        None
    }
}

/// Whether a FLAGS word meets a condition.
pub open spec fn evaluate(condition: ConditionCode, flags: u16) -> bool {
    let zero = flag_is_set(flags, Flag::Zero);
    let sign = flag_is_set(flags, Flag::Sign);
    let carry = flag_is_set(flags, Flag::Carry);
    let overflow = flag_is_set(flags, Flag::Overflow);
    match condition {
        ConditionCode::Z => zero,
        ConditionCode::S => sign,
        ConditionCode::C => carry,
        ConditionCode::O => overflow,
        ConditionCode::BE => carry || zero,
        ConditionCode::L => sign != overflow,
        ConditionCode::LE => zero || sign != overflow,
        ConditionCode::NZ => !zero,
        ConditionCode::NS => !sign,
        ConditionCode::NC => !carry,
        ConditionCode::NO => !overflow,
        ConditionCode::NB => !carry && !zero,
        ConditionCode::NL => sign == overflow,
        ConditionCode::NLE => !zero && sign == overflow,
    }
}

/// The textual name at a position of the list of condition names.
pub fn condition_name(index: usize) -> (name: &'static str)
    requires
        index < CONDITION_NAMES,
    ensures
        name@ == spec_condition_name(index as int),
{
    if index == 0 {
        "B"
    } else if index == 1 {
        "BE"
    } else if index == 2 {
        "EQ"
    } else if index == 3 {
        "AE"
    } else if index == 4 {
        "A"
    } else if index == 5 {
        "NB"
    } else if index == 6 {
        "NBE"
    } else if index == 7 {
        "NEQ"
    } else if index == 8 {
        "NAE"
    } else if index == 9 {
        "NA"
    } else if index == 10 {
        "L"
    } else if index == 11 {
        "LE"
    } else if index == 12 {
        "E"
    } else if index == 13 {
        "G"
    } else if index == 14 {
        "GE"
    } else if index == 15 {
        "NL"
    } else if index == 16 {
        "NLE"
    } else if index == 17 {
        "NE"
    } else if index == 18 {
        "NG"
    } else if index == 19 {
        "NGE"
    } else if index == 20 {
        "LT"
    } else if index == 21 {
        "NLT"
    } else if index == 22 {
        "GT"
    } else if index == 23 {
        "NGT"
    } else if index == 24 {
        "Z"
    } else if index == 25 {
        "S"
    } else if index == 26 {
        "C"
    } else if index == 27 {
        "O"
    } else if index == 28 {
        "NZ"
    } else if index == 29 {
        "NS"
    } else if index == 30 {
        "NC"
    } else {
        "NO"
    }
}

/// The condition that the name at a position of the list stands for.
pub fn condition_at(index: usize) -> (condition: ConditionCode)
    requires
        index < CONDITION_NAMES,
    ensures
        condition == spec_condition_at(index as int),
{
    if index == 0 {
        ConditionCode::C
    } else if index == 1 {
        ConditionCode::BE
    } else if index == 2 {
        ConditionCode::Z
    } else if index == 3 {
        ConditionCode::NB
    } else if index == 4 {
        ConditionCode::NC
    } else if index == 5 {
        ConditionCode::NB
    } else if index == 6 {
        ConditionCode::NC
    } else if index == 7 {
        ConditionCode::NZ
    } else if index == 8 {
        ConditionCode::C
    } else if index == 9 {
        ConditionCode::BE
    } else if index == 10 {
        ConditionCode::L
    } else if index == 11 {
        ConditionCode::LE
    } else if index == 12 {
        ConditionCode::Z
    } else if index == 13 {
        ConditionCode::NLE
    } else if index == 14 {
        ConditionCode::NL
    } else if index == 15 {
        ConditionCode::NL
    } else if index == 16 {
        ConditionCode::NLE
    } else if index == 17 {
        ConditionCode::NZ
    } else if index == 18 {
        ConditionCode::LE
    } else if index == 19 {
        ConditionCode::L
    } else if index == 20 {
        ConditionCode::L
    } else if index == 21 {
        ConditionCode::NL
    } else if index == 22 {
        ConditionCode::NLE
    } else if index == 23 {
        ConditionCode::LE
    } else if index == 24 {
        ConditionCode::Z
    } else if index == 25 {
        ConditionCode::S
    } else if index == 26 {
        ConditionCode::C
    } else if index == 27 {
        ConditionCode::O
    } else if index == 28 {
        ConditionCode::NZ
    } else if index == 29 {
        ConditionCode::NS
    } else if index == 30 {
        ConditionCode::NC
    } else {
        ConditionCode::NO
    }
}

impl ConditionCode {
    /// The numeric code of the condition.
    pub open spec fn spec_code(self) -> int {
        match self {
            ConditionCode::Z => 0,
            ConditionCode::S => 1,
            ConditionCode::C => 2,
            ConditionCode::O => 3,
            ConditionCode::BE => 5,
            ConditionCode::L => 6,
            ConditionCode::LE => 7,
            ConditionCode::NZ => 8,
            ConditionCode::NS => 9,
            ConditionCode::NC => 10,
            ConditionCode::NO => 11,
            ConditionCode::NB => 13,
            ConditionCode::NL => 14,
            ConditionCode::NLE => 15,
        }
    }

    /// The primary textual name of the condition.
    pub open spec fn spec_name(self) -> Seq<char> {
        match self {
            ConditionCode::Z => "Z"@,
            ConditionCode::S => "S"@,
            ConditionCode::C => "C"@,
            ConditionCode::O => "O"@,
            ConditionCode::BE => "BE"@,
            ConditionCode::L => "L"@,
            ConditionCode::LE => "LE"@,
            ConditionCode::NZ => "NZ"@,
            ConditionCode::NS => "NS"@,
            ConditionCode::NC => "NC"@,
            ConditionCode::NO => "NO"@,
            ConditionCode::NB => "NB"@,
            ConditionCode::NL => "NL"@,
            ConditionCode::NLE => "NLE"@,
        }
    }

    /// The numeric code of the condition: below 16, and neither 4 nor 12.
    pub fn code(self) -> (code: u8)
        ensures
            code == self.spec_code(),
            condition_of_code(code as int) == Some(self),
    {
        match self {
            ConditionCode::Z => 0,
            ConditionCode::S => 1,
            ConditionCode::C => 2,
            ConditionCode::O => 3,
            ConditionCode::BE => 5,
            ConditionCode::L => 6,
            ConditionCode::LE => 7,
            ConditionCode::NZ => 8,
            ConditionCode::NS => 9,
            ConditionCode::NC => 10,
            ConditionCode::NO => 11,
            ConditionCode::NB => 13,
            ConditionCode::NL => 14,
            ConditionCode::NLE => 15,
        }
    }

    /// The condition with the given numeric code; `Err` for the reserved codes
    /// 4 and 12 and for every code above 15.
    pub fn try_from_code(value: u8) -> (res: Result<ConditionCode, ()>)
        ensures
            match condition_of_code(value as int) {
                Some(condition) => res == Ok::<ConditionCode, ()>(condition),
                None => res == Err::<ConditionCode, ()>(()),
            },
    {
        match value {
            0 => Ok(ConditionCode::Z),
            1 => Ok(ConditionCode::S),
            2 => Ok(ConditionCode::C),
            3 => Ok(ConditionCode::O),
            5 => Ok(ConditionCode::BE),
            6 => Ok(ConditionCode::L),
            7 => Ok(ConditionCode::LE),
            8 => Ok(ConditionCode::NZ),
            9 => Ok(ConditionCode::NS),
            10 => Ok(ConditionCode::NC),
            11 => Ok(ConditionCode::NO),
            13 => Ok(ConditionCode::NB),
            14 => Ok(ConditionCode::NL),
            15 => Ok(ConditionCode::NLE),
            _ => Err(()),
        }
    }

    /// The condition that a textual name stands for; `Err` if the text is no
    /// condition name. Names are matched exactly, in upper case.
    pub fn from_chars(name: &[char]) -> (res: Result<ConditionCode, ()>)
        ensures
            match condition_of_name(name@) {
                Some(condition) => res == Ok::<ConditionCode, ()>(condition),
                None => res is Err,
            },
    {
        let mut index: usize = 0;
        while index < CONDITION_NAMES
            invariant
                index <= CONDITION_NAMES,
                find_condition_name(name@, 0) == find_condition_name(name@, index as int),
            decreases CONDITION_NAMES - index,
        {
            if chars_eq_str(name, condition_name(index)) {
                return Ok(condition_at(index));
            }
            index = index + 1;
        }
        Err(())
    }

    /// The condition that a textual name stands for; see `from_chars`.
    pub fn from_str(s: &str) -> (res: Result<ConditionCode, ()>)
        ensures
            match condition_of_name(s@) {
                Some(condition) => res == Ok::<ConditionCode, ()>(condition),
                None => res is Err,
            },
    {
        let chars = chars_of(s);
        ConditionCode::from_chars(chars.as_slice())
    }

    /// The primary textual name of the condition, as a string.
    pub fn to_string(&self) -> (text: String)
        ensures
            text@ == self.spec_name(),
    {
        String::from_str(self.name())
    }

    /// The primary textual name of the condition.
    pub fn name(&self) -> (name: &'static str)
        ensures
            name@ == self.spec_name(),
    {
        match self {
            ConditionCode::Z => "Z",
            ConditionCode::S => "S",
            ConditionCode::C => "C",
            ConditionCode::O => "O",
            ConditionCode::BE => "BE",
            ConditionCode::L => "L",
            ConditionCode::LE => "LE",
            ConditionCode::NZ => "NZ",
            ConditionCode::NS => "NS",
            ConditionCode::NC => "NC",
            ConditionCode::NO => "NO",
            ConditionCode::NB => "NB",
            ConditionCode::NL => "NL",
            ConditionCode::NLE => "NLE",
        }
    }

    /// Whether a FLAGS word meets the condition.
    pub fn meets(&self, flags: u16) -> (met: bool)
        ensures
            met == evaluate(*self, flags),
    {
        let zero = get_flag(flags, Flag::Zero);
        let sign = get_flag(flags, Flag::Sign);
        let carry = get_flag(flags, Flag::Carry);
        let overflow = get_flag(flags, Flag::Overflow);
        match self {
            ConditionCode::Z => zero,
            ConditionCode::S => sign,
            ConditionCode::C => carry,
            ConditionCode::O => overflow,
            ConditionCode::BE => carry || zero,
            ConditionCode::L => sign != overflow,
            ConditionCode::LE => zero || sign != overflow,
            ConditionCode::NZ => !zero,
            ConditionCode::NS => !sign,
            ConditionCode::NC => !carry,
            ConditionCode::NO => !overflow,
            ConditionCode::NB => !carry && !zero,
            ConditionCode::NL => sign == overflow,
            ConditionCode::NLE => !zero && sign == overflow,
        }
    }
}

impl From<ConditionCode> for u8 {
    /// The numeric code of the condition.
    fn from(value: ConditionCode) -> (code: u8) {
        value.code()
    }
}

impl vstd::std_specs::convert::FromSpecImpl<ConditionCode> for u8 {
    open spec fn obeys_from_spec() -> bool {
        true
    }

    open spec fn from_spec(value: ConditionCode) -> u8 {
        value.spec_code() as u8
    }
}

impl TryFrom<u8> for ConditionCode {
    type Error = ();

    /// The condition with the given numeric code; `Err` for the reserved
    /// codes 4 and 12 and for every code above 15.
    fn try_from(value: u8) -> (res: Result<ConditionCode, ()>) {
        ConditionCode::try_from_code(value)
    }
}

impl vstd::std_specs::convert::TryFromSpecImpl<u8> for ConditionCode {
    open spec fn obeys_try_from_spec() -> bool {
        true
    }

    open spec fn try_from_spec(value: u8) -> Result<ConditionCode, ()> {
        match condition_of_code(value as int) {
            Some(condition) => Ok(condition),
            None => Err(()),
        }
    }
}

/// A condition's code names that condition again, and no other code does.
pub proof fn lemma_condition_code_round_trip(condition: ConditionCode, code: int)
    ensures
        condition_of_code(condition.spec_code()) == Some(condition),
        condition_of_code(code) == Some(condition) ==> code == condition.spec_code(),
{
}

/// Two names that stand for the same numeric code are aliases: every FLAGS
/// word meets the one exactly when it meets the other.
pub proof fn lemma_aliases_evaluate_alike(a: Seq<char>, b: Seq<char>, flags: u16)
    requires
        condition_of_name(a) is Some,
        condition_of_name(b) is Some,
        condition_of_name(a).unwrap().spec_code() == condition_of_name(b).unwrap().spec_code(),
    ensures
        condition_of_name(a) == condition_of_name(b),
        evaluate(condition_of_name(a).unwrap(), flags) == evaluate(
            condition_of_name(b).unwrap(),
            flags,
        ),
{
}

/// Two conditions with the same numeric code are the same condition, so they
/// evaluate alike on every FLAGS word.
pub proof fn lemma_same_code_evaluates_alike(a: ConditionCode, b: ConditionCode, flags: u16)
    requires
        a.spec_code() == b.spec_code(),
    ensures
        a == b,
        evaluate(a, flags) == evaluate(b, flags),
{
}

/// Each condition whose code has bit 3 set is the negation of the condition
/// whose code differs from it in that bit alone.
pub proof fn lemma_negated_conditions(flags: u16)
    ensures
        evaluate(ConditionCode::NZ, flags) == !evaluate(ConditionCode::Z, flags),
        evaluate(ConditionCode::NS, flags) == !evaluate(ConditionCode::S, flags),
        evaluate(ConditionCode::NC, flags) == !evaluate(ConditionCode::C, flags),
        evaluate(ConditionCode::NO, flags) == !evaluate(ConditionCode::O, flags),
        evaluate(ConditionCode::NB, flags) == !evaluate(ConditionCode::BE, flags),
        evaluate(ConditionCode::NL, flags) == !evaluate(ConditionCode::L, flags),
        evaluate(ConditionCode::NLE, flags) == !evaluate(ConditionCode::LE, flags),
{
}

} // verus!
