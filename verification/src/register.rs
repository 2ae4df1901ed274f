//! The register file's tag set and its numeric codes.

use vstd::prelude::*;
use crate::text::chars_eq_str;

verus! {

/// One of the seven named 16-bit cells of the register file.
#[derive(Debug, PartialEq, Eq, Structural, PartialOrd, Ord, Hash, Clone, Copy)]
pub enum Register {
    A,
    B,
    C,
    D,
    Sp,
    Pc,
    Flags,
}

/// The register that a numeric code names, if any. Code 4 is reserved.
pub open spec fn register_of_code(code: int) -> Option<Register> {
    if code == 0 {
        Some(Register::A)
    } else if code == 1 {
        Some(Register::B)
    } else if code == 2 {
        Some(Register::C)
    } else if code == 3 {
        Some(Register::D)
    } else if code == 5 {
        Some(Register::Sp)
    } else if code == 6 {
        Some(Register::Pc)
    } else if code == 7 {
        Some(Register::Flags)
    } else {
        None
    }
}

/// The byte that packs a destination and a source register: destination in
/// the high nibble, source in the low nibble.
pub open spec fn pair_byte(dst: Register, src: Register) -> int {
    dst.spec_code() * 16 + src.spec_code()
}

/// The two registers that a packed byte names, if both nibbles are valid codes.
pub open spec fn pair_of_byte(value: int) -> Option<(Register, Register)> {
    match (register_of_code(value / 16), register_of_code(value % 16)) {
        (Some(dst), Some(src)) => Some((dst, src)),
        _ => None,
    }
}

/// The register that an upper-case name stands for, if it is one of `A`,
/// `B`, `C`, `D`, `SP`, `PC` and `FLAGS`.
pub open spec fn register_of_name(name: Seq<char>) -> Option<Register> {
    if name == "A"@ {
        Some(Register::A)
    } else if name == "B"@ {
        Some(Register::B)
    } else if name == "C"@ {
        Some(Register::C)
    } else if name == "D"@ {
        Some(Register::D)
    } else if name == "SP"@ {
        Some(Register::Sp)
    } else if name == "PC"@ {
        Some(Register::Pc)
    } else if name == "FLAGS"@ {
        Some(Register::Flags)
    } else {
        None
    }
}

impl Register {
    /// The upper-case name of the register.
    pub open spec fn spec_name(self) -> Seq<char> {
        match self {
            Register::A => "A"@,
            Register::B => "B"@,
            Register::C => "C"@,
            Register::D => "D"@,
            Register::Sp => "SP"@,
            Register::Pc => "PC"@,
            Register::Flags => "FLAGS"@,
        }
    }

    /// The upper-case name of the register.
    pub fn name(&self) -> (name: &'static str)
        ensures
            name@ == self.spec_name(),
    {
        match self {
            Register::A => "A",
            Register::B => "B",
            Register::C => "C",
            Register::D => "D",
            Register::Sp => "SP",
            Register::Pc => "PC",
            Register::Flags => "FLAGS",
        }
    }

    /// The upper-case name of the register, as a string.
    pub fn to_string(&self) -> (text: String)
        ensures
            text@ == self.spec_name(),
    {
        String::from_str(self.name())
    }

    /// The register that an upper-case name stands for; `Err` for any other
    /// text.
    pub fn from_chars(name: &[char]) -> (res: Result<Register, ()>)
        ensures
            match register_of_name(name@) {
                Some(reg) => res == Ok::<Register, ()>(reg),
                None => res is Err,
            },
    {
        if chars_eq_str(name, "A") {
            Ok(Register::A)
        } else if chars_eq_str(name, "B") {
            Ok(Register::B)
        } else if chars_eq_str(name, "C") {
            Ok(Register::C)
        } else if chars_eq_str(name, "D") {
            Ok(Register::D)
        } else if chars_eq_str(name, "SP") {
            Ok(Register::Sp)
        } else if chars_eq_str(name, "PC") {
            Ok(Register::Pc)
        } else if chars_eq_str(name, "FLAGS") {
            Ok(Register::Flags)
        } else {
            Err(())
        }
    }

    /// The numeric code of the register.
    pub open spec fn spec_code(self) -> int {
        match self {
            Register::A => 0,
            Register::B => 1,
            Register::C => 2,
            Register::D => 3,
            Register::Sp => 5,
            Register::Pc => 6,
            Register::Flags => 7,
        }
    }

    /// The numeric code of the register.
    pub fn code(self) -> (code: u8)
        ensures
            code == self.spec_code(),
            register_of_code(code as int) == Some(self),
    {
        match self {
            Register::A => 0,
            Register::B => 1,
            Register::C => 2,
            Register::D => 3,
            Register::Sp => 5,
            Register::Pc => 6,
            Register::Flags => 7,
        }
    }

    /// The register with the given numeric code; `Err` for the reserved code 4
    /// and for every code above 7.
    pub fn try_from_code(value: u8) -> (res: Result<Register, ()>)
        ensures
            match register_of_code(value as int) {
                Some(reg) => res == Ok::<Register, ()>(reg),
                None => res == Err::<Register, ()>(()),
            },
    {
        match value {
            0 => Ok(Register::A),
            1 => Ok(Register::B),
            2 => Ok(Register::C),
            3 => Ok(Register::D),
            5 => Ok(Register::Sp),
            6 => Ok(Register::Pc),
            7 => Ok(Register::Flags),
            _ => Err(()),
        }
    }

    /// Splits a packed register pair into destination (high nibble) and source
    /// (low nibble); `Err` if either nibble is not a register code.
    pub fn pair_from(value: &u8) -> (res: Result<(Register, Register), ()>)
        ensures
            match pair_of_byte(*value as int) {
                Some(pair) => res == Ok::<(Register, Register), ()>(pair),
                None => res is Err,
            },
    {
        let dst = match Register::try_from_code(*value / 16) {
            Ok(reg) => reg,
            Err(_) => {
                return Err(());
            },
        };
        match Register::try_from_code(*value % 16) {
            Ok(src) => Ok((dst, src)),
            Err(_) => Err(()),
        }
    }

    /// Packs a destination and a source register into one byte.
    pub fn pair_into(dst: Register, src: Register) -> (value: u8)
        ensures
            value == pair_byte(dst, src),
            pair_of_byte(value as int) == Some((dst, src)),
    {
        dst.code() * 16 + src.code()
    }
}

impl From<Register> for u8 {
    /// The numeric code of the register.
    fn from(value: Register) -> (code: u8) {
        value.code()
    }
}

impl vstd::std_specs::convert::FromSpecImpl<Register> for u8 {
    open spec fn obeys_from_spec() -> bool {
        true
    }

    open spec fn from_spec(value: Register) -> u8 {
        value.spec_code() as u8
    }
}

impl TryFrom<u8> for Register {
    type Error = ();

    /// The register with the given numeric code; `Err` for the reserved
    /// code 4 and for every code above 7.
    fn try_from(value: u8) -> (res: Result<Register, ()>) {
        Register::try_from_code(value)
    }
}

impl vstd::std_specs::convert::TryFromSpecImpl<u8> for Register {
    open spec fn obeys_try_from_spec() -> bool {
        true
    }

    open spec fn try_from_spec(value: u8) -> Result<Register, ()> {
        match register_of_code(value as int) {
            Some(reg) => Ok(reg),
            None => Err(()),
        }
    }
}

/// A register's code names that register again, and no other code does.
pub proof fn lemma_register_code_round_trip(reg: Register, code: int)
    ensures
        register_of_code(reg.spec_code()) == Some(reg),
        register_of_code(code) == Some(reg) ==> code == reg.spec_code(),
{
}

} // verus!
