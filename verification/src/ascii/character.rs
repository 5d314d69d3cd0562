//! A single-byte character that carries its code openly.

use vstd::prelude::*;
use vstd::std_specs::convert::FromSpecImpl;
use crate::ascii::achar::{
    is_lower_code, is_punctuation_code, is_upper_code, is_whitespace_code, lower_code, upper_code,
    utf8_padded,
};
use crate::text::{char_text, hex_text, upper_hex};

verus! {

/// A single-byte character.
#[derive(Clone, Copy, Debug, Eq, PartialEq, Hash, Ord, PartialOrd)]
pub struct Char(pub u8);

impl Char {
    /// The character with code zero.
    pub fn null() -> (res: Self)
        ensures
            res.code() == 0x00,
    {
        Char(0x00)
    }

    /// The code of the character.
    pub open spec fn code(&self) -> u8 {
        self.0
    }

    /// The UTF-8 form of the character, padded with zero bytes to four.
    /// Codes up to `0x7F` take one byte, the others two.
    pub fn as_utf8(&self) -> (res: [u8; 4])
        ensures
            res@ == utf8_padded(self.code()),
    {
        let v: u8 = self.0;
        let res: [u8; 4] = if v <= 0x7F {
            [v, 0x00, 0x00, 0x00]
        } else {
            [0xC0 + v / 64, 0x80 + v % 64, 0x00, 0x00]
        };
        proof {
            assert(res@ =~= utf8_padded(v));
        }
        res
    }

    /// The number of bytes of the UTF-8 form.
    pub fn len_utf8(&self) -> (res: usize)
        ensures
            res == if self.code() < 0x80 { 1usize } else { 2usize },
    {
        if self.0 < 0x80 {
            1
        } else {
            2
        }
    }

    /// Whether the two characters are equal once letters are lowered.
    pub fn eq_ignore_case(&self, other: &Char) -> (res: bool)
        ensures
            res == (lower_code(self.code()) == lower_code(other.code())),
    {
        self.lowercase().0 == other.lowercase().0
    }

    /// The upper-case letter of a lower-case letter, any other character
    /// unchanged.
    pub fn uppercase(&self) -> (res: Char)
        ensures
            res.code() == upper_code(self.code()),
    {
        if self.is_lowercase() {
            Char(self.0 - 0x20)
        } else {
            Char(self.0)
        }
    }

    /// The lower-case letter of an upper-case letter, any other character
    /// unchanged.
    pub fn lowercase(&self) -> (res: Char)
        ensures
            res.code() == lower_code(self.code()),
    {
        if self.is_uppercase() {
            Char(self.0 + 0x20)
        } else {
            Char(self.0)
        }
    }

    /// Whether the character is a letter.
    pub fn is_alphabetic(&self) -> (res: bool)
        ensures
            res == (is_upper_code(self.code()) || is_lower_code(self.code())),
    {
        self.is_uppercase() || self.is_lowercase()
    }

    /// Whether the character is an upper-case letter.
    pub fn is_uppercase(&self) -> (res: bool)
        ensures
            res == is_upper_code(self.code()),
    {
        0x41 <= self.0 && self.0 <= 0x5A
    }

    /// Whether the character is a lower-case letter.
    pub fn is_lowercase(&self) -> (res: bool)
        ensures
            res == is_lower_code(self.code()),
    {
        0x61 <= self.0 && self.0 <= 0x7A
    }

    /// Whether the character is a digit.
    pub fn is_numeric(&self) -> (res: bool)
        ensures
            res == (0x30 <= self.code() <= 0x39),
    {
        0x30 <= self.0 && self.0 <= 0x39
    }

    /// Whether the character is a punctuation mark or symbol.
    pub fn is_punctuation(&self) -> (res: bool)
        ensures
            res == is_punctuation_code(self.code()),
    {
        let v: u8 = self.0;
        (0x21 <= v && v <= 0x29) || (0x3A <= v && v <= 0x40) || (0x5B <= v && v <= 0x60) || (0x7B
            <= v && v <= 0x7E)
    }

    /// Whether the character is a control character.
    pub fn is_control(&self) -> (res: bool)
        ensures
            res == (self.code() <= 0x1F),
    {
        self.0 <= 0x1F
    }

    /// Whether the character is a tab, a line feed, a form feed, a carriage return or a space.
    pub fn is_whitespace(&self) -> (res: bool)
        ensures
            res == is_whitespace_code(self.code()),
    {
        let v: u8 = self.0;
        v == 0x09 || v == 0x0A || v == 0x0C || v == 0x0D || v == 0x20
    }

    /// Whether the character has code zero.
    pub fn is_null(&self) -> (res: bool)
        ensures
            res == (self.code() == 0x00),
    {
        self.0 == 0x00
    }

    /// The Unicode scalar with the same code.
    pub fn char(&self) -> (res: char)
        ensures
            res == self.code() as char,
    {
        self.0 as char
    }

    /// The text of the character. A control character is written as a zero
    /// character, an `x` and its code in upper-case hexadecimal; any other
    /// character stands for itself.
    pub fn to_string(&self) -> (res: String)
        ensures
            res@ == char_rendering(self.code()),
    {
        if self.is_control() {
            let prefix = String::from_str("\0x");
            proof {
                reveal_strlit("\0x");
                assert("\0x"@ =~= seq!['\0', 'x']);
            }
            let hex = hex_text(self.0);
            prefix.concat(hex.as_str())
        } else {
            char_text(self.char())
        }
    }

    /// The code of the character.
    pub fn to_u8(self) -> (res: u8)
        ensures
            res == self.code(),
    {
        self.0
    }
}

/// The text of the character with code `v`.
pub open spec fn char_rendering(v: u8) -> Seq<char> {
    if v <= 0x1F {
        seq!['\0', 'x'] + upper_hex(v as nat)
    } else {
        seq![v as char]
    }
}

impl From<Char> for u8 {
    fn from(value: Char) -> (res: Self) {
        value.0
    }
}

impl FromSpecImpl<Char> for u8 {
    open spec fn obeys_from_spec() -> bool {
        true
    }

    open spec fn from_spec(v: Char) -> Self {
        v.0
    }
}

} // verus!
