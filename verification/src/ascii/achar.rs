//! A single-byte character with a private code.

use vstd::prelude::*;
use vstd::std_specs::convert::FromSpecImpl;
use crate::text::char_text;

verus! {

/// The smallest code.
pub const MIN: u8 = 0x00;

/// The largest code.
pub const MAX: u8 = 0xFF;

/// Whether `v` is the code of an upper-case letter.
pub open spec fn is_upper_code(v: u8) -> bool {
    0x41 <= v <= 0x5A
}

/// Whether `v` is the code of a lower-case letter.
pub open spec fn is_lower_code(v: u8) -> bool {
    0x61 <= v <= 0x7A
}

/// The code of the upper-case form of the character with code `v`.
pub open spec fn upper_code(v: u8) -> u8 {
    if is_lower_code(v) {
        (v - 0x20) as u8
    } else {
        v
    }
}

/// The code of the lower-case form of the character with code `v`.
pub open spec fn lower_code(v: u8) -> u8 {
    if is_upper_code(v) {
        (v + 0x20) as u8
    } else {
        v
    }
}

/// Whether `v` is the code of a punctuation mark or symbol.
pub open spec fn is_punctuation_code(v: u8) -> bool {
    (0x21 <= v <= 0x29) || (0x3A <= v <= 0x40) || (0x5B <= v <= 0x60) || (0x7B <= v <= 0x7E)
}

/// Whether `v` is the code of a whitespace character.
pub open spec fn is_whitespace_code(v: u8) -> bool {
    v == 0x09 || v == 0x0A || v == 0x0C || v == 0x0D || v == 0x20
}

/// The UTF-8 bytes of the character with code `v`, followed by zero bytes up
/// to a length of four.
pub open spec fn utf8_padded(v: u8) -> Seq<u8> {
    if v <= 0x7F {
        seq![v, 0x00u8, 0x00u8, 0x00u8]
    } else {
        seq![(0xC0 + v / 64) as u8, (0x80 + v % 64) as u8, 0x00u8, 0x00u8]
    }
}

/// The padded form starts with the UTF-8 encoding of the scalar `v`.
pub proof fn lemma_utf8_padded(v: u8)
    ensures
        utf8_padded(v).subrange(0, if v < 0x80 { 1int } else { 2int })
            == vstd::utf8::encode_scalar(v as u32),
{
    let c: u32 = v as u32;
    if v < 0x80 {
        assert((c & 0x7F) as u8 == v) by (bit_vector)
            requires
                c == v as u32,
                v < 0x80,
        ;
        assert(utf8_padded(v).subrange(0, 1) =~= vstd::utf8::encode_scalar(c));
    } else {
        assert(0xC0u8 | ((c >> 6) & 0x1F) as u8 == (0xC0 + v / 64) as u8) by (bit_vector)
            requires
                c == v as u32,
                v >= 0x80,
        ;
        assert(0x80u8 | (c & 0x3F) as u8 == (0x80 + v % 64) as u8) by (bit_vector)
            requires
                c == v as u32,
                v >= 0x80,
        ;
        assert(utf8_padded(v).subrange(0, 2) =~= vstd::utf8::encode_scalar(c));
    }
}

/// A single-byte character.
#[derive(Clone, Copy, Debug, Eq, PartialEq, Hash, Ord, PartialOrd)]
pub struct AChar {
    pub value: u8,
}

impl AChar {
    /// The code of the character.
    pub open spec fn code(&self) -> u8 {
        self.value
    }

    /// The UTF-8 form of the character, padded with zero bytes to four.
    /// Codes up to `0x7F` take one byte, the others two.
    pub fn as_utf8(&self) -> (res: [u8; 4])
        ensures
            res@ == utf8_padded(self.code()),
    {
        let v: u8 = self.value;
        let res: [u8; 4] = if v <= 0x7F {
            [v, 0x00, 0x00, 0x00]
        } else {
            [0xC0 + v / 64, 0x80 + v % 64, 0x00, 0x00]
        };
        proof {
            assert(res@ =~= utf8_padded(v));
        }
        res
    }

    /// The number of bytes of the UTF-8 form.
    pub fn len_utf8(&self) -> (res: usize)
        ensures
            res == if self.code() < 0x80 { 1usize } else { 2usize },
    {
        if self.value < 0x80 {
            1
        } else {
            2
        }
    }

    /// Whether the two characters are equal once letters are lowered.
    pub fn eq_ignore_case(&self, other: &AChar) -> (res: bool)
        ensures
            res == (lower_code(self.code()) == lower_code(other.code())),
    {
        self.lowercase().value == other.lowercase().value
    }

    /// The upper-case letter of a lower-case letter, any other character
    /// unchanged.
    pub fn uppercase(&self) -> (res: AChar)
        ensures
            res.code() == upper_code(self.code()),
    {
        if self.is_lowercase() {
            AChar::of(self.value - 0x20)
        } else {
            AChar::of(self.value)
        }
    }

    /// The lower-case letter of an upper-case letter, any other character
    /// unchanged.
    pub fn lowercase(&self) -> (res: AChar)
        ensures
            res.code() == lower_code(self.code()),
    {
        if self.is_uppercase() {
            AChar::of(self.value + 0x20)
        } else {
            AChar::of(self.value)
        }
    }

    /// Whether the character is a letter.
    pub fn is_alphabetic(&self) -> (res: bool)
        ensures
            res == (is_upper_code(self.code()) || is_lower_code(self.code())),
    {
        self.is_uppercase() || self.is_lowercase()
    }

    /// Whether the character is an upper-case letter.
    pub fn is_uppercase(&self) -> (res: bool)
        ensures
            res == is_upper_code(self.code()),
    {
        0x41 <= self.value && self.value <= 0x5A
    }

    /// Whether the character is a lower-case letter.
    pub fn is_lowercase(&self) -> (res: bool)
        ensures
            res == is_lower_code(self.code()),
    {
        0x61 <= self.value && self.value <= 0x7A
    }

    /// Whether the character is a digit.
    pub fn is_numeric(&self) -> (res: bool)
        ensures
            res == (0x30 <= self.code() <= 0x39),
    {
        0x30 <= self.value && self.value <= 0x39
    }

    /// Whether the character is a punctuation mark or symbol.
    pub fn is_punctuation(&self) -> (res: bool)
        ensures
            res == is_punctuation_code(self.code()),
    {
        let v: u8 = self.value;
        (0x21 <= v && v <= 0x29) || (0x3A <= v && v <= 0x40) || (0x5B <= v && v <= 0x60) || (0x7B
            <= v && v <= 0x7E)
    }

    /// Whether the character is a control character.
    pub fn is_control(&self) -> (res: bool)
        ensures
            res == (self.code() <= 0x1F),
    {
        self.value <= 0x1F
    }

    /// Whether the character is a tab, a line feed, a form feed, a carriage return or a space.
    pub fn is_whitespace(&self) -> (res: bool)
        ensures
            res == is_whitespace_code(self.code()),
    {
        let v: u8 = self.value;
        v == 0x09 || v == 0x0A || v == 0x0C || v == 0x0D || v == 0x20
    }

    /// Whether the character has code zero.
    pub fn is_null(&self) -> (res: bool)
        ensures
            res == (self.code() == 0x00),
    {
        self.value == 0x00
    }

    /// The text of the character: nothing for a control character, any
    /// other character itself.
    pub fn to_string(&self) -> (res: String)
        ensures
            res@ == if self.code() <= 0x1F {
                Seq::<char>::empty()
            } else {
                seq![self.code() as char]
            },
    {
        if self.is_control() {
            String::new()
        } else {
            char_text(self.value as char)
        }
    }

    /// The character with the code `value`.
    pub fn of(value: u8) -> (res: AChar)
        ensures
            res.code() == value,
    {
        AChar { value }
    }
}

impl Default for AChar {
    fn default() -> (res: Self)
        ensures
            res.code() == 0x00,
    {
        Self { value: 0x00 }
    }
}

impl From<&u8> for AChar {
    fn from(value: &u8) -> (res: Self) {
        Self { value: *value }
    }
}

impl FromSpecImpl<&u8> for AChar {
    open spec fn obeys_from_spec() -> bool {
        true
    }

    open spec fn from_spec(v: &u8) -> Self {
        AChar { value: *v }
    }
}

} // verus!
