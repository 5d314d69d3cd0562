//! The settings of an encoding.

use vstd::prelude::*;

verus! {

/// The byte order of fixed-width numbers.
#[derive(Debug, PartialEq, Eq, Clone, Copy, Structural)]
pub enum Endianness {
    /// The byte order of the machine.
    Native,
    /// Most significant byte first.
    Big,
    /// Least significant byte first.
    Little,
}

/// How strings are framed.
#[derive(Debug, PartialEq, Eq, Clone, Copy, Structural)]
pub enum StringType {
    /// A fixed number of bytes.
    FixedLen,
    /// Ended by a zero byte.
    NullTerminated,
    /// Prefixed with the length in bytes.
    SizeTagged,
    /// Prefixed with the length in bytes and ended by a zero byte.
    SizeTaggedAndNullTerminated,
}

/// How characters are encoded.
#[derive(Debug, PartialEq, Eq, Clone, Copy, Structural)]
pub enum CharacterEncoding {
    /// One byte per character.
    ASCII,
    /// UTF-8.
    UTF8,
    /// UTF-16 in the configured byte order.
    UTF16,
}

/// The settings of an encoding.
#[derive(Debug, PartialEq, Eq, Clone, Copy, Structural)]
pub struct Options {
    /// The byte order of fixed-width numbers.
    pub endianness: Endianness,
    /// How strings are framed.
    pub string_type: StringType,
    /// How characters are encoded.
    pub character_encoding: CharacterEncoding,
    /// Whether every value describes itself.
    pub self_describing: bool,
}

impl Default for Options {
    /// Little-endian numbers, zero-terminated strings, UTF-8 characters, and
    /// values that do not describe themselves.
    fn default() -> (res: Self)
        ensures
            res == (Options {
                endianness: Endianness::Little,
                string_type: StringType::NullTerminated,
                character_encoding: CharacterEncoding::UTF8,
                self_describing: false,
            }),
    {
        Self {
            endianness: Endianness::Little,
            string_type: StringType::NullTerminated,
            character_encoding: CharacterEncoding::UTF8,
            self_describing: false,
        }
    }
}

} // verus!
