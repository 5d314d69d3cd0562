//! The error taxonomy of the codec.

use vstd::prelude::*;
use crate::text::{decimal, decimal_text, hex_text, upper_hex};

verus! {

/// Everything that can go wrong while encoding or decoding.
#[derive(Debug, Clone, PartialEq)]
pub enum BinaryError {
    /// A free-form message, used for failures reported by the schema driver.
    Message { message: String },
    /// The decoder ran out of bytes.
    UnexpectedEndOfInput,
    /// The bytes are not well formed for the shape being read.
    InvalidBytes,
    /// A discriminator byte did not have the expected value.
    MissingOrInvalidFlag { actual: u8, expected: u8 },
    /// A length did not match.
    InvalidLength { actual: usize, expected: usize },
    /// A struct or variant marker carried an unexpected name.
    InvalidName { actual: String, expected: String },
    /// A shape was requested that is not supported at this point.
    UnexpectedType,
}

impl BinaryError {
    /// The text of the error: what went wrong, then what was found and what
    /// was expected where the error carries them.
    pub open spec fn text(&self) -> Seq<char> {
        match self {
            BinaryError::Message { message } => message@,
            BinaryError::UnexpectedEndOfInput => "unexpected end of input"@,
            BinaryError::InvalidBytes => "invalid byte sequence"@,
            BinaryError::MissingOrInvalidFlag { actual, expected } =>
                "missing or invalid type flag, actual 0x"@ + upper_hex(*actual as nat)
                    + ", expected 0x"@ + upper_hex(*expected as nat),
            BinaryError::InvalidLength { actual, expected } => "invalid length, actual "@
                + decimal(*actual as nat) + ", expected "@ + decimal(*expected as nat),
            BinaryError::InvalidName { actual, expected } => "invalid name, actual "@ + actual@
                + ", expected "@ + expected@,
            BinaryError::UnexpectedType => "unexpected type"@,
        }
    }

    /// Renders the error as text.
    pub fn to_string(&self) -> (res: String)
        ensures
            res@ == self.text(),
    {
        match self {
            BinaryError::Message { message } => message.clone(),
            BinaryError::UnexpectedEndOfInput => String::from_str("unexpected end of input"),
            BinaryError::InvalidBytes => String::from_str("invalid byte sequence"),
            BinaryError::MissingOrInvalidFlag { actual, expected } => {
                let a = hex_text(*actual);
                let e = hex_text(*expected);
                String::from_str("missing or invalid type flag, actual 0x").concat(
                    a.as_str(),
                ).concat(", expected 0x").concat(e.as_str())
            },
            BinaryError::InvalidLength { actual, expected } => {
                let a = decimal_text(*actual);
                let e = decimal_text(*expected);
                String::from_str("invalid length, actual ").concat(a.as_str()).concat(
                    ", expected ",
                ).concat(e.as_str())
            },
            BinaryError::InvalidName { actual, expected } => {
                String::from_str("invalid name, actual ").concat(actual.as_str()).concat(
                    ", expected ",
                ).concat(expected.as_str())
            },
            BinaryError::UnexpectedType => String::from_str("unexpected type"),
        }
    }

    /// The error that carries a free-form message.
    pub fn custom(msg: &str) -> (res: BinaryError)
        ensures
            res matches BinaryError::Message { message } && message@ == msg@,
    {
        BinaryError::Message { message: String::from_str(msg) }
    }
}

} // verus!
