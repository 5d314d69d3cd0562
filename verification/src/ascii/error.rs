//! The error of the single-byte character types.

use vstd::prelude::*;
use crate::text::{decimal, decimal_text};

verus! {

/// An error that occurred converting to or from single-byte characters.
#[derive(Debug, PartialEq)]
pub struct ASCIIError {
    /// A description of the error.
    pub message: String,
}

/// The message for a text that holds more than single-byte characters.
pub open spec fn not_ascii_text() -> Seq<char> {
    "attempt to convert an Unicode string to an AString"@
}

/// The message for a change of a fixed length.
pub open spec fn fixed_length_text() -> Seq<char> {
    "attepted to change the length of a fixed length AString"@
}

/// The message for `len` bytes that do not fit into `limit` characters.
pub open spec fn too_long_text(len: nat, limit: nat) -> Seq<char> {
    "array &[u8] of length "@ + decimal(len) + " too long for AString<"@ + decimal(limit)
        + ">"@
}

impl ASCIIError {
    /// The error for a text that holds more than single-byte characters.
    pub fn not_ascii() -> (res: ASCIIError)
        ensures
            res.message@ == not_ascii_text(),
    {
        ASCIIError {
            message: String::from_str("attempt to convert an Unicode string to an AString"),
        }
    }

    /// The error for a change of a fixed length.
    pub fn fixed_length() -> (res: ASCIIError)
        ensures
            res.message@ == fixed_length_text(),
    {
        ASCIIError {
            message: String::from_str("attepted to change the length of a fixed length AString"),
        }
    }

    /// The error for `len` bytes that do not fit into `limit` characters.
    pub fn too_long(len: usize, limit: usize) -> (res: ASCIIError)
        ensures
            res.message@ == too_long_text(len as nat, limit as nat),
    {
        let a = decimal_text(len);
        let b = decimal_text(limit);
        ASCIIError {
            message: String::from_str("array &[u8] of length ").concat(a.as_str()).concat(
                " too long for AString<",
            ).concat(b.as_str()).concat(">"),
        }
    }

    /// The text of the error: its message.
    pub fn to_string(&self) -> (res: String)
        ensures
            res@ == self.message@,
    {
        self.message.clone()
    }

    /// The error that caused this one: there never is one.
    pub fn source(&self) -> (res: Option<&ASCIIError>)
        ensures
            res is None,
    {
        None
    }

    /// The error that caused this one: there never is one.
    pub fn cause(&self) -> (res: Option<&ASCIIError>)
        ensures
            res is None,
    {
        self.source()
    }

    /// A fixed text that points to `to_string`.
    pub fn description(&self) -> (res: &'static str)
        ensures
            res@ == "description() is deprecated; use Display"@,
    {
        "description() is deprecated; use Display"
    }
}

} // verus!
