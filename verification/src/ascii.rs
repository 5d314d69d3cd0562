//! Single-byte characters and strings made of them.

pub mod achar;
pub mod astring;
pub mod character;
pub mod error;
pub mod fixedlengthstring;

pub use achar::AChar;
pub use astring::AString;
pub use character::Char;
pub use error::ASCIIError;
pub use fixedlengthstring::FixedLengthString;
