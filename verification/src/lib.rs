//! A compact binary codec for structured data.
//!
//! The wire format is not self-describing: encoder and decoder agree on the
//! shape of every element, and the codec only frames it. Fixed-width numbers
//! are written in a configurable byte order, lengths use a variable-length
//! count, and single discriminator bytes mark optional values and variants.
//!
//! [`Serializer`] and [`Deserializer`] work on byte vectors; the [`stream`]
//! module holds their counterparts for sinks and sources. [`common`] holds
//! the count codec and the discriminators, [`endian`] the fixed-width
//! numbers, [`value`] the format as a whole, and [`roundtrip`] what encoding
//! and decoding guarantee of each other. [`ascii`] holds single-byte
//! characters and strings as an example of values that plug into the codec.

pub mod ascii;
pub mod binaryerror;
pub mod bytes;
pub mod common;
pub mod de;
pub mod endian;
pub mod options;
pub mod roundtrip;
pub mod ser;
pub mod stream;
pub mod text;
pub mod utf8;
pub mod value;

pub use binaryerror::BinaryError;
pub use bytes::Raw;
pub use de::Deserializer;
pub use options::{CharacterEncoding, Endianness, Options, StringType};
pub use ser::Serializer;
