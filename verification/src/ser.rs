//! The buffered encoder: one operation per shape, each appending the bytes
//! that the shape prescribes to a growing byte vector.

use vstd::prelude::*;
use vstd::utf8::{encode_scalar, encode_utf8};
use crate::binaryerror::BinaryError;
use crate::common::{count_bytes, compress_usize, NONE, SOME, STRUCT, STRUCT_VARIANT, UNIT_VARIANT};
use crate::endian::{ordered_bytes, u16_bytes, u32_bytes, u64_bytes, u128_bytes};
use crate::utf8::char_to_utf8;

verus! {

/// The wire form of a `bool`.
pub open spec fn encode_bool(v: bool) -> Seq<u8> {
    seq![if v { 1u8 } else { 0u8 }]
}

/// The wire form of a `u8`.
pub open spec fn encode_u8(v: u8) -> Seq<u8> {
    seq![v]
}

/// The wire form of a `u16`.
pub open spec fn encode_u16(v: u16, big_endian: bool) -> Seq<u8> {
    ordered_bytes(v as nat, 2, big_endian)
}

/// The wire form of a `u32`.
pub open spec fn encode_u32(v: u32, big_endian: bool) -> Seq<u8> {
    ordered_bytes(v as nat, 4, big_endian)
}

/// The wire form of a `u64`.
pub open spec fn encode_u64(v: u64, big_endian: bool) -> Seq<u8> {
    ordered_bytes(v as nat, 8, big_endian)
}

/// The wire form of a `u128`.
pub open spec fn encode_u128(v: u128, big_endian: bool) -> Seq<u8> {
    ordered_bytes(v as nat, 16, big_endian)
}

/// The wire form of an `i8`: its two's complement byte.
pub open spec fn encode_i8(v: i8) -> Seq<u8> {
    seq![v as u8]
}

/// The wire form of an `i16`: the bytes of its two's complement.
pub open spec fn encode_i16(v: i16, big_endian: bool) -> Seq<u8> {
    encode_u16(v as u16, big_endian)
}

/// The wire form of an `i32`: the bytes of its two's complement.
pub open spec fn encode_i32(v: i32, big_endian: bool) -> Seq<u8> {
    encode_u32(v as u32, big_endian)
}

/// The wire form of an `i64`: the bytes of its two's complement.
pub open spec fn encode_i64(v: i64, big_endian: bool) -> Seq<u8> {
    encode_u64(v as u64, big_endian)
}

/// The wire form of an `i128`: the bytes of its two's complement.
pub open spec fn encode_i128(v: i128, big_endian: bool) -> Seq<u8> {
    encode_u128(v as u128, big_endian)
}

/// The wire form of a character: its UTF-8 bytes, with no length prefix.
pub open spec fn encode_char(c: char) -> Seq<u8> {
    encode_scalar(c as u32)
}

/// The wire form of a byte buffer: its length as a count, then the bytes.
pub open spec fn encode_bytes(b: Seq<u8>) -> Seq<u8> {
    count_bytes(b.len()) + b
}

/// The wire form of a string: the byte buffer of its UTF-8 bytes.
pub open spec fn encode_str(s: Seq<char>) -> Seq<u8> {
    encode_bytes(encode_utf8(s))
}

/// The header of a unit variant: its marker and its index.
pub open spec fn encode_unit_variant(index: u32, big_endian: bool) -> Seq<u8> {
    seq![UNIT_VARIANT] + encode_u32(index, big_endian)
}

/// The header of a tuple variant: its index and its number of fields.
pub open spec fn encode_tuple_variant(index: u32, len: usize, big_endian: bool) -> Seq<u8> {
    encode_u32(index, big_endian) + count_bytes(len as nat)
}

/// The header of a struct: its marker, its name and its number of fields.
pub open spec fn encode_struct(name: Seq<char>, len: usize) -> Seq<u8> {
    seq![STRUCT] + encode_str(name) + count_bytes(len as nat)
}

/// The header of a struct variant: its marker, the name, the variant's index
/// and its number of fields.
pub open spec fn encode_struct_variant(
    name: Seq<char>,
    index: u32,
    len: usize,
    big_endian: bool,
) -> Seq<u8> {
    seq![STRUCT_VARIANT] + encode_str(name) + encode_u32(index, big_endian) + count_bytes(
        len as nat,
    )
}

/// The text of the error that rejects a sequence or map of unknown length.
pub open spec fn unknown_length_text() -> Seq<char> {
    "sequences and maps of unknown length cannot be encoded"@
}

/// The error that rejects a sequence or map of unknown length.
pub fn unknown_length_error() -> (res: BinaryError)
    ensures
        res matches BinaryError::Message { message } && message@ == unknown_length_text(),
{
    BinaryError::Message {
        message: String::from_str("sequences and maps of unknown length cannot be encoded"),
    }
}

/// An encoder that collects the encoding in a byte vector.
pub struct Serializer {
    output: Vec<u8>,
    big_endian: bool,
}

impl Serializer {
    /// The bytes written so far.
    pub closed spec fn written(&self) -> Seq<u8> {
        self.output@
    }

    /// Whether fixed-width numbers are written most significant byte first.
    pub closed spec fn is_big_endian(&self) -> bool {
        self.big_endian
    }

    /// True when `post` is `pre` with `bytes` appended and the same byte order.
    pub open spec fn appended(pre: Serializer, post: Serializer, bytes: Seq<u8>) -> bool {
        &&& post.written() == pre.written() + bytes
        &&& post.is_big_endian() == pre.is_big_endian()
    }

    /// Creates an encoder with an empty output.
    pub fn new(big_endian: bool) -> (res: Self)
        ensures
            res.written() == Seq::<u8>::empty(),
            res.is_big_endian() == big_endian,
    {
        Self { output: Vec::new(), big_endian }
    }

    /// The configured byte order.
    pub fn big_endian(&self) -> (res: bool)
        ensures
            res == self.is_big_endian(),
    {
        self.big_endian
    }

    /// The bytes written so far.
    pub fn output(&self) -> (res: &Vec<u8>)
        ensures
            res@ == self.written(),
    {
        &self.output
    }

    /// Ends the encoding and hands out the bytes.
    pub fn into_bytes(self) -> (res: Vec<u8>)
        ensures
            res@ == self.written(),
    {
        self.output
    }

    /// Appends raw bytes.
    pub fn serialize_vec(&mut self, v: Vec<u8>) -> (res: Result<(), BinaryError>)
        ensures
            res is Ok,
            Self::appended(*old(self), *final(self), v@),
    {
        let mut v = v;
        self.output.append(&mut v);
        Ok(())
    }

    /// Appends a count in the variable-length scheme.
    pub fn serialize_usize(&mut self, v: usize) -> (res: Result<(), BinaryError>)
        ensures
            res is Ok,
            Self::appended(*old(self), *final(self), count_bytes(v as nat)),
    {
        self.serialize_vec(compress_usize(v))
    }

    /// Writes a `bool` as one byte, one for `true` and zero for `false`.
    pub fn serialize_bool(&mut self, v: bool) -> (res: Result<(), BinaryError>)
        ensures
            res is Ok,
            Self::appended(*old(self), *final(self), encode_bool(v)),
    {
        self.serialize_u8(if v { 1 } else { 0 })
    }

    /// Writes a byte.
    pub fn serialize_u8(&mut self, v: u8) -> (res: Result<(), BinaryError>)
        ensures
            res is Ok,
            Self::appended(*old(self), *final(self), encode_u8(v)),
    {
        self.output.push(v);
        proof {
            assert(self.output@ =~= old(self).output@ + encode_u8(v));
        }
        Ok(())
    }

    /// Writes a `u16` in the configured byte order.
    pub fn serialize_u16(&mut self, v: u16) -> (res: Result<(), BinaryError>)
        ensures
            res is Ok,
            Self::appended(*old(self), *final(self), encode_u16(v, old(self).is_big_endian())),
    {
        self.serialize_vec(u16_bytes(v, self.big_endian))
    }

    /// Writes a `u32` in the configured byte order.
    pub fn serialize_u32(&mut self, v: u32) -> (res: Result<(), BinaryError>)
        ensures
            res is Ok,
            Self::appended(*old(self), *final(self), encode_u32(v, old(self).is_big_endian())),
    {
        self.serialize_vec(u32_bytes(v, self.big_endian))
    }

    /// Writes a `u64` in the configured byte order.
    pub fn serialize_u64(&mut self, v: u64) -> (res: Result<(), BinaryError>)
        ensures
            res is Ok,
            Self::appended(*old(self), *final(self), encode_u64(v, old(self).is_big_endian())),
    {
        self.serialize_vec(u64_bytes(v, self.big_endian))
    }

    /// Writes a `u128` in the configured byte order.
    pub fn serialize_u128(&mut self, v: u128) -> (res: Result<(), BinaryError>)
        ensures
            res is Ok,
            Self::appended(*old(self), *final(self), encode_u128(v, old(self).is_big_endian())),
    {
        self.serialize_vec(u128_bytes(v, self.big_endian))
    }

    /// Writes an `i8` as its two's complement byte.
    pub fn serialize_i8(&mut self, v: i8) -> (res: Result<(), BinaryError>)
        ensures
            res is Ok,
            Self::appended(*old(self), *final(self), encode_i8(v)),
    {
        self.serialize_u8(v as u8)
    }

    /// Writes an `i16` as its two's complement in the configured byte order.
    pub fn serialize_i16(&mut self, v: i16) -> (res: Result<(), BinaryError>)
        ensures
            res is Ok,
            Self::appended(*old(self), *final(self), encode_i16(v, old(self).is_big_endian())),
    {
        self.serialize_u16(v as u16)
    }

    /// Writes an `i32` as its two's complement in the configured byte order.
    pub fn serialize_i32(&mut self, v: i32) -> (res: Result<(), BinaryError>)
        ensures
            res is Ok,
            Self::appended(*old(self), *final(self), encode_i32(v, old(self).is_big_endian())),
    {
        self.serialize_u32(v as u32)
    }

    /// Writes an `i64` as its two's complement in the configured byte order.
    pub fn serialize_i64(&mut self, v: i64) -> (res: Result<(), BinaryError>)
        ensures
            res is Ok,
            Self::appended(*old(self), *final(self), encode_i64(v, old(self).is_big_endian())),
    {
        self.serialize_u64(v as u64)
    }

    /// Writes an `i128` as its two's complement in the configured byte order.
    pub fn serialize_i128(&mut self, v: i128) -> (res: Result<(), BinaryError>)
        ensures
            res is Ok,
            Self::appended(*old(self), *final(self), encode_i128(v, old(self).is_big_endian())),
    {
        self.serialize_u128(v as u128)
    }

    /// Writes a character as its UTF-8 bytes, without a length.
    pub fn serialize_char(&mut self, v: char) -> (res: Result<(), BinaryError>)
        ensures
            res is Ok,
            Self::appended(*old(self), *final(self), encode_char(v)),
    {
        self.serialize_vec(char_to_utf8(v))
    }

    /// Writes a string: the length of its UTF-8 form as a count, then the bytes.
    pub fn serialize_str(&mut self, v: &str) -> (res: Result<(), BinaryError>)
        ensures
            res is Ok,
            Self::appended(*old(self), *final(self), encode_str(v@)),
    {
        self.serialize_bytes(v.as_bytes())
    }

    /// Writes a byte buffer: its length as a count, then the bytes.
    pub fn serialize_bytes(&mut self, v: &[u8]) -> (res: Result<(), BinaryError>)
        ensures
            res is Ok,
            Self::appended(*old(self), *final(self), encode_bytes(v@)),
    {
        let mut head = compress_usize(v.len());
        self.output.append(&mut head);
        self.output.extend_from_slice(v);
        proof {
            assert(self.output@ =~= old(self).output@ + encode_bytes(v@));
        }
        Ok(())
    }

    /// Marks an absent optional value.
    pub fn serialize_none(&mut self) -> (res: Result<(), BinaryError>)
        ensures
            res is Ok,
            Self::appended(*old(self), *final(self), seq![NONE]),
    {
        self.serialize_u8(NONE)
    }

    /// Marks a present optional value; the value's own bytes follow.
    pub fn serialize_some(&mut self) -> (res: Result<(), BinaryError>)
        ensures
            res is Ok,
            Self::appended(*old(self), *final(self), seq![SOME]),
    {
        self.serialize_u8(SOME)
    }

    /// A unit takes no bytes.
    pub fn serialize_unit(&mut self) -> (res: Result<(), BinaryError>)
        ensures
            res is Ok,
            *final(self) == *old(self),
    {
        Ok(())
    }

    /// A unit struct takes no bytes.
    pub fn serialize_unit_struct(&mut self, _name: &str) -> (res: Result<(), BinaryError>)
        ensures
            res is Ok,
            *final(self) == *old(self),
    {
        Ok(())
    }

    /// Writes a unit variant: its marker and its index.
    pub fn serialize_unit_variant(&mut self, variant_index: u32) -> (res: Result<(), BinaryError>)
        ensures
            res is Ok,
            Self::appended(
                *old(self),
                *final(self),
                encode_unit_variant(variant_index, old(self).is_big_endian()),
            ),
    {
        self.output.push(UNIT_VARIANT);
        let r = self.serialize_u32(variant_index);
        proof {
            assert(self.output@ =~= old(self).output@ + encode_unit_variant(
                variant_index,
                self.big_endian,
            ));
        }
        r
    }

    /// A newtype struct is framed as its inner value alone.
    pub fn serialize_newtype_struct(&mut self, _name: &str) -> (res: Result<(), BinaryError>)
        ensures
            res is Ok,
            *final(self) == *old(self),
    {
        Ok(())
    }

    /// Writes the index of a newtype variant; the inner value follows.
    pub fn serialize_newtype_variant(&mut self, variant_index: u32) -> (res: Result<
        (),
        BinaryError,
    >)
        ensures
            res is Ok,
            Self::appended(
                *old(self),
                *final(self),
                encode_u32(variant_index, old(self).is_big_endian()),
            ),
    {
        self.serialize_u32(variant_index)
    }

    /// Opens a sequence of `len` elements; one of unknown length is rejected
    /// and nothing is written.
    pub fn serialize_seq(&mut self, len: Option<usize>) -> (res: Result<(), BinaryError>)
        ensures
            len is Some ==> res is Ok && Self::appended(
                *old(self),
                *final(self),
                count_bytes(len->0 as nat),
            ),
            len is None ==> *final(self) == *old(self) && (res matches Err(
                BinaryError::Message { message },
            ) && message@ == unknown_length_text()),
    {
        match len {
            Some(n) => self.serialize_usize(n),
            None => Err(unknown_length_error()),
        }
    }

    /// Opens a tuple of `len` elements.
    pub fn serialize_tuple(&mut self, len: usize) -> (res: Result<(), BinaryError>)
        ensures
            res is Ok,
            Self::appended(*old(self), *final(self), count_bytes(len as nat)),
    {
        self.serialize_seq(Some(len))
    }

    /// Opens a tuple struct of `len` fields.
    pub fn serialize_tuple_struct(&mut self, _name: &str, len: usize) -> (res: Result<
        (),
        BinaryError,
    >)
        ensures
            res is Ok,
            Self::appended(*old(self), *final(self), count_bytes(len as nat)),
    {
        self.serialize_seq(Some(len))
    }

    /// Opens a tuple variant: its index and its number of fields.
    pub fn serialize_tuple_variant(&mut self, variant_index: u32, len: usize) -> (res: Result<
        (),
        BinaryError,
    >)
        ensures
            res is Ok,
            Self::appended(
                *old(self),
                *final(self),
                encode_tuple_variant(variant_index, len, old(self).is_big_endian()),
            ),
    {
        let _ = self.serialize_u32(variant_index);
        let r = self.serialize_usize(len);
        proof {
            assert(self.output@ =~= old(self).output@ + encode_tuple_variant(
                variant_index,
                len,
                self.big_endian,
            ));
        }
        r
    }

    /// Opens a map of `len` entries; one of unknown length is rejected and
    /// nothing is written.
    pub fn serialize_map(&mut self, len: Option<usize>) -> (res: Result<(), BinaryError>)
        ensures
            len is Some ==> res is Ok && Self::appended(
                *old(self),
                *final(self),
                count_bytes(len->0 as nat),
            ),
            len is None ==> *final(self) == *old(self) && (res matches Err(
                BinaryError::Message { message },
            ) && message@ == unknown_length_text()),
    {
        match len {
            Some(n) => self.serialize_usize(n),
            None => Err(unknown_length_error()),
        }
    }

    /// Opens a struct: its marker, its name and its number of fields.
    pub fn serialize_struct(&mut self, name: &str, len: usize) -> (res: Result<(), BinaryError>)
        ensures
            res is Ok,
            Self::appended(*old(self), *final(self), encode_struct(name@, len)),
    {
        self.output.push(STRUCT);
        let _ = self.serialize_str(name);
        let r = self.serialize_usize(len);
        proof {
            assert(self.output@ =~= old(self).output@ + encode_struct(name@, len));
        }
        r
    }

    /// Opens a struct variant: its marker, the name, the index and the number of fields.
    pub fn serialize_struct_variant(&mut self, name: &str, variant_index: u32, len: usize) -> (res:
        Result<(), BinaryError>)
        ensures
            res is Ok,
            Self::appended(
                *old(self),
                *final(self),
                encode_struct_variant(name@, variant_index, len, old(self).is_big_endian()),
            ),
    {
        self.output.push(STRUCT_VARIANT);
        let _ = self.serialize_str(name);
        let _ = self.serialize_u32(variant_index);
        let r = self.serialize_usize(len);
        proof {
            assert(self.output@ =~= old(self).output@ + encode_struct_variant(
                name@,
                variant_index,
                len,
                self.big_endian,
            ));
        }
        r
    }

    /// Closes a composite shape; every composite is length-prefixed, so
    /// nothing is written.
    pub fn end(&mut self) -> (res: Result<(), BinaryError>)
        ensures
            res is Ok,
            *final(self) == *old(self),
    {
        Ok(())
    }
}

} // verus!
