//! The streaming encoder: the same shapes as the buffered encoder, written
//! piece by piece. Every operation leaves the bytes of its shape pending; the
//! owner of the sink takes them and pushes them out before the next
//! operation, so that no message is held in memory as a whole.
//!
//! Two shapes are framed otherwise than in a buffer: newtype and tuple
//! variants carry a marker of their own before their index, and a struct
//! carries no marker and no name, only its number of fields.

use vstd::prelude::*;
use crate::binaryerror::BinaryError;
use crate::common::{count_bytes, compress_usize, NONE, NONUNIT_VARIANT, SOME, STRUCT_VARIANT, UNIT_VARIANT};
use crate::endian::{u16_bytes, u32_bytes, u64_bytes, u128_bytes};
use crate::ser::{
    encode_bool, encode_bytes, encode_char, encode_i128, encode_i16, encode_i32, encode_i64,
    encode_i8, encode_str, encode_struct_variant, encode_u128, encode_u16, encode_u32, encode_u64,
    encode_u8, encode_unit_variant, unknown_length_error, unknown_length_text,
};
use crate::utf8::char_to_utf8;

verus! {

/// The header of a streamed newtype variant: its marker and its index.
pub open spec fn encode_newtype_variant(index: u32, big_endian: bool) -> Seq<u8> {
    seq![NONUNIT_VARIANT] + encode_u32(index, big_endian)
}

/// The header of a streamed tuple variant: its marker, its index and its
/// number of fields.
pub open spec fn encode_tuple_variant(index: u32, len: usize, big_endian: bool) -> Seq<u8> {
    seq![NONUNIT_VARIANT] + encode_u32(index, big_endian) + count_bytes(len as nat)
}

/// An encoder whose output is taken away piece by piece.
pub struct Serializer {
    output: Vec<u8>,
    big_endian: bool,
}

impl Serializer {
    /// The bytes that wait to be pushed to the sink.
    pub closed spec fn written(&self) -> Seq<u8> {
        self.output@
    }

    /// Whether fixed-width numbers are written most significant byte first.
    pub closed spec fn is_big_endian(&self) -> bool {
        self.big_endian
    }

    /// True when `post` is `pre` with `bytes` appended and the same byte order.
    pub open spec fn appended(pre: Serializer, post: Serializer, bytes: Seq<u8>) -> bool {
        &&& post.written() == pre.written() + bytes
        &&& post.is_big_endian() == pre.is_big_endian()
    }

    /// Creates an encoder with nothing pending.
    pub fn new(big_endian: bool) -> (res: Self)
        ensures
            res.written() == Seq::<u8>::empty(),
            res.is_big_endian() == big_endian,
    {
        Self { output: Vec::new(), big_endian }
    }

    /// The configured byte order.
    pub fn big_endian(&self) -> (res: bool)
        ensures
            res == self.is_big_endian(),
    {
        self.big_endian
    }

    /// The bytes written so far.
    pub fn output(&self) -> (res: &Vec<u8>)
        ensures
            res@ == self.written(),
    {
        &self.output
    }

    /// Takes the pending bytes away, to be pushed to the sink.
    pub fn take_pending(&mut self) -> (res: Vec<u8>)
        ensures
            res@ == old(self).written(),
            final(self).written() == Seq::<u8>::empty(),
            final(self).is_big_endian() == old(self).is_big_endian(),
    {
        let mut out: Vec<u8> = Vec::new();
        out.append(&mut self.output);
        out
    }

    /// Leaves `data` pending as it is.
    pub fn write(&mut self, data: &Vec<u8>)
        ensures
            Self::appended(*old(self), *final(self), data@),
    {
        self.output.extend_from_slice(data.as_slice());
        proof {
            assert(self.output@ =~= old(self).output@ + data@);
        }
    }

    /// Appends raw bytes.
    pub fn serialize_vec(&mut self, v: Vec<u8>) -> (res: Result<(), BinaryError>)
        ensures
            res is Ok,
            Self::appended(*old(self), *final(self), v@),
    {
        let mut v = v;
        self.output.append(&mut v);
        Ok(())
    }

    /// Appends a count in the variable-length scheme.
    pub fn serialize_usize(&mut self, v: usize) -> (res: Result<(), BinaryError>)
        ensures
            res is Ok,
            Self::appended(*old(self), *final(self), count_bytes(v as nat)),
    {
        self.serialize_vec(compress_usize(v))
    }

    /// Writes a `bool` as one byte, one for `true` and zero for `false`.
    pub fn serialize_bool(&mut self, v: bool) -> (res: Result<(), BinaryError>)
        ensures
            res is Ok,
            Self::appended(*old(self), *final(self), encode_bool(v)),
    {
        self.serialize_u8(if v { 1 } else { 0 })
    }

    /// Writes a byte.
    pub fn serialize_u8(&mut self, v: u8) -> (res: Result<(), BinaryError>)
        ensures
            res is Ok,
            Self::appended(*old(self), *final(self), encode_u8(v)),
    {
        self.output.push(v);
        proof {
            assert(self.output@ =~= old(self).output@ + encode_u8(v));
        }
        Ok(())
    }

    /// Writes a `u16` in the configured byte order.
    pub fn serialize_u16(&mut self, v: u16) -> (res: Result<(), BinaryError>)
        ensures
            res is Ok,
            Self::appended(*old(self), *final(self), encode_u16(v, old(self).is_big_endian())),
    {
        self.serialize_vec(u16_bytes(v, self.big_endian))
    }

    /// Writes a `u32` in the configured byte order.
    pub fn serialize_u32(&mut self, v: u32) -> (res: Result<(), BinaryError>)
        ensures
            res is Ok,
            Self::appended(*old(self), *final(self), encode_u32(v, old(self).is_big_endian())),
    {
        self.serialize_vec(u32_bytes(v, self.big_endian))
    }

    /// Writes a `u64` in the configured byte order.
    pub fn serialize_u64(&mut self, v: u64) -> (res: Result<(), BinaryError>)
        ensures
            res is Ok,
            Self::appended(*old(self), *final(self), encode_u64(v, old(self).is_big_endian())),
    {
        self.serialize_vec(u64_bytes(v, self.big_endian))
    }

    /// Writes a `u128` in the configured byte order.
    pub fn serialize_u128(&mut self, v: u128) -> (res: Result<(), BinaryError>)
        ensures
            res is Ok,
            Self::appended(*old(self), *final(self), encode_u128(v, old(self).is_big_endian())),
    {
        self.serialize_vec(u128_bytes(v, self.big_endian))
    }

    /// Writes an `i8` as its two's complement byte.
    pub fn serialize_i8(&mut self, v: i8) -> (res: Result<(), BinaryError>)
        ensures
            res is Ok,
            Self::appended(*old(self), *final(self), encode_i8(v)),
    {
        self.serialize_u8(v as u8)
    }

    /// Writes an `i16` as its two's complement in the configured byte order.
    pub fn serialize_i16(&mut self, v: i16) -> (res: Result<(), BinaryError>)
        ensures
            res is Ok,
            Self::appended(*old(self), *final(self), encode_i16(v, old(self).is_big_endian())),
    {
        self.serialize_u16(v as u16)
    }

    /// Writes an `i32` as its two's complement in the configured byte order.
    pub fn serialize_i32(&mut self, v: i32) -> (res: Result<(), BinaryError>)
        ensures
            res is Ok,
            Self::appended(*old(self), *final(self), encode_i32(v, old(self).is_big_endian())),
    {
        self.serialize_u32(v as u32)
    }

    /// Writes an `i64` as its two's complement in the configured byte order.
    pub fn serialize_i64(&mut self, v: i64) -> (res: Result<(), BinaryError>)
        ensures
            res is Ok,
            Self::appended(*old(self), *final(self), encode_i64(v, old(self).is_big_endian())),
    {
        self.serialize_u64(v as u64)
    }

    /// Writes an `i128` as its two's complement in the configured byte order.
    pub fn serialize_i128(&mut self, v: i128) -> (res: Result<(), BinaryError>)
        ensures
            res is Ok,
            Self::appended(*old(self), *final(self), encode_i128(v, old(self).is_big_endian())),
    {
        self.serialize_u128(v as u128)
    }

    /// Writes a character as its UTF-8 bytes, without a length.
    pub fn serialize_char(&mut self, v: char) -> (res: Result<(), BinaryError>)
        ensures
            res is Ok,
            Self::appended(*old(self), *final(self), encode_char(v)),
    {
        self.serialize_vec(char_to_utf8(v))
    }

    /// Writes a string: the length of its UTF-8 form as a count, then the bytes.
    pub fn serialize_str(&mut self, v: &str) -> (res: Result<(), BinaryError>)
        ensures
            res is Ok,
            Self::appended(*old(self), *final(self), encode_str(v@)),
    {
        self.serialize_bytes(v.as_bytes())
    }

    /// Writes a byte buffer: its length as a count, then the bytes.
    pub fn serialize_bytes(&mut self, v: &[u8]) -> (res: Result<(), BinaryError>)
        ensures
            res is Ok,
            Self::appended(*old(self), *final(self), encode_bytes(v@)),
    {
        let mut head = compress_usize(v.len());
        self.output.append(&mut head);
        self.output.extend_from_slice(v);
        proof {
            assert(self.output@ =~= old(self).output@ + encode_bytes(v@));
        }
        Ok(())
    }

    /// Marks an absent optional value.
    pub fn serialize_none(&mut self) -> (res: Result<(), BinaryError>)
        ensures
            res is Ok,
            Self::appended(*old(self), *final(self), seq![NONE]),
    {
        self.serialize_u8(NONE)
    }

    /// Marks a present optional value; the value's own bytes follow.
    pub fn serialize_some(&mut self) -> (res: Result<(), BinaryError>)
        ensures
            res is Ok,
            Self::appended(*old(self), *final(self), seq![SOME]),
    {
        self.serialize_u8(SOME)
    }

    /// A unit takes no bytes.
    pub fn serialize_unit(&mut self) -> (res: Result<(), BinaryError>)
        ensures
            res is Ok,
            *final(self) == *old(self),
    {
        Ok(())
    }

    /// A unit struct takes no bytes.
    pub fn serialize_unit_struct(&mut self, _name: &str) -> (res: Result<(), BinaryError>)
        ensures
            res is Ok,
            *final(self) == *old(self),
    {
        Ok(())
    }

    /// Writes a unit variant: its marker and its index.
    pub fn serialize_unit_variant(&mut self, variant_index: u32) -> (res: Result<(), BinaryError>)
        ensures
            res is Ok,
            Self::appended(
                *old(self),
                *final(self),
                encode_unit_variant(variant_index, old(self).is_big_endian()),
            ),
    {
        self.output.push(UNIT_VARIANT);
        let r = self.serialize_u32(variant_index);
        proof {
            assert(self.output@ =~= old(self).output@ + encode_unit_variant(
                variant_index,
                self.big_endian,
            ));
        }
        r
    }

    /// A newtype struct is framed as its inner value alone.
    pub fn serialize_newtype_struct(&mut self, _name: &str) -> (res: Result<(), BinaryError>)
        ensures
            res is Ok,
            *final(self) == *old(self),
    {
        Ok(())
    }

    /// Writes the marker and the index of a newtype variant; the inner value
    /// follows.
    pub fn serialize_newtype_variant(&mut self, variant_index: u32) -> (res: Result<
        (),
        BinaryError,
    >)
        ensures
            res is Ok,
            Self::appended(
                *old(self),
                *final(self),
                encode_newtype_variant(variant_index, old(self).is_big_endian()),
            ),
    {
        self.output.push(NONUNIT_VARIANT);
        let r = self.serialize_u32(variant_index);
        proof {
            assert(self.output@ =~= old(self).output@ + encode_newtype_variant(
                variant_index,
                self.big_endian,
            ));
        }
        r
    }

    /// Opens a sequence of `len` elements; one of unknown length is rejected
    /// and nothing is written.
    pub fn serialize_seq(&mut self, len: Option<usize>) -> (res: Result<(), BinaryError>)
        ensures
            len is Some ==> res is Ok && Self::appended(
                *old(self),
                *final(self),
                count_bytes(len->0 as nat),
            ),
            len is None ==> *final(self) == *old(self) && (res matches Err(
                BinaryError::Message { message },
            ) && message@ == unknown_length_text()),
    {
        match len {
            Some(n) => self.serialize_usize(n),
            None => Err(unknown_length_error()),
        }
    }

    /// Opens a tuple of `len` elements.
    pub fn serialize_tuple(&mut self, len: usize) -> (res: Result<(), BinaryError>)
        ensures
            res is Ok,
            Self::appended(*old(self), *final(self), count_bytes(len as nat)),
    {
        self.serialize_seq(Some(len))
    }

    /// Opens a tuple struct of `len` fields.
    pub fn serialize_tuple_struct(&mut self, _name: &str, len: usize) -> (res: Result<
        (),
        BinaryError,
    >)
        ensures
            res is Ok,
            Self::appended(*old(self), *final(self), count_bytes(len as nat)),
    {
        self.serialize_seq(Some(len))
    }

    /// Opens a tuple variant: its marker, its index and its number of fields.
    pub fn serialize_tuple_variant(&mut self, variant_index: u32, len: usize) -> (res: Result<
        (),
        BinaryError,
    >)
        ensures
            res is Ok,
            Self::appended(
                *old(self),
                *final(self),
                encode_tuple_variant(variant_index, len, old(self).is_big_endian()),
            ),
    {
        self.output.push(NONUNIT_VARIANT);
        let _ = self.serialize_u32(variant_index);
        let r = self.serialize_usize(len);
        proof {
            assert(self.output@ =~= old(self).output@ + encode_tuple_variant(
                variant_index,
                len,
                self.big_endian,
            ));
        }
        r
    }

    /// Opens a map of `len` entries; one of unknown length is rejected and
    /// nothing is written.
    pub fn serialize_map(&mut self, len: Option<usize>) -> (res: Result<(), BinaryError>)
        ensures
            len is Some ==> res is Ok && Self::appended(
                *old(self),
                *final(self),
                count_bytes(len->0 as nat),
            ),
            len is None ==> *final(self) == *old(self) && (res matches Err(
                BinaryError::Message { message },
            ) && message@ == unknown_length_text()),
    {
        match len {
            Some(n) => self.serialize_usize(n),
            None => Err(unknown_length_error()),
        }
    }

    /// Opens a struct: only its number of fields is written.
    pub fn serialize_struct(&mut self, _name: &str, len: usize) -> (res: Result<(), BinaryError>)
        ensures
            res is Ok,
            Self::appended(*old(self), *final(self), count_bytes(len as nat)),
    {
        self.serialize_usize(len)
    }

    /// Opens a struct variant: its marker, the name, the index and the number of fields.
    pub fn serialize_struct_variant(&mut self, name: &str, variant_index: u32, len: usize) -> (res:
        Result<(), BinaryError>)
        ensures
            res is Ok,
            Self::appended(
                *old(self),
                *final(self),
                encode_struct_variant(name@, variant_index, len, old(self).is_big_endian()),
            ),
    {
        self.output.push(STRUCT_VARIANT);
        let _ = self.serialize_str(name);
        let _ = self.serialize_u32(variant_index);
        let r = self.serialize_usize(len);
        proof {
            assert(self.output@ =~= old(self).output@ + encode_struct_variant(
                name@,
                variant_index,
                len,
                self.big_endian,
            ));
        }
        r
    }

    /// Closes a composite shape; every composite is length-prefixed, so
    /// nothing is written.
    pub fn end(&mut self) -> (res: Result<(), BinaryError>)
        ensures
            res is Ok,
            *final(self) == *old(self),
    {
        Ok(())
    }
}

} // verus!
