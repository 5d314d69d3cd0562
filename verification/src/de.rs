//! The buffered decoder: a cursor over a byte vector with one operation per
//! shape. Each operation consumes the bytes that the shape prescribes and
//! returns what they stand for; the read position only ever moves forward.

use vstd::prelude::*;
use vstd::slice::slice_subrange;
use vstd::slice::slice_to_vec;
use vstd::utf8::{decode_utf8, valid_utf8};
use crate::binaryerror::BinaryError;
use crate::common::{
    count_frame_complete, count_frame_len, count_value, decompress_usize, NONE, SOME, STRUCT,
    STRUCT_VARIANT, UNIT_VARIANT,
};
use crate::endian::{number_from_bytes, ordered_value};
use crate::common::lemma_pow256_values;
use crate::utf8::string_from_utf8;

verus! {

/// What a fixed-width read of `width` bytes finds at the start of `s`.
pub open spec fn decode_number(s: Seq<u8>, width: nat, big_endian: bool) -> Result<
    (nat, nat),
    BinaryError,
> {
    if s.len() < width {
        Err(BinaryError::UnexpectedEndOfInput)
    } else {
        Ok((ordered_value(s.subrange(0, width as int), big_endian), width))
    }
}

/// The byte read from the start of `s`.
pub open spec fn decode_u8(s: Seq<u8>) -> Result<(u8, nat), BinaryError> {
    if s.len() < 1 {
        Err(BinaryError::UnexpectedEndOfInput)
    } else {
        Ok((s[0], 1))
    }
}

/// A zero byte is `false`, every other byte is `true`.
pub open spec fn decode_bool(s: Seq<u8>) -> Result<(bool, nat), BinaryError> {
    match decode_u8(s) {
        Ok((b, n)) => Ok((b != 0, n)),
        Err(e) => Err(e),
    }
}

/// The `i8` read from the start of `s`.
pub open spec fn decode_i8(s: Seq<u8>) -> Result<(i8, nat), BinaryError> {
    match decode_u8(s) {
        Ok((b, n)) => Ok((b as i8, n)),
        Err(e) => Err(e),
    }
}

/// The `u16` read from the start of `s`.
pub open spec fn decode_u16(s: Seq<u8>, big_endian: bool) -> Result<(u16, nat), BinaryError> {
    match decode_number(s, 2, big_endian) {
        Ok((v, n)) => Ok((v as u16, n)),
        Err(e) => Err(e),
    }
}

/// The `u32` read from the start of `s`.
pub open spec fn decode_u32(s: Seq<u8>, big_endian: bool) -> Result<(u32, nat), BinaryError> {
    match decode_number(s, 4, big_endian) {
        Ok((v, n)) => Ok((v as u32, n)),
        Err(e) => Err(e),
    }
}

/// The `u64` read from the start of `s`.
pub open spec fn decode_u64(s: Seq<u8>, big_endian: bool) -> Result<(u64, nat), BinaryError> {
    match decode_number(s, 8, big_endian) {
        Ok((v, n)) => Ok((v as u64, n)),
        Err(e) => Err(e),
    }
}

/// The `u128` read from the start of `s`.
pub open spec fn decode_u128(s: Seq<u8>, big_endian: bool) -> Result<(u128, nat), BinaryError> {
    match decode_number(s, 16, big_endian) {
        Ok((v, n)) => Ok((v as u128, n)),
        Err(e) => Err(e),
    }
}

/// The `i16` read from the start of `s`.
pub open spec fn decode_i16(s: Seq<u8>, big_endian: bool) -> Result<(i16, nat), BinaryError> {
    match decode_u16(s, big_endian) {
        Ok((v, n)) => Ok((v as i16, n)),
        Err(e) => Err(e),
    }
}

/// The `i32` read from the start of `s`.
pub open spec fn decode_i32(s: Seq<u8>, big_endian: bool) -> Result<(i32, nat), BinaryError> {
    match decode_u32(s, big_endian) {
        Ok((v, n)) => Ok((v as i32, n)),
        Err(e) => Err(e),
    }
}

/// The `i64` read from the start of `s`.
pub open spec fn decode_i64(s: Seq<u8>, big_endian: bool) -> Result<(i64, nat), BinaryError> {
    match decode_u64(s, big_endian) {
        Ok((v, n)) => Ok((v as i64, n)),
        Err(e) => Err(e),
    }
}

/// The `i128` read from the start of `s`.
pub open spec fn decode_i128(s: Seq<u8>, big_endian: bool) -> Result<(i128, nat), BinaryError> {
    match decode_u128(s, big_endian) {
        Ok((v, n)) => Ok((v as i128, n)),
        Err(e) => Err(e),
    }
}

/// The count read from the start of `s`. A frame that the input cuts short is
/// an unexpected end of input.
pub open spec fn decode_count(s: Seq<u8>) -> Result<(usize, nat), BinaryError> {
    if count_frame_complete(s) {
        Ok(((count_value(s) % (usize::MAX as nat + 1)) as usize, count_frame_len(s)->0))
    } else {
        Err(BinaryError::UnexpectedEndOfInput)
    }
}

/// The total length of the character frame that starts with `first`; `None`
/// for a byte that cannot start a character.
pub open spec fn char_frame_len(first: u8) -> Option<nat> {
    if first <= 0x7F {
        Some(1)
    } else if first < 0xC0 {
        None
    } else if first <= 0xDF {
        Some(2)
    } else if first <= 0xEF {
        Some(3)
    } else {
        Some(4)
    }
}

/// The character read from the start of `s`.
pub open spec fn decode_char(s: Seq<u8>) -> Result<(char, nat), BinaryError> {
    if s.len() < 1 {
        Err(BinaryError::UnexpectedEndOfInput)
    } else {
        match char_frame_len(s[0]) {
            None => Err(BinaryError::InvalidBytes),
            Some(n) => if s.len() < n {
                Err(BinaryError::UnexpectedEndOfInput)
            } else if !valid_utf8(s.subrange(0, n as int)) {
                Err(BinaryError::InvalidBytes)
            } else {
                Ok((decode_utf8(s.subrange(0, n as int))[0], n))
            },
        }
    }
}

/// The byte buffer read from the start of `s`: a count, then that many bytes.
pub open spec fn decode_bytes(s: Seq<u8>) -> Result<(Seq<u8>, nat), BinaryError> {
    match decode_count(s) {
        Err(e) => Err(e),
        Ok((len, n)) => if s.len() - n < len {
            Err(BinaryError::UnexpectedEndOfInput)
        } else {
            Ok((s.subrange(n as int, n + len), n + len as nat))
        },
    }
}

/// The string read from the start of `s`: a byte buffer that holds UTF-8.
pub open spec fn decode_str(s: Seq<u8>) -> Result<(Seq<char>, nat), BinaryError> {
    match decode_bytes(s) {
        Err(e) => Err(e),
        Ok((b, n)) => if valid_utf8(b) {
            Ok((decode_utf8(b), n))
        } else {
            Err(BinaryError::InvalidBytes)
        },
    }
}

/// The optional frame read from the start of `s`: `true` when a value follows.
pub open spec fn decode_option(s: Seq<u8>) -> Result<(bool, nat), BinaryError> {
    if s.len() < 1 {
        Err(BinaryError::UnexpectedEndOfInput)
    } else if s[0] == NONE {
        Ok((false, 1))
    } else if s[0] == SOME {
        Ok((true, 1))
    } else {
        Err(BinaryError::MissingOrInvalidFlag { actual: s[0], expected: SOME })
    }
}

/// How a struct header at the start of `s` reads against the expected name.
pub enum StructHeader {
    /// The header is well formed: the number of fields and the header's length.
    Fields(usize, nat),
    /// The header names another struct.
    WrongName(Seq<char>),
    /// The header is malformed or cut short.
    Broken(BinaryError),
}

/// Reads a struct header: the marker, the name, and the number of fields.
pub open spec fn decode_struct(s: Seq<u8>, name: Seq<char>) -> StructHeader {
    if s.len() < 1 {
        StructHeader::Broken(BinaryError::UnexpectedEndOfInput)
    } else if s[0] != STRUCT {
        StructHeader::Broken(BinaryError::MissingOrInvalidFlag { actual: s[0], expected: STRUCT })
    } else {
        match decode_str(s.skip(1)) {
            Err(e) => StructHeader::Broken(e),
            Ok((found, n)) => if found != name {
                StructHeader::WrongName(found)
            } else {
                match decode_count(s.skip(1 + n as int)) {
                    Err(e) => StructHeader::Broken(e),
                    Ok((len, m)) => StructHeader::Fields(len, 1 + n + m),
                }
            },
        }
    }
}

/// The kind of an enumeration's variant, as far as the wire tells.
#[derive(Clone, Copy, Debug, PartialEq, Eq, Structural)]
pub enum VariantKind {
    /// A variant without payload.
    Unit,
    /// A newtype or tuple variant; the payload follows.
    NonUnit,
    /// A struct variant; the number of fields follows.
    Struct,
}

impl VariantKind {
    /// Answers a request for a variant without payload: granted for a unit
    /// variant, an unexpected type for every other kind.
    pub fn unit_variant(&self) -> (res: Result<(), BinaryError>)
        ensures
            *self == VariantKind::Unit ==> res is Ok,
            *self != VariantKind::Unit ==> res == Err::<(), BinaryError>(
                BinaryError::UnexpectedType,
            ),
    {
        match self {
            VariantKind::Unit => Ok(()),
            _ => Err(BinaryError::UnexpectedType),
        }
    }
}

/// How an enumeration header at the start of `s` reads.
pub enum EnumHeader {
    /// The header is well formed: the kind, the variant's index and the
    /// header's length.
    Variant(VariantKind, u32, nat),
    /// A struct variant's header carries another name.
    WrongName(Seq<char>),
    /// The header is malformed or cut short.
    Broken(BinaryError),
}

/// Reads an enumeration header. The first byte is looked at without being
/// consumed: the unit marker is followed by the index; the struct-variant
/// marker by the name and the index; anything else is the first byte of the
/// index of a newtype or tuple variant, which has no marker of its own.
pub open spec fn decode_enum(s: Seq<u8>, name: Seq<char>, big_endian: bool) -> EnumHeader {
    if s.len() < 1 {
        EnumHeader::Broken(BinaryError::UnexpectedEndOfInput)
    } else if s[0] == UNIT_VARIANT {
        match decode_u32(s.skip(1), big_endian) {
            Err(e) => EnumHeader::Broken(e),
            Ok((index, n)) => EnumHeader::Variant(VariantKind::Unit, index, 1 + n),
        }
    } else if s[0] == STRUCT_VARIANT {
        match decode_str(s.skip(1)) {
            Err(e) => EnumHeader::Broken(e),
            Ok((found, n)) => if found != name {
                EnumHeader::WrongName(found)
            } else {
                match decode_u32(s.skip(1 + n as int), big_endian) {
                    Err(e) => EnumHeader::Broken(e),
                    Ok((index, m)) => EnumHeader::Variant(VariantKind::Struct, index, 1 + n + m),
                }
            },
        }
    } else {
        match decode_u32(s, big_endian) {
            Err(e) => EnumHeader::Broken(e),
            Ok((index, n)) => EnumHeader::Variant(VariantKind::NonUnit, index, n),
        }
    }
}

/// A decoder over an owned byte vector.
pub struct Deserializer {
    data: Vec<u8>,
    position: usize,
    big_endian: bool,
}

impl Deserializer {
    /// The bytes that have not been read yet.
    pub closed spec fn remaining(&self) -> Seq<u8> {
        if self.position <= self.data@.len() {
            self.data@.subrange(self.position as int, self.data@.len() as int)
        } else {
            Seq::<u8>::empty()
        }
    }

    /// Whether fixed-width numbers are read most significant byte first.
    pub closed spec fn is_big_endian(&self) -> bool {
        self.big_endian
    }

    /// True when `post` is `pre` advanced by `n` bytes.
    pub open spec fn advanced(pre: Deserializer, post: Deserializer, n: nat) -> bool {
        &&& n <= pre.remaining().len()
        &&& post.remaining() == pre.remaining().skip(n as int)
        &&& post.is_big_endian() == pre.is_big_endian()
    }

    /// True when the call that took the decoder from `pre` to `post` and
    /// returned `res` did what `expected` says: on success it returned the
    /// value and consumed the bytes, on failure it returned the error.
    pub open spec fn reads<T>(
        pre: Deserializer,
        post: Deserializer,
        res: Result<T, BinaryError>,
        expected: Result<(T, nat), BinaryError>,
    ) -> bool {
        &&& post.is_big_endian() == pre.is_big_endian()
        &&& match expected {
            Ok((v, n)) => res == Ok::<T, BinaryError>(v) && Self::advanced(pre, post, n),
            Err(e) => res == Err::<T, BinaryError>(e),
        }
    }

    /// Creates a decoder over a copy of `input`.
    pub fn new(input: &Vec<u8>, big_endian: bool) -> (res: Self)
        ensures
            res.remaining() == input@,
            res.is_big_endian() == big_endian,
    {
        let data = slice_to_vec(input.as_slice());
        proof {
            assert(data@.subrange(0, data@.len() as int) =~= data@);
        }
        Deserializer { data, position: 0, big_endian }
    }

    /// The configured byte order.
    pub fn big_endian(&self) -> (res: bool)
        ensures
            res == self.is_big_endian(),
    {
        self.big_endian
    }

    /// The number of bytes that have not been read yet.
    pub fn remaining_len(&self) -> (res: usize)
        ensures
            res == self.remaining().len(),
    {
        self.left()
    }

    fn left(&self) -> (res: usize)
        ensures
            res == self.remaining().len(),
            self.position <= self.data@.len() ==> res == self.data@.len() - self.position,
            self.position > self.data@.len() ==> res == 0,
            self.data@.len() <= usize::MAX,
    {
        if self.position <= self.data.len() {
            self.data.len() - self.position
        } else {
            0
        }
    }

    /// Looks at the next byte without consuming it.
    pub fn peek(&self) -> (res: Result<u8, BinaryError>)
        ensures
            match decode_u8(self.remaining()) {
                Ok((b, _)) => res == Ok::<u8, BinaryError>(b),
                Err(e) => res == Err::<u8, BinaryError>(e),
            },
    {
        if self.left() == 0 {
            Err(BinaryError::UnexpectedEndOfInput)
        } else {
            Ok(self.data[self.position])
        }
    }

    /// Looks at the byte `ahead` places after the next one.
    pub fn peek_at(&self, ahead: usize) -> (res: Result<u8, BinaryError>)
        ensures
            ahead < self.remaining().len() ==> res == Ok::<u8, BinaryError>(
                self.remaining()[ahead as int],
            ),
            ahead >= self.remaining().len() ==> res == Err::<u8, BinaryError>(
                BinaryError::UnexpectedEndOfInput,
            ),
    {
        if self.left() <= ahead {
            Err(BinaryError::UnexpectedEndOfInput)
        } else {
            Ok(self.data[self.position + ahead])
        }
    }

    /// Drops the bytes that were read and adds `more` behind those that were
    /// not.
    pub fn extend(&mut self, more: &[u8])
        ensures
            final(self).remaining() == old(self).remaining() + more@,
            final(self).is_big_endian() == old(self).is_big_endian(),
    {
        let have = self.left();
        let mut data: Vec<u8> = Vec::new();
        if have > 0 {
            data = slice_to_vec(
                slice_subrange(self.data.as_slice(), self.position, self.position + have),
            );
        }
        proof {
            assert(data@ =~= old(self).remaining());
        }
        data.extend_from_slice(more);
        proof {
            assert(data@ =~= old(self).remaining() + more@);
            assert(data@.subrange(0, data@.len() as int) =~= data@);
        }
        self.data = data;
        self.position = 0;
    }

    /// Consumes one byte.
    pub fn next(&mut self) -> (res: Result<u8, BinaryError>)
        ensures
            Self::reads(*old(self), *final(self), res, decode_u8(old(self).remaining())),
    {
        if self.left() == 0 {
            Err(BinaryError::UnexpectedEndOfInput)
        } else {
            let b = self.data[self.position];
            self.position = self.position + 1;
            proof {
                assert(self.remaining() =~= old(self).remaining().skip(1));
            }
            Ok(b)
        }
    }

    /// Consumes `len` bytes, or fails without them when fewer are left.
    pub fn take(&mut self, len: usize) -> (res: Result<Vec<u8>, BinaryError>)
        ensures
            final(self).is_big_endian() == old(self).is_big_endian(),
            old(self).remaining().len() < len ==> *final(self) == *old(self) && res is Err
                && res->Err_0 == BinaryError::UnexpectedEndOfInput,
            old(self).remaining().len() >= len ==> res is Ok && res->Ok_0@ == old(
                self,
            ).remaining().subrange(0, len as int) && Self::advanced(
                *old(self),
                *final(self),
                len as nat,
            ),
    {
        if self.left() < len {
            Err(BinaryError::UnexpectedEndOfInput)
        } else if self.position > self.data.len() {
            let out: Vec<u8> = Vec::new();
            proof {
                assert(self.remaining().skip(0) =~= self.remaining());
                assert(out@ =~= self.remaining().subrange(0, 0));
            }
            Ok(out)
        } else {
            let out = slice_to_vec(
                slice_subrange(self.data.as_slice(), self.position, self.position + len),
            );
            self.position = self.position + len;
            proof {
                assert(self.remaining() =~= old(self).remaining().skip(len as int));
                assert(out@ =~= old(self).remaining().subrange(0, len as int));
            }
            Ok(out)
        }
    }

    /// Consumes `width` bytes and reads them as a number in the configured
    /// byte order.
    fn take_number(&mut self, width: usize) -> (res: Result<u128, BinaryError>)
        requires
            width <= 16,
        ensures
            final(self).is_big_endian() == old(self).is_big_endian(),
            match decode_number(old(self).remaining(), width as nat, old(self).is_big_endian()) {
                Ok((v, n)) => res == Ok::<u128, BinaryError>(v as u128) && v < crate::common::pow256(
                    width as nat,
                ) && Self::advanced(*old(self), *final(self), n),
                Err(e) => res == Err::<u128, BinaryError>(e),
            },
    {
        match self.take(width) {
            Ok(bytes) => Ok(number_from_bytes(bytes.as_slice(), self.big_endian)),
            Err(e) => Err(e),
        }
    }

    /// Consumes a 32-bit number.
    pub fn next_u32(&mut self) -> (res: Result<u32, BinaryError>)
        ensures
            Self::reads(
                *old(self),
                *final(self),
                res,
                decode_u32(old(self).remaining(), old(self).is_big_endian()),
            ),
    {
        proof {
            lemma_pow256_values();
        }
        match self.take_number(4) {
            Ok(v) => Ok(v as u32),
            Err(e) => Err(e),
        }
    }

    /// Reads the count at the cursor without consuming it: the count and the
    /// length of its frame.
    pub fn peek_usize(&self) -> (res: Result<(usize, usize), BinaryError>)
        ensures
            match decode_count(self.remaining()) {
                Ok((v, n)) => res == Ok::<(usize, usize), BinaryError>((v, n as usize)) && n
                    <= self.remaining().len(),
                Err(e) => res == Err::<(usize, usize), BinaryError>(e),
            },
    {
        let have = self.left();
        let first = match self.peek() {
            Ok(b) => b,
            Err(e) => { return Err(e); },
        };
        let mut frame: usize = 1;
        if first >= 128 {
            if have < 2 {
                return Err(BinaryError::UnexpectedEndOfInput);
            }
            let second: u8 = self.data[self.position + 1];
            frame = 2 + (second / 32) as usize;
        }
        if have < frame {
            return Err(BinaryError::UnexpectedEndOfInput);
        }
        let bytes = slice_subrange(self.data.as_slice(), self.position, self.position + frame);
        proof {
            let s = self.remaining();
            let t = bytes@;
            assert(t =~= s.subrange(0, frame as int));
            assert(t[0] == s[0]);
            if first >= 128 {
                assert(t[1] == s[1]);
                assert(t.subrange(2, 2 + (t[1] / 32) as int) =~= s.subrange(
                    2,
                    2 + (s[1] / 32) as int,
                ));
            }
        }
        match decompress_usize(bytes) {
            Ok(v) => Ok((v, frame)),
            Err(e) => Err(e),
        }
    }

    /// Consumes a count.
    pub fn next_usize(&mut self) -> (res: Result<usize, BinaryError>)
        ensures
            Self::reads(*old(self), *final(self), res, decode_count(old(self).remaining())),
    {
        match self.peek_usize() {
            Ok((v, frame)) => {
                let _ = self.take(frame);
                Ok(v)
            },
            Err(e) => Err(e),
        }
    }

    /// Consumes a byte buffer: a count, then that many bytes.
    pub fn take_bytes(&mut self) -> (res: Result<Vec<u8>, BinaryError>)
        ensures
            final(self).is_big_endian() == old(self).is_big_endian(),
            match decode_bytes(old(self).remaining()) {
                Ok((b, n)) => res is Ok && res->Ok_0@ == b && Self::advanced(
                    *old(self),
                    *final(self),
                    n,
                ),
                Err(e) => res is Err && res->Err_0 == e,
            },
    {
        let len = match self.next_usize() {
            Ok(v) => v,
            Err(e) => { return Err(e); },
        };
        match self.take(len) {
            Ok(bytes) => {
                proof {
                    let s = old(self).remaining();
                    let n = decode_count(s)->Ok_0.1;
                    assert(bytes@ =~= s.subrange(n as int, n + len));
                    assert(self.remaining() =~= s.skip(n + len));
                }
                Ok(bytes)
            },
            Err(e) => Err(e),
        }
    }

    /// Consumes a string: a byte buffer that must hold UTF-8.
    pub fn take_string(&mut self) -> (res: Result<String, BinaryError>)
        ensures
            final(self).is_big_endian() == old(self).is_big_endian(),
            match decode_str(old(self).remaining()) {
                Ok((text, n)) => res is Ok && res->Ok_0@ == text && Self::advanced(
                    *old(self),
                    *final(self),
                    n,
                ),
                Err(e) => res is Err && res->Err_0 == e,
            },
    {
        let bytes = match self.take_bytes() {
            Ok(v) => v,
            Err(e) => { return Err(e); },
        };
        match string_from_utf8(bytes) {
            Some(s) => Ok(s),
            None => Err(BinaryError::InvalidBytes),
        }
    }
}

impl Deserializer {
    /// Reads a `bool`: a zero byte is `false`, any other byte `true`.
    pub fn deserialize_bool(&mut self) -> (res: Result<bool, BinaryError>)
        ensures
            Self::reads(*old(self), *final(self), res, decode_bool(old(self).remaining())),
    {
        match self.next() {
            Ok(b) => Ok(b != 0),
            Err(e) => Err(e),
        }
    }

    /// Reads a byte.
    pub fn deserialize_u8(&mut self) -> (res: Result<u8, BinaryError>)
        ensures
            Self::reads(*old(self), *final(self), res, decode_u8(old(self).remaining())),
    {
        self.next()
    }

    /// Reads an `i8` from its two's complement byte.
    pub fn deserialize_i8(&mut self) -> (res: Result<i8, BinaryError>)
        ensures
            Self::reads(*old(self), *final(self), res, decode_i8(old(self).remaining())),
    {
        match self.next() {
            Ok(b) => Ok(b as i8),
            Err(e) => Err(e),
        }
    }

    /// Reads a `u16` in the configured byte order.
    pub fn deserialize_u16(&mut self) -> (res: Result<u16, BinaryError>)
        ensures
            Self::reads(
                *old(self),
                *final(self),
                res,
                decode_u16(old(self).remaining(), old(self).is_big_endian()),
            ),
    {
        proof {
            lemma_pow256_values();
        }
        match self.take_number(2) {
            Ok(v) => Ok(v as u16),
            Err(e) => Err(e),
        }
    }

    /// Reads a `u32` in the configured byte order.
    pub fn deserialize_u32(&mut self) -> (res: Result<u32, BinaryError>)
        ensures
            Self::reads(
                *old(self),
                *final(self),
                res,
                decode_u32(old(self).remaining(), old(self).is_big_endian()),
            ),
    {
        self.next_u32()
    }

    /// Reads a `u64` in the configured byte order.
    pub fn deserialize_u64(&mut self) -> (res: Result<u64, BinaryError>)
        ensures
            Self::reads(
                *old(self),
                *final(self),
                res,
                decode_u64(old(self).remaining(), old(self).is_big_endian()),
            ),
    {
        proof {
            lemma_pow256_values();
        }
        match self.take_number(8) {
            Ok(v) => Ok(v as u64),
            Err(e) => Err(e),
        }
    }

    /// Reads a `u128` in the configured byte order.
    pub fn deserialize_u128(&mut self) -> (res: Result<u128, BinaryError>)
        ensures
            Self::reads(
                *old(self),
                *final(self),
                res,
                decode_u128(old(self).remaining(), old(self).is_big_endian()),
            ),
    {
        proof {
            lemma_pow256_values();
        }
        self.take_number(16)
    }

    /// Reads an `i16` in the configured byte order.
    pub fn deserialize_i16(&mut self) -> (res: Result<i16, BinaryError>)
        ensures
            Self::reads(
                *old(self),
                *final(self),
                res,
                decode_i16(old(self).remaining(), old(self).is_big_endian()),
            ),
    {
        match self.deserialize_u16() {
            Ok(v) => Ok(v as i16),
            Err(e) => Err(e),
        }
    }

    /// Reads an `i32` in the configured byte order.
    pub fn deserialize_i32(&mut self) -> (res: Result<i32, BinaryError>)
        ensures
            Self::reads(
                *old(self),
                *final(self),
                res,
                decode_i32(old(self).remaining(), old(self).is_big_endian()),
            ),
    {
        match self.deserialize_u32() {
            Ok(v) => Ok(v as i32),
            Err(e) => Err(e),
        }
    }

    /// Reads an `i64` in the configured byte order.
    pub fn deserialize_i64(&mut self) -> (res: Result<i64, BinaryError>)
        ensures
            Self::reads(
                *old(self),
                *final(self),
                res,
                decode_i64(old(self).remaining(), old(self).is_big_endian()),
            ),
    {
        match self.deserialize_u64() {
            Ok(v) => Ok(v as i64),
            Err(e) => Err(e),
        }
    }

    /// Reads an `i128` in the configured byte order.
    pub fn deserialize_i128(&mut self) -> (res: Result<i128, BinaryError>)
        ensures
            Self::reads(
                *old(self),
                *final(self),
                res,
                decode_i128(old(self).remaining(), old(self).is_big_endian()),
            ),
    {
        match self.deserialize_u128() {
            Ok(v) => Ok(v as i128),
            Err(e) => Err(e),
        }
    }

    /// Reads one character. The first byte tells how long the character is;
    /// a byte that cannot start a character, or bytes that are not the UTF-8
    /// form of one scalar, are invalid.
    pub fn deserialize_char(&mut self) -> (res: Result<char, BinaryError>)
        ensures
            Self::reads(*old(self), *final(self), res, decode_char(old(self).remaining())),
    {
        let first = match self.peek() {
            Ok(b) => b,
            Err(e) => { return Err(e); },
        };
        let n: usize = if first <= 0x7F {
            1
        } else if first < 0xC0 {
            return Err(BinaryError::InvalidBytes);
        } else if first <= 0xDF {
            2
        } else if first <= 0xEF {
            3
        } else {
            4
        };
        let bytes = match self.take(n) {
            Ok(v) => v,
            Err(e) => { return Err(e); },
        };
        let ghost frame = bytes@;
        match string_from_utf8(bytes) {
            Some(s) => {
                proof {
                    lemma_decoded_nonempty(frame);
                }
                Ok(s.as_str().get_char(0))
            },
            None => Err(BinaryError::InvalidBytes),
        }
    }

    /// Reads a string.
    pub fn deserialize_str(&mut self) -> (res: Result<String, BinaryError>)
        ensures
            final(self).is_big_endian() == old(self).is_big_endian(),
            match decode_str(old(self).remaining()) {
                Ok((text, n)) => res is Ok && res->Ok_0@ == text && Self::advanced(
                    *old(self),
                    *final(self),
                    n,
                ),
                Err(e) => res is Err && res->Err_0 == e,
            },
    {
        self.take_string()
    }

    /// Reads a string.
    pub fn deserialize_string(&mut self) -> (res: Result<String, BinaryError>)
        ensures
            final(self).is_big_endian() == old(self).is_big_endian(),
            match decode_str(old(self).remaining()) {
                Ok((text, n)) => res is Ok && res->Ok_0@ == text && Self::advanced(
                    *old(self),
                    *final(self),
                    n,
                ),
                Err(e) => res is Err && res->Err_0 == e,
            },
    {
        self.take_string()
    }

    /// Reads an identifier: a string.
    pub fn deserialize_identifier(&mut self) -> (res: Result<String, BinaryError>)
        ensures
            final(self).is_big_endian() == old(self).is_big_endian(),
            match decode_str(old(self).remaining()) {
                Ok((text, n)) => res is Ok && res->Ok_0@ == text && Self::advanced(
                    *old(self),
                    *final(self),
                    n,
                ),
                Err(e) => res is Err && res->Err_0 == e,
            },
    {
        self.take_string()
    }

    /// Reads a byte buffer.
    pub fn deserialize_bytes(&mut self) -> (res: Result<Vec<u8>, BinaryError>)
        ensures
            final(self).is_big_endian() == old(self).is_big_endian(),
            match decode_bytes(old(self).remaining()) {
                Ok((b, n)) => res is Ok && res->Ok_0@ == b && Self::advanced(
                    *old(self),
                    *final(self),
                    n,
                ),
                Err(e) => res is Err && res->Err_0 == e,
            },
    {
        self.take_bytes()
    }

    /// Reads a byte buffer.
    pub fn deserialize_byte_buf(&mut self) -> (res: Result<Vec<u8>, BinaryError>)
        ensures
            final(self).is_big_endian() == old(self).is_big_endian(),
            match decode_bytes(old(self).remaining()) {
                Ok((b, n)) => res is Ok && res->Ok_0@ == b && Self::advanced(
                    *old(self),
                    *final(self),
                    n,
                ),
                Err(e) => res is Err && res->Err_0 == e,
            },
    {
        self.take_bytes()
    }

    /// Reads an optional frame: `true` when a value follows, `false` when it
    /// is absent. Any byte but the two flags is rejected.
    pub fn deserialize_option(&mut self) -> (res: Result<bool, BinaryError>)
        ensures
            Self::reads(*old(self), *final(self), res, decode_option(old(self).remaining())),
    {
        let flag = match self.next() {
            Ok(b) => b,
            Err(e) => { return Err(e); },
        };
        if flag == NONE {
            Ok(false)
        } else if flag == SOME {
            Ok(true)
        } else {
            Err(BinaryError::MissingOrInvalidFlag { actual: flag, expected: SOME })
        }
    }

    /// A unit takes no bytes.
    pub fn deserialize_unit(&mut self) -> (res: Result<(), BinaryError>)
        ensures
            res is Ok,
            *final(self) == *old(self),
    {
        Ok(())
    }

    /// A unit struct takes no bytes.
    pub fn deserialize_unit_struct(&mut self, _name: &str) -> (res: Result<(), BinaryError>)
        ensures
            res is Ok,
            *final(self) == *old(self),
    {
        Ok(())
    }

    /// A newtype struct is framed as its inner value alone.
    pub fn deserialize_newtype_struct(&mut self, _name: &str) -> (res: Result<(), BinaryError>)
        ensures
            res is Ok,
            *final(self) == *old(self),
    {
        Ok(())
    }

    /// Reads the number of elements of a sequence.
    pub fn deserialize_seq(&mut self) -> (res: Result<usize, BinaryError>)
        ensures
            Self::reads(*old(self), *final(self), res, decode_count(old(self).remaining())),
    {
        self.next_usize()
    }

    /// Reads the number of elements of a tuple.
    pub fn deserialize_tuple(&mut self, _len: usize) -> (res: Result<usize, BinaryError>)
        ensures
            Self::reads(*old(self), *final(self), res, decode_count(old(self).remaining())),
    {
        self.next_usize()
    }

    /// Reads the number of fields of a tuple struct.
    pub fn deserialize_tuple_struct(&mut self, _name: &str, _len: usize) -> (res: Result<
        usize,
        BinaryError,
    >)
        ensures
            Self::reads(*old(self), *final(self), res, decode_count(old(self).remaining())),
    {
        self.next_usize()
    }

    /// Reads the number of entries of a map.
    pub fn deserialize_map(&mut self) -> (res: Result<usize, BinaryError>)
        ensures
            Self::reads(*old(self), *final(self), res, decode_count(old(self).remaining())),
    {
        self.next_usize()
    }

    /// Reads a struct header and checks it against the expected name; gives
    /// the number of fields.
    pub fn deserialize_struct(&mut self, name: &str) -> (res: Result<usize, BinaryError>)
        ensures
            final(self).is_big_endian() == old(self).is_big_endian(),
            match decode_struct(old(self).remaining(), name@) {
                StructHeader::Fields(len, n) => res == Ok::<usize, BinaryError>(len)
                    && Self::advanced(*old(self), *final(self), n),
                StructHeader::WrongName(found) => res matches Err(
                    BinaryError::InvalidName { actual, expected },
                ) && actual@ == found && expected@ == name@,
                StructHeader::Broken(e) => res == Err::<usize, BinaryError>(e),
            },
    {
        let flag = match self.next() {
            Ok(b) => b,
            Err(e) => { return Err(e); },
        };
        if flag != STRUCT {
            return Err(BinaryError::MissingOrInvalidFlag { actual: flag, expected: STRUCT });
        }
        let found = match self.take_string() {
            Ok(v) => v,
            Err(e) => { return Err(e); },
        };
        let wanted = String::from_str(name);
        if found != wanted {
            return Err(BinaryError::InvalidName { actual: found, expected: wanted });
        }
        let ghost s = old(self).remaining();
        let ghost n = decode_str(s.skip(1))->Ok_0.1;
        proof {
            assert(self.remaining() =~= s.skip(1 + n as int));
        }
        let r = self.next_usize();
        proof {
            if r is Ok {
                let m = decode_count(s.skip(1 + n as int))->Ok_0.1;
                assert(self.remaining() =~= s.skip((1 + n + m) as int));
            }
        }
        r
    }

    /// Reads an enumeration header; for a struct variant the name it carries
    /// is checked against `name`. Gives the variant's kind and index.
    pub fn deserialize_enum(&mut self, name: &str) -> (res: Result<(VariantKind, u32), BinaryError>)
        ensures
            final(self).is_big_endian() == old(self).is_big_endian(),
            match decode_enum(old(self).remaining(), name@, old(self).is_big_endian()) {
                EnumHeader::Variant(kind, index, n) => res == Ok::<(VariantKind, u32), BinaryError>(
                    (kind, index),
                ) && Self::advanced(*old(self), *final(self), n),
                EnumHeader::WrongName(found) => res matches Err(
                    BinaryError::InvalidName { actual, expected },
                ) && actual@ == found && expected@ == name@,
                EnumHeader::Broken(e) => res == Err::<(VariantKind, u32), BinaryError>(e),
            },
    {
        let ghost s = old(self).remaining();
        let flag = match self.peek() {
            Ok(b) => b,
            Err(e) => { return Err(e); },
        };
        if flag == UNIT_VARIANT {
            let _ = self.next();
            let r = self.next_u32();
            proof {
                if r is Ok {
                    assert(self.remaining() =~= s.skip(5));
                }
            }
            match r {
                Ok(index) => Ok((VariantKind::Unit, index)),
                Err(e) => Err(e),
            }
        } else if flag == STRUCT_VARIANT {
            let _ = self.next();
            let found = match self.take_string() {
                Ok(v) => v,
                Err(e) => { return Err(e); },
            };
            let wanted = String::from_str(name);
            if found != wanted {
                return Err(BinaryError::InvalidName { actual: found, expected: wanted });
            }
            let ghost n = decode_str(s.skip(1))->Ok_0.1;
            proof {
                assert(self.remaining() =~= s.skip(1 + n as int));
            }
            let r = self.next_u32();
            proof {
                if r is Ok {
                    assert(self.remaining() =~= s.skip((1 + n + 4) as int));
                }
            }
            match r {
                Ok(index) => Ok((VariantKind::Struct, index)),
                Err(e) => Err(e),
            }
        } else {
            match self.next_u32() {
                Ok(index) => Ok((VariantKind::NonUnit, index)),
                Err(e) => Err(e),
            }
        }
    }
}

/// Well-formed UTF-8 that is not empty decodes to at least one character.
pub proof fn lemma_decoded_nonempty(bytes: Seq<u8>)
    requires
        valid_utf8(bytes),
        bytes.len() > 0,
    ensures
        decode_utf8(bytes).len() >= 1,
{
}

/// The position inside a composite shape of `len` elements.
pub struct BinarySeries {
    len: usize,
    position: usize,
}

impl BinarySeries {
    /// The announced number of elements.
    pub closed spec fn announced(&self) -> usize {
        self.len
    }

    /// The number of requests made so far, saturating at the largest `usize`.
    pub closed spec fn requests(&self) -> usize {
        self.position
    }

    /// Starts a series of `len` elements.
    pub fn new(len: usize) -> (res: Self)
        ensures
            res.announced() == len,
            res.requests() == 0,
    {
        Self { len, position: 0 }
    }

    /// The announced number of elements.
    pub fn len(&self) -> (res: usize)
        ensures
            res == self.announced(),
    {
        self.len
    }

    /// Asks for the next element. The first `len` requests answer `true`: an
    /// element follows. The request after them answers `false`: the series has
    /// ended. Any later request is a defect and fails with `InvalidLength`,
    /// whose `actual` is the number of the request.
    pub fn next_element(&mut self) -> (res: Result<bool, BinaryError>)
        ensures
            final(self).announced() == old(self).announced(),
            final(self).requests() == if old(self).requests() < usize::MAX {
                (old(self).requests() + 1) as usize
            } else {
                usize::MAX
            },
            final(self).requests() <= old(self).announced() ==> res == Ok::<bool, BinaryError>(
                true,
            ),
            final(self).requests() == old(self).announced() + 1 ==> res == Ok::<
                bool,
                BinaryError,
            >(false),
            final(self).requests() > old(self).announced() + 1 ==> res == Err::<bool, BinaryError>(
                BinaryError::InvalidLength {
                    actual: final(self).requests(),
                    expected: old(self).announced(),
                },
            ),
    {
        if self.position < usize::MAX {
            self.position = self.position + 1;
        }
        if self.position <= self.len {
            Ok(true)
        } else if self.position - 1 == self.len {
            Ok(false)
        } else {
            Err(BinaryError::InvalidLength { actual: self.position, expected: self.len })
        }
    }
}

} // verus!
