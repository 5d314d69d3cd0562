//! The streaming decoder. It holds a window of bytes that were read from the
//! source and not decoded yet. Before each shape it says how many more bytes
//! it is missing; the owner of the source reads them and feeds them in; the
//! shape is then decoded from the window with the buffered decoder's
//! operations. Three shapes are framed otherwise than in a buffer and are
//! decoded here: structs, enumerations and identifiers.

use vstd::prelude::*;
use crate::binaryerror::BinaryError;
use crate::common::{NONUNIT_VARIANT, STRUCT_VARIANT, UNIT_VARIANT};
use crate::de::{char_frame_len, decode_bytes, decode_count, decode_u32, VariantKind};

verus! {

/// How many bytes a count frame that starts with `window` is still missing
/// before the next decision can be made: nothing when the frame is complete.
pub open spec fn count_missing(window: Seq<u8>) -> nat {
    if window.len() == 0 {
        1
    } else if window[0] < 128 {
        0
    } else if window.len() < 2 {
        1
    } else if window.len() < 2 + window[1] / 32 {
        (2 + window[1] / 32 - window.len()) as nat
    } else {
        0
    }
}

/// How many bytes a byte buffer that starts with `window` is still missing
/// before the next decision can be made: what its count is missing while that
/// is incomplete, then what its content is missing.
pub open spec fn bytes_missing(window: Seq<u8>) -> nat {
    match decode_count(window) {
        Err(_) => count_missing(window),
        Ok((len, n)) => if window.len() - n < len {
            (len - (window.len() - n)) as nat
        } else {
            0
        },
    }
}

/// The enumeration header read from the start of `s`: the marker of the
/// variant's kind and, for a unit variant, its index. Newtype, tuple and
/// struct variants give the index zero here; theirs follows as an identifier.
pub open spec fn decode_enum(s: Seq<u8>, big_endian: bool) -> Result<
    ((VariantKind, u32), nat),
    BinaryError,
> {
    if s.len() < 1 {
        Err(BinaryError::UnexpectedEndOfInput)
    } else if s[0] == NONUNIT_VARIANT {
        Ok(((VariantKind::NonUnit, 0), 1))
    } else if s[0] == STRUCT_VARIANT {
        Ok(((VariantKind::Struct, 0), 1))
    } else if s[0] == UNIT_VARIANT {
        match decode_u32(s.skip(1), big_endian) {
            Ok((index, n)) => Ok(((VariantKind::Unit, index), 1 + n)),
            Err(e) => Err(e),
        }
    } else {
        Err(BinaryError::MissingOrInvalidFlag { actual: s[0], expected: UNIT_VARIANT })
    }
}

/// A decoder that is fed from a source as it asks.
pub struct Deserializer {
    /// The bytes that were read from the source and are not decoded yet.
    pub window: crate::de::Deserializer,
}

impl Deserializer {
    /// Creates a decoder with an empty window.
    pub fn new(big_endian: bool) -> (res: Self)
        ensures
            res.window.remaining() == Seq::<u8>::empty(),
            res.window.is_big_endian() == big_endian,
    {
        let empty: Vec<u8> = Vec::new();
        Deserializer { window: crate::de::Deserializer::new(&empty, big_endian) }
    }

    /// Adds bytes that were read from the source to the window.
    pub fn feed(&mut self, bytes: &[u8])
        ensures
            final(self).window.remaining() == old(self).window.remaining() + bytes@,
            final(self).window.is_big_endian() == old(self).window.is_big_endian(),
    {
        self.window.extend(bytes);
    }

    /// Judges a read from the source: one that brought fewer bytes than were
    /// asked for is an unexpected end of input.
    pub fn check_read(got: usize, wanted: usize) -> (res: Result<(), BinaryError>)
        ensures
            got < wanted ==> res == Err::<(), BinaryError>(BinaryError::UnexpectedEndOfInput),
            got >= wanted ==> res is Ok,
    {
        if got < wanted {
            Err(BinaryError::UnexpectedEndOfInput)
        } else {
            Ok(())
        }
    }

    /// How many bytes the window is missing for a read of `width` bytes.
    pub fn missing_for_fixed(&self, width: usize) -> (res: usize)
        ensures
            res == if self.window.remaining().len() < width {
                width - self.window.remaining().len()
            } else {
                0
            },
    {
        let have = self.window.remaining_len();
        if have < width {
            width - have
        } else {
            0
        }
    }

    /// How many more bytes must be read before the count at the start of the
    /// window can be looked at again; nothing once its frame is complete.
    pub fn missing_for_count(&self) -> (res: usize)
        ensures
            res == count_missing(self.window.remaining()),
            res == 0 <==> decode_count(self.window.remaining()) is Ok,
    {
        let have = self.window.remaining_len();
        match self.window.peek() {
            Err(_) => 1,
            Ok(first) => {
                if first < 128 {
                    0
                } else if have < 2 {
                    1
                } else {
                    let second = match self.window.peek_at(1) {
                        Ok(b) => b,
                        Err(_) => 0,
                    };
                    let frame: usize = 2 + (second / 32) as usize;
                    if have < frame {
                        frame - have
                    } else {
                        0
                    }
                }
            },
        }
    }

    /// How many more bytes must be read before the byte buffer or string at
    /// the start of the window can be looked at again; nothing once it is
    /// complete.
    pub fn missing_for_bytes(&self) -> (res: usize)
        ensures
            res == bytes_missing(self.window.remaining()),
            res == 0 <==> decode_bytes(self.window.remaining()) is Ok,
    {
        match self.window.peek_usize() {
            Err(_) => self.missing_for_count(),
            Ok((len, frame)) => {
                let have = self.window.remaining_len() - frame;
                if have < len {
                    len - have
                } else {
                    0
                }
            },
        }
    }

    /// How many bytes the window is missing for the character that starts
    /// with its first byte; a first byte that cannot start a character is
    /// invalid.
    pub fn missing_for_char(&self) -> (res: Result<usize, BinaryError>)
        ensures
            self.window.remaining().len() == 0 ==> res == Ok::<usize, BinaryError>(1),
            self.window.remaining().len() > 0 ==> match char_frame_len(
                self.window.remaining()[0],
            ) {
                None => res == Err::<usize, BinaryError>(BinaryError::InvalidBytes),
                Some(n) => res == Ok::<usize, BinaryError>(
                    if self.window.remaining().len() < n {
                        (n - self.window.remaining().len()) as usize
                    } else {
                        0usize
                    },
                ),
            },
    {
        let have = self.window.remaining_len();
        match self.window.peek() {
            Err(_) => Ok(1),
            Ok(first) => {
                let n: usize = if first <= 0x7F {
                    1
                } else if first < 0xC0 {
                    return Err(BinaryError::InvalidBytes);
                } else if first <= 0xDF {
                    2
                } else if first <= 0xEF {
                    3
                } else {
                    4
                };
                if have < n {
                    Ok(n - have)
                } else {
                    Ok(0)
                }
            },
        }
    }

    /// Reads a struct header: the number of fields. A streamed struct carries
    /// neither marker nor name, so none is checked.
    pub fn deserialize_struct(&mut self, _name: &str) -> (res: Result<usize, BinaryError>)
        ensures
            crate::de::Deserializer::reads(
                old(self).window,
                final(self).window,
                res,
                decode_count(old(self).window.remaining()),
            ),
    {
        self.window.next_usize()
    }

    /// Reads an enumeration header: the marker of a newtype, tuple or struct
    /// variant, or the marker and index of a unit variant. Any other byte is
    /// a missing or invalid flag.
    pub fn deserialize_enum(&mut self) -> (res: Result<(VariantKind, u32), BinaryError>)
        ensures
            crate::de::Deserializer::reads(
                old(self).window,
                final(self).window,
                res,
                decode_enum(old(self).window.remaining(), old(self).window.is_big_endian()),
            ),
    {
        let ghost s = self.window.remaining();
        let flag = match self.window.next() {
            Ok(b) => b,
            Err(e) => { return Err(e); },
        };
        if flag == NONUNIT_VARIANT {
            Ok((VariantKind::NonUnit, 0))
        } else if flag == STRUCT_VARIANT {
            Ok((VariantKind::Struct, 0))
        } else if flag == UNIT_VARIANT {
            let r = self.window.next_u32();
            proof {
                if r is Ok {
                    assert(self.window.remaining() =~= s.skip(5));
                }
            }
            match r {
                Ok(index) => Ok((VariantKind::Unit, index)),
                Err(e) => Err(e),
            }
        } else {
            Err(BinaryError::MissingOrInvalidFlag { actual: flag, expected: UNIT_VARIANT })
        }
    }

    /// Reads an identifier: a variant's index.
    pub fn deserialize_identifier(&mut self) -> (res: Result<u32, BinaryError>)
        ensures
            crate::de::Deserializer::reads(
                old(self).window,
                final(self).window,
                res,
                decode_u32(old(self).window.remaining(), old(self).window.is_big_endian()),
            ),
    {
        self.window.next_u32()
    }
}

} // verus!
