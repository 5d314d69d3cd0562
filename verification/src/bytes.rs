//! A read cursor over a byte vector for fixed-width numbers in a byte order
//! chosen at each read.

use vstd::prelude::*;
use vstd::slice::slice_subrange;
use vstd::slice::slice_to_vec;
use crate::binaryerror::BinaryError;
use crate::common::{lemma_pow256_values, pow256};
use crate::endian::{number_from_bytes, ordered_value};
use crate::options::Endianness;

verus! {

/// `u16::from_ne_bytes` on the bytes zero and one: 1 where the machine puts
/// the most significant byte first, 256 where it puts it last.
#[verifier::external_body]
fn native_probe() -> (res: u16)
    ensures
        res == 1 || res == 256,
{
    u16::from_ne_bytes([0, 1])
}

/// True when `value` is what `bytes` stands for under `endianness`; under the
/// machine's own order either reading is admitted.
pub open spec fn reads_as(bytes: Seq<u8>, endianness: Endianness, value: nat) -> bool {
    match endianness {
        Endianness::Big => value == ordered_value(bytes, true),
        Endianness::Little => value == ordered_value(bytes, false),
        Endianness::Native => value == ordered_value(bytes, true) || value == ordered_value(
            bytes,
            false,
        ),
    }
}

/// A byte vector with a read position.
pub struct Raw {
    data: Vec<u8>,
    offset: usize,
}

impl Raw {
    /// The bytes that have not been read yet.
    pub closed spec fn remaining(&self) -> Seq<u8> {
        if self.offset <= self.data@.len() {
            self.data@.subrange(self.offset as int, self.data@.len() as int)
        } else {
            Seq::<u8>::empty()
        }
    }

    /// True when `post` is `pre` advanced by `n` bytes.
    pub open spec fn advanced(pre: Raw, post: Raw, n: nat) -> bool {
        &&& n <= pre.remaining().len()
        &&& post.remaining() == pre.remaining().skip(n as int)
    }

    /// A cursor over nothing.
    pub fn new() -> (res: Self)
        ensures
            res.remaining() == Seq::<u8>::empty(),
    {
        let res = Self { data: Vec::new(), offset: 0 };
        proof {
            assert(res.remaining() =~= Seq::<u8>::empty());
        }
        res
    }

    /// A cursor at the start of a copy of `input`.
    pub fn from(input: &Vec<u8>) -> (res: Self)
        ensures
            res.remaining() == input@,
    {
        let data = slice_to_vec(input.as_slice());
        proof {
            assert(data@.subrange(0, data@.len() as int) =~= data@);
        }
        Self { data, offset: 0 }
    }

    fn left(&self) -> (res: usize)
        ensures
            res == self.remaining().len(),
            self.offset <= self.data@.len() ==> res == self.data@.len() - self.offset,
            self.offset > self.data@.len() ==> res == 0,
            self.data@.len() <= usize::MAX,
    {
        if self.offset <= self.data.len() {
            self.data.len() - self.offset
        } else {
            0
        }
    }

    /// Looks at the next byte without consuming it.
    pub fn peek(&self) -> (res: Result<u8, BinaryError>)
        ensures
            self.remaining().len() == 0 ==> res == Err::<u8, BinaryError>(
                BinaryError::UnexpectedEndOfInput,
            ),
            self.remaining().len() > 0 ==> res == Ok::<u8, BinaryError>(self.remaining()[0]),
    {
        if self.left() == 0 {
            Err(BinaryError::UnexpectedEndOfInput)
        } else {
            Ok(self.data[self.offset])
        }
    }

    /// Consumes one byte.
    pub fn next(&mut self) -> (res: Result<u8, BinaryError>)
        ensures
            old(self).remaining().len() == 0 ==> *final(self) == *old(self) && res == Err::<
                u8,
                BinaryError,
            >(BinaryError::UnexpectedEndOfInput),
            old(self).remaining().len() > 0 ==> res == Ok::<u8, BinaryError>(
                old(self).remaining()[0],
            ) && Self::advanced(*old(self), *final(self), 1),
    {
        if self.left() == 0 {
            Err(BinaryError::UnexpectedEndOfInput)
        } else {
            let b = self.data[self.offset];
            self.offset = self.offset + 1;
            proof {
                assert(self.remaining() =~= old(self).remaining().skip(1));
            }
            Ok(b)
        }
    }

    /// Consumes `n` bytes, or fails without them when fewer are left.
    pub fn take(&mut self, n: usize) -> (res: Result<Vec<u8>, BinaryError>)
        ensures
            old(self).remaining().len() < n ==> *final(self) == *old(self) && res is Err
                && res->Err_0 == BinaryError::UnexpectedEndOfInput,
            old(self).remaining().len() >= n ==> res is Ok && res->Ok_0@ == old(
                self,
            ).remaining().subrange(0, n as int) && Self::advanced(*old(self), *final(self), n as nat),
    {
        if self.left() < n {
            Err(BinaryError::UnexpectedEndOfInput)
        } else if self.offset > self.data.len() {
            let out: Vec<u8> = Vec::new();
            proof {
                assert(self.remaining().skip(0) =~= self.remaining());
                assert(out@ =~= self.remaining().subrange(0, 0));
            }
            Ok(out)
        } else {
            let out = slice_to_vec(
                slice_subrange(self.data.as_slice(), self.offset, self.offset + n),
            );
            self.offset = self.offset + n;
            proof {
                assert(self.remaining() =~= old(self).remaining().skip(n as int));
                assert(out@ =~= old(self).remaining().subrange(0, n as int));
            }
            Ok(out)
        }
    }

    /// Consumes one byte.
    pub fn take_u8(&mut self) -> (res: Result<u8, BinaryError>)
        ensures
            old(self).remaining().len() == 0 ==> *final(self) == *old(self) && res == Err::<
                u8,
                BinaryError,
            >(BinaryError::UnexpectedEndOfInput),
            old(self).remaining().len() > 0 ==> res == Ok::<u8, BinaryError>(
                old(self).remaining()[0],
            ) && Self::advanced(*old(self), *final(self), 1),
    {
        self.next()
    }

    /// Consumes `width` bytes and reads them as a number under `endianness`.
    fn take_number(&mut self, width: usize, endianness: &Endianness) -> (res: Result<
        u128,
        BinaryError,
    >)
        requires
            width <= 16,
        ensures
            old(self).remaining().len() < width ==> *final(self) == *old(self) && res == Err::<
                u128,
                BinaryError,
            >(BinaryError::UnexpectedEndOfInput),
            old(self).remaining().len() >= width ==> res is Ok && res->Ok_0 < pow256(width as nat)
                && reads_as(
                old(self).remaining().subrange(0, width as int),
                *endianness,
                res->Ok_0 as nat,
            ) && Self::advanced(*old(self), *final(self), width as nat),
    {
        match self.take(width) {
            Ok(bytes) => {
                let big: bool = match endianness {
                    Endianness::Big => true,
                    Endianness::Little => false,
                    Endianness::Native => native_probe() == 1,
                };
                Ok(number_from_bytes(bytes.as_slice(), big))
            },
            Err(e) => Err(e),
        }
    }

    /// Consumes a 16-bit number.
    pub fn take_u16(&mut self, endianness: &Endianness) -> (res: Result<u16, BinaryError>)
        ensures
            old(self).remaining().len() < 2 ==> *final(self) == *old(self) && res == Err::<
                u16,
                BinaryError,
            >(BinaryError::UnexpectedEndOfInput),
            old(self).remaining().len() >= 2 ==> res is Ok && reads_as(
                old(self).remaining().subrange(0, 2),
                *endianness,
                res->Ok_0 as nat,
            ) && Self::advanced(*old(self), *final(self), 2),
    {
        proof {
            lemma_pow256_values();
        }
        match self.take_number(2, endianness) {
            Ok(v) => Ok(v as u16),
            Err(e) => Err(e),
        }
    }

    /// Consumes a 32-bit number.
    pub fn take_u32(&mut self, endianness: &Endianness) -> (res: Result<u32, BinaryError>)
        ensures
            old(self).remaining().len() < 4 ==> *final(self) == *old(self) && res == Err::<
                u32,
                BinaryError,
            >(BinaryError::UnexpectedEndOfInput),
            old(self).remaining().len() >= 4 ==> res is Ok && reads_as(
                old(self).remaining().subrange(0, 4),
                *endianness,
                res->Ok_0 as nat,
            ) && Self::advanced(*old(self), *final(self), 4),
    {
        proof {
            lemma_pow256_values();
        }
        match self.take_number(4, endianness) {
            Ok(v) => Ok(v as u32),
            Err(e) => Err(e),
        }
    }

    /// Consumes a 64-bit number.
    pub fn take_u64(&mut self, endianness: &Endianness) -> (res: Result<u64, BinaryError>)
        ensures
            old(self).remaining().len() < 8 ==> *final(self) == *old(self) && res == Err::<
                u64,
                BinaryError,
            >(BinaryError::UnexpectedEndOfInput),
            old(self).remaining().len() >= 8 ==> res is Ok && reads_as(
                old(self).remaining().subrange(0, 8),
                *endianness,
                res->Ok_0 as nat,
            ) && Self::advanced(*old(self), *final(self), 8),
    {
        proof {
            lemma_pow256_values();
        }
        match self.take_number(8, endianness) {
            Ok(v) => Ok(v as u64),
            Err(e) => Err(e),
        }
    }

    /// Consumes a 128-bit number.
    pub fn take_u128(&mut self, endianness: &Endianness) -> (res: Result<u128, BinaryError>)
        ensures
            old(self).remaining().len() < 16 ==> *final(self) == *old(self) && res == Err::<
                u128,
                BinaryError,
            >(BinaryError::UnexpectedEndOfInput),
            old(self).remaining().len() >= 16 ==> res is Ok && reads_as(
                old(self).remaining().subrange(0, 16),
                *endianness,
                res->Ok_0 as nat,
            ) && Self::advanced(*old(self), *final(self), 16),
    {
        self.take_number(16, endianness)
    }

    /// Consumes a number as wide as a machine word.
    pub fn take_usize(&mut self, endianness: &Endianness) -> (res: Result<usize, BinaryError>)
        ensures
            old(self).remaining().len() < vstd::layout::size_of::<usize>() ==> *final(self) == *old(
                self,
            ) && res == Err::<usize, BinaryError>(BinaryError::UnexpectedEndOfInput),
            old(self).remaining().len() >= vstd::layout::size_of::<usize>() ==> res is Ok
                && reads_as(
                old(self).remaining().subrange(0, vstd::layout::size_of::<usize>() as int),
                *endianness,
                res->Ok_0 as nat,
            ) && Self::advanced(*old(self), *final(self), vstd::layout::size_of::<usize>()),
    {
        broadcast use vstd::layout::layout_of_primitives;

        let width: usize = core::mem::size_of::<usize>();
        proof {
            lemma_pow256_values();
            assert(width == 4 || width == 8);
            assert(width == 8 ==> usize::MAX == 0xFFFF_FFFF_FFFF_FFFF);
        }
        match self.take_number(width, endianness) {
            Ok(v) => Ok(v as usize),
            Err(e) => Err(e),
        }
    }
}

} // verus!
