//! Discriminator bytes and the variable-length count codec.
//!
//! A count below 128 is a single byte. Larger counts use a first byte with the
//! high bit set and seven payload bits, a second byte with five payload bits
//! and a three-bit tail length, and then up to seven tail bytes holding the
//! remaining bits, least significant byte first.

use vstd::prelude::*;
use vstd::slice::slice_subrange;
use crate::binaryerror::BinaryError;
use crate::endian::number_from_bytes;

verus! {

/// Optional frame: the value is absent.
pub const NONE: u8 = 0x00;

/// Optional frame: the value is present and follows.
pub const SOME: u8 = 0xFF;

/// Marks a unit variant; the variant index follows.
pub const UNIT_VARIANT: u8 = 0xFE;

/// Marks a struct; the struct's name follows.
pub const STRUCT: u8 = 0xFD;

/// Marks a newtype or tuple variant; the variant index follows.
pub const NONUNIT_VARIANT: u8 = 0xFD;

/// Marks a struct variant; the name follows.
pub const STRUCT_VARIANT: u8 = 0xFC;

/// One more than the largest count the three-bit tail length can express: `2^68`.
pub const COUNT_LIMIT: u128 = 0x10_0000_0000_0000_0000;

/// `256^k`.
pub open spec fn pow256(k: nat) -> nat
    decreases k,
{
    if k == 0 {
        1
    } else {
        256 * pow256((k - 1) as nat)
    }
}

/// The shortest little-endian byte string whose value is `v`.
pub open spec fn tail_bytes(v: nat) -> Seq<u8>
    decreases v,
{
    if v == 0 {
        Seq::<u8>::empty()
    } else {
        seq![(v % 256) as u8] + tail_bytes(v / 256)
    }
}

/// The number that a little-endian byte string stands for.
pub open spec fn tail_value(s: Seq<u8>) -> nat
    decreases s.len(),
{
    if s.len() == 0 {
        0
    } else {
        s[0] as nat + 256 * tail_value(s.drop_first())
    }
}

/// The wire form of the count `n`.
pub open spec fn count_bytes(n: nat) -> Seq<u8> {
    if n <= 0x7F {
        seq![n as u8]
    } else {
        let tail = tail_bytes(n / 4096);
        seq![(128 + n % 128) as u8, (32 * tail.len() + (n / 128) % 32) as u8] + tail
    }
}

/// The number of bytes that the count frame starting at `s[0]` occupies, when
/// `s` holds enough bytes to tell.
pub open spec fn count_frame_len(s: Seq<u8>) -> Option<nat> {
    if s.len() == 0 {
        None
    } else if s[0] < 128 {
        Some(1)
    } else if s.len() < 2 {
        None
    } else {
        Some((2 + s[1] / 32) as nat)
    }
}

/// True when `s` starts with a complete count frame.
pub open spec fn count_frame_complete(s: Seq<u8>) -> bool {
    match count_frame_len(s) {
        Some(n) => n <= s.len(),
        None => false,
    }
}

/// The count that the frame at the start of `s` stands for.
pub open spec fn count_value(s: Seq<u8>) -> nat
    recommends
        count_frame_complete(s),
{
    if s[0] < 128 {
        s[0] as nat
    } else {
        (s[0] % 128) as nat + 128 * ((s[1] % 32) as nat) + 4096 * tail_value(
            s.subrange(2, 2 + (s[1] / 32) as int),
        )
    }
}

/// A number below `256^k` has at most `k` tail bytes.
pub proof fn lemma_tail_bytes_len(v: nat, k: nat)
    requires
        v < pow256(k),
    ensures
        tail_bytes(v).len() <= k,
    decreases k,
{
    if v != 0 {
        assert(k > 0);
        lemma_tail_bytes_len(v / 256, (k - 1) as nat);
    }
}

/// The tail bytes of a number stand for that number.
pub proof fn lemma_tail_round_trip(v: nat)
    ensures
        tail_value(tail_bytes(v)) == v,
    decreases v,
{
    if v != 0 {
        let s = tail_bytes(v);
        lemma_tail_round_trip(v / 256);
        assert(s.drop_first() =~= tail_bytes(v / 256));
        assert(s[0] == (v % 256) as u8);
    }
}

/// What `s.len()` tail bytes stand for is below `256^s.len()`.
pub proof fn lemma_tail_value_bound(s: Seq<u8>)
    ensures
        tail_value(s) < pow256(s.len()),
    decreases s.len(),
{
    if s.len() != 0 {
        lemma_tail_value_bound(s.drop_first());
    }
}

/// The powers of 256 that the fixed widths and the count codec use.
pub proof fn lemma_pow256_values()
    ensures
        pow256(0) == 1,
        pow256(1) == 0x100,
        pow256(2) == 0x1_0000,
        pow256(4) == 0x1_0000_0000,
        pow256(7) == 0x100_0000_0000_0000,
        pow256(8) == 0x1_0000_0000_0000_0000,
        pow256(16) == 0x1_0000_0000_0000_0000_0000_0000_0000_0000,
{
    reveal_with_fuel(pow256, 17);
}

/// The powers of 256 are positive and grow with the exponent.
pub proof fn lemma_pow256_monotonic(a: nat, b: nat)
    requires
        a <= b,
    ensures
        pow256(a) <= pow256(b),
        pow256(a) >= 1,
    decreases b,
{
    if a < b {
        lemma_pow256_monotonic(a, (b - 1) as nat);
    } else if a > 0 {
        lemma_pow256_monotonic((a - 1) as nat, (a - 1) as nat);
    }
}

/// Every count below `2^68` survives encoding and decoding, its frame is
/// complete and exactly as long as its own header announces, and the frame is
/// a single byte exactly for the counts up to 127.
pub proof fn lemma_count_round_trip(n: nat)
    requires
        n < COUNT_LIMIT,
    ensures
        count_frame_len(count_bytes(n)) == Some(count_bytes(n).len()),
        count_frame_complete(count_bytes(n)),
        count_value(count_bytes(n)) == n,
        count_bytes(n).len() == 1 <==> n <= 127,
        1 <= count_bytes(n).len() <= 9,
{
    if n > 0x7F {
        let m = n / 4096;
        let tail = tail_bytes(m);
        let s = count_bytes(n);
        lemma_pow256_values();
        lemma_tail_bytes_len(m, 7);
        lemma_tail_round_trip(m);
        let k = tail.len();
        let low = (n / 128) % 32;
        assert(s[1] == (32 * k + low) as u8);
        assert(s[1] / 32 == k && s[1] % 32 == low) by {
            assert(32 * k + low < 256);
        }
        assert(s.subrange(2, 2 + k as int) =~= tail);
        assert(n == n % 128 + 128 * ((n / 128) % 32) + 4096 * (n / 4096));
    }
}

/// A count frame that lost its last byte is no longer complete.
pub proof fn lemma_count_truncated(n: nat)
    requires
        n < COUNT_LIMIT,
    ensures
        !count_frame_complete(count_bytes(n).drop_last()),
{
    lemma_count_round_trip(n);
    let s = count_bytes(n);
    let t = s.drop_last();
    if t.len() >= 2 {
        assert(t[0] == s[0] && t[1] == s[1]);
    } else if t.len() == 1 {
        assert(t[0] == s[0]);
    }
}

/// Writes the minimal little-endian bytes of `v`.
fn tail_vec(v: u128) -> (res: Vec<u8>)
    ensures
        res@ == tail_bytes(v as nat),
{
    let mut res: Vec<u8> = Vec::new();
    let mut rest: u128 = v;
    while rest > 0
        invariant
            res@ + tail_bytes(rest as nat) == tail_bytes(v as nat),
        decreases rest,
    {
        let ghost before = res@;
        res.push((rest % 256) as u8);
        proof {
            assert(res@ + tail_bytes((rest / 256) as nat) =~= before + tail_bytes(rest as nat));
        }
        rest = rest / 256;
    }
    proof {
        assert(res@ + tail_bytes(0) =~= res@);
    }
    res
}

/// Encodes a count below `2^68` in the variable-length scheme.
pub fn compress(value: u128) -> (res: Vec<u8>)
    requires
        value < COUNT_LIMIT,
    ensures
        res@ == count_bytes(value as nat),
{
    let mut res: Vec<u8> = Vec::new();
    if value <= 0x7F {
        res.push(value as u8);
        return res;
    }
    let mut tail = tail_vec(value / 4096);
    proof {
        lemma_pow256_values();
        lemma_tail_bytes_len((value / 4096) as nat, 7);
    }
    let k: u8 = tail.len() as u8;
    res.push((128 + value % 128) as u8);
    res.push(32 * k + ((value / 128) % 32) as u8);
    res.append(&mut tail);
    proof {
        assert(res@ =~= count_bytes(value as nat));
    }
    res
}

/// Encodes a `usize` count in the variable-length scheme.
pub fn compress_usize(value: usize) -> (res: Vec<u8>)
    ensures
        res@ == count_bytes(value as nat),
{
    compress(value as u128)
}

/// Decodes the count frame at the start of `bytes`.
///
/// Fails with `InvalidLength` when `bytes` is empty, or (`actual` being the
/// number of bytes given and `expected` the length that the frame announces)
/// when the frame is cut short.
pub fn decompress(bytes: &[u8]) -> (res: Result<u128, BinaryError>)
    ensures
        count_frame_complete(bytes@) ==> res == Ok::<u128, BinaryError>(
            count_value(bytes@) as u128,
        ),
        count_frame_complete(bytes@) ==> count_value(bytes@) < COUNT_LIMIT,
        bytes@.len() == 0 ==> res == Err::<u128, BinaryError>(
            BinaryError::InvalidLength {
                actual: 0,
                expected: vstd::layout::size_of::<usize>() as usize,
            },
        ),
        bytes@.len() > 0 && !count_frame_complete(bytes@) ==> res == Err::<u128, BinaryError>(
            BinaryError::InvalidLength {
                actual: bytes@.len() as usize,
                expected: if bytes@.len() < 2 {
                    2usize
                } else {
                    (2 + bytes@[1] / 32) as usize
                },
            },
        ),
{
    if bytes.len() == 0 {
        return Err(BinaryError::InvalidLength { actual: 0, expected: core::mem::size_of::<usize>() });
    }
    let first: u8 = bytes[0];
    if first < 128 {
        return Ok(first as u128);
    }
    if bytes.len() < 2 {
        return Err(BinaryError::InvalidLength { actual: bytes.len(), expected: 2 });
    }
    let second: u8 = bytes[1];
    let k: usize = (second / 32) as usize;
    if bytes.len() < k + 2 {
        return Err(BinaryError::InvalidLength { actual: bytes.len(), expected: k + 2 });
    }
    let tail: u128 = number_from_bytes(slice_subrange(bytes, 2, 2 + k), false);
    proof {
        lemma_pow256_values();
        lemma_tail_value_bound(bytes@.subrange(2, 2 + k as int));
        lemma_pow256_monotonic(k as nat, 7);
    }
    Ok((first % 128) as u128 + 128 * ((second % 32) as u128) + 4096 * tail)
}

/// Decodes the count frame at the start of `bytes` into a `usize`, keeping the
/// low bits where the count is wider than the machine word.
///
/// Fails with `InvalidLength` when the frame is empty or cut short; `actual`
/// is the number of bytes given and `expected` the width of a machine word.
pub fn decompress_usize(bytes: &[u8]) -> (res: Result<usize, BinaryError>)
    ensures
        count_frame_complete(bytes@) ==> res == Ok::<usize, BinaryError>(
            (count_value(bytes@) % (usize::MAX as nat + 1)) as usize,
        ),
        !count_frame_complete(bytes@) ==> res == Err::<usize, BinaryError>(
            BinaryError::InvalidLength {
                actual: bytes@.len() as usize,
                expected: vstd::layout::size_of::<usize>() as usize,
            },
        ),
{
    let word: usize = core::mem::size_of::<usize>();
    match decompress(bytes) {
        Ok(v) => Ok((v % (usize::MAX as u128 + 1)) as usize),
        Err(_) => Err(BinaryError::InvalidLength { actual: bytes.len(), expected: word }),
    }
}

} // verus!
