//! Fixed-width numbers in a chosen byte order.
//!
//! The byte strings are described arithmetically: the little-endian form of a
//! number lists its base-256 digits from the least significant one, the
//! big-endian form lists the same digits from the most significant one.

use vstd::prelude::*;
use crate::common::{pow256, tail_value, lemma_tail_value_bound, lemma_pow256_values, lemma_pow256_monotonic};

verus! {

/// The `width` low base-256 digits of `v`, least significant first.
pub open spec fn le_bytes(v: nat, width: nat) -> Seq<u8>
    decreases width,
{
    if width == 0 {
        Seq::<u8>::empty()
    } else {
        seq![(v % 256) as u8] + le_bytes(v / 256, (width - 1) as nat)
    }
}

/// The `width` low base-256 digits of `v`, most significant first.
pub open spec fn be_bytes(v: nat, width: nat) -> Seq<u8>
    decreases width,
{
    if width == 0 {
        Seq::<u8>::empty()
    } else {
        be_bytes(v / 256, (width - 1) as nat).push((v % 256) as u8)
    }
}

/// The number whose base-256 digits, most significant first, are `s`.
pub open spec fn be_value(s: Seq<u8>) -> nat
    decreases s.len(),
{
    if s.len() == 0 {
        0
    } else {
        256 * be_value(s.drop_last()) + s.last() as nat
    }
}

/// The number whose base-256 digits, least significant first, are `s`.
pub open spec fn le_value(s: Seq<u8>) -> nat {
    tail_value(s)
}

/// `width` bytes of `v` in the configured order.
pub open spec fn ordered_bytes(v: nat, width: nat, big_endian: bool) -> Seq<u8> {
    if big_endian {
        be_bytes(v, width)
    } else {
        le_bytes(v, width)
    }
}

/// The number that `s` stands for in the configured order.
pub open spec fn ordered_value(s: Seq<u8>, big_endian: bool) -> nat {
    if big_endian {
        be_value(s)
    } else {
        le_value(s)
    }
}

/// The little-endian form of `v` is `width` long and stands for `v` where `v` fits.
pub proof fn lemma_le_bytes(v: nat, width: nat)
    ensures
        le_bytes(v, width).len() == width,
        v < pow256(width) ==> le_value(le_bytes(v, width)) == v,
    decreases width,
{
    if width != 0 {
        let s = le_bytes(v, width);
        lemma_le_bytes(v / 256, (width - 1) as nat);
        assert(s.drop_first() =~= le_bytes(v / 256, (width - 1) as nat));
        assert(s[0] == (v % 256) as u8);
    }
}

/// The big-endian form of `v` is `width` long and stands for `v` where `v` fits.
pub proof fn lemma_be_bytes(v: nat, width: nat)
    ensures
        be_bytes(v, width).len() == width,
        v < pow256(width) ==> be_value(be_bytes(v, width)) == v,
    decreases width,
{
    if width != 0 {
        let s = be_bytes(v, width);
        lemma_be_bytes(v / 256, (width - 1) as nat);
        assert(s.drop_last() =~= be_bytes(v / 256, (width - 1) as nat));
        assert(s.last() == (v % 256) as u8);
    }
}

/// What `s.len()` big-endian bytes stand for is below `256^s.len()`.
pub proof fn lemma_be_value_bound(s: Seq<u8>)
    ensures
        be_value(s) < pow256(s.len()),
    decreases s.len(),
{
    if s.len() != 0 {
        lemma_be_value_bound(s.drop_last());
    }
}

/// A number below `256^width` is read back unchanged from its `width` bytes,
/// in either byte order, and its byte string is exactly `width` long.
pub proof fn lemma_ordered_round_trip(v: nat, width: nat, big_endian: bool)
    requires
        v < pow256(width),
    ensures
        ordered_bytes(v, width, big_endian).len() == width,
        ordered_value(ordered_bytes(v, width, big_endian), big_endian) == v,
{
    lemma_le_bytes(v, width);
    lemma_be_bytes(v, width);
}

/// What a byte string of `s.len()` digits stands for is below `256^s.len()`.
pub proof fn lemma_ordered_value_bound(s: Seq<u8>, big_endian: bool)
    ensures
        ordered_value(s, big_endian) < pow256(s.len()),
{
    lemma_be_value_bound(s);
    lemma_tail_value_bound(s);
}

/// `num::traits::ToBytes::to_le_bytes` for `u16`: the two bytes of `v`, least
/// significant first.
#[verifier::external_body]
fn u16_to_le_bytes(v: u16) -> (res: Vec<u8>)
    ensures
        res@ == le_bytes(v as nat, 2),
{
    num::traits::ToBytes::to_le_bytes(&v).as_ref().to_vec()
}

/// `num::traits::ToBytes::to_be_bytes` for `u16`: the two bytes of `v`, most
/// significant first.
#[verifier::external_body]
fn u16_to_be_bytes(v: u16) -> (res: Vec<u8>)
    ensures
        res@ == be_bytes(v as nat, 2),
{
    num::traits::ToBytes::to_be_bytes(&v).as_ref().to_vec()
}

/// `num::traits::ToBytes::to_le_bytes` for `u32`: the four bytes of `v`, least
/// significant first.
#[verifier::external_body]
fn u32_to_le_bytes(v: u32) -> (res: Vec<u8>)
    ensures
        res@ == le_bytes(v as nat, 4),
{
    num::traits::ToBytes::to_le_bytes(&v).as_ref().to_vec()
}

/// `num::traits::ToBytes::to_be_bytes` for `u32`: the four bytes of `v`, most
/// significant first.
#[verifier::external_body]
fn u32_to_be_bytes(v: u32) -> (res: Vec<u8>)
    ensures
        res@ == be_bytes(v as nat, 4),
{
    num::traits::ToBytes::to_be_bytes(&v).as_ref().to_vec()
}

/// `num::traits::ToBytes::to_le_bytes` for `u64`: the eight bytes of `v`,
/// least significant first.
#[verifier::external_body]
fn u64_to_le_bytes(v: u64) -> (res: Vec<u8>)
    ensures
        res@ == le_bytes(v as nat, 8),
{
    num::traits::ToBytes::to_le_bytes(&v).as_ref().to_vec()
}

/// `num::traits::ToBytes::to_be_bytes` for `u64`: the eight bytes of `v`, most
/// significant first.
#[verifier::external_body]
fn u64_to_be_bytes(v: u64) -> (res: Vec<u8>)
    ensures
        res@ == be_bytes(v as nat, 8),
{
    num::traits::ToBytes::to_be_bytes(&v).as_ref().to_vec()
}

/// `num::traits::ToBytes::to_le_bytes` for `u128`: the sixteen bytes of `v`,
/// least significant first.
#[verifier::external_body]
fn u128_to_le_bytes(v: u128) -> (res: Vec<u8>)
    ensures
        res@ == le_bytes(v as nat, 16),
{
    num::traits::ToBytes::to_le_bytes(&v).as_ref().to_vec()
}

/// `num::traits::ToBytes::to_be_bytes` for `u128`: the sixteen bytes of `v`,
/// most significant first.
#[verifier::external_body]
fn u128_to_be_bytes(v: u128) -> (res: Vec<u8>)
    ensures
        res@ == be_bytes(v as nat, 16),
{
    num::traits::ToBytes::to_be_bytes(&v).as_ref().to_vec()
}

/// The two bytes of `v` in the chosen order.
pub fn u16_bytes(v: u16, big_endian: bool) -> (res: Vec<u8>)
    ensures
        res@ == ordered_bytes(v as nat, 2, big_endian),
{
    if big_endian {
        u16_to_be_bytes(v)
    } else {
        u16_to_le_bytes(v)
    }
}

/// The four bytes of `v` in the chosen order.
pub fn u32_bytes(v: u32, big_endian: bool) -> (res: Vec<u8>)
    ensures
        res@ == ordered_bytes(v as nat, 4, big_endian),
{
    if big_endian {
        u32_to_be_bytes(v)
    } else {
        u32_to_le_bytes(v)
    }
}

/// The eight bytes of `v` in the chosen order.
pub fn u64_bytes(v: u64, big_endian: bool) -> (res: Vec<u8>)
    ensures
        res@ == ordered_bytes(v as nat, 8, big_endian),
{
    if big_endian {
        u64_to_be_bytes(v)
    } else {
        u64_to_le_bytes(v)
    }
}

/// The sixteen bytes of `v` in the chosen order.
pub fn u128_bytes(v: u128, big_endian: bool) -> (res: Vec<u8>)
    ensures
        res@ == ordered_bytes(v as nat, 16, big_endian),
{
    if big_endian {
        u128_to_be_bytes(v)
    } else {
        u128_to_le_bytes(v)
    }
}

/// Reads the number that `bytes` stands for in the chosen order.
pub fn number_from_bytes(bytes: &[u8], big_endian: bool) -> (res: u128)
    requires
        bytes@.len() <= 16,
    ensures
        res == ordered_value(bytes@, big_endian),
        res < pow256(bytes@.len()),
{
    let n: usize = bytes.len();
    let mut acc: u128 = 0;
    proof {
        lemma_ordered_value_bound(bytes@, big_endian);
    }
    if big_endian {
        let mut i: usize = 0;
        while i < n
            invariant
                i <= n == bytes@.len() <= 16,
                acc == be_value(bytes@.subrange(0, i as int)),
            decreases n - i,
        {
            proof {
                lemma_be_value_bound(bytes@.subrange(0, i as int));
                lemma_pow256_monotonic(i as nat, 15);
                lemma_pow256_values();
                reveal_with_fuel(pow256, 2);
                assert(pow256(16) == 256 * pow256(15));
                assert(bytes@.subrange(0, i + 1).drop_last() =~= bytes@.subrange(0, i as int));
            }
            acc = acc * 256 + bytes[i] as u128;
            i = i + 1;
        }
        proof {
            assert(bytes@.subrange(0, n as int) =~= bytes@);
        }
    } else {
        let mut i: usize = n;
        while i > 0
            invariant
                i <= n == bytes@.len() <= 16,
                acc == tail_value(bytes@.subrange(i as int, n as int)),
            decreases i,
        {
            proof {
                lemma_tail_value_bound(bytes@.subrange(i as int, n as int));
                lemma_pow256_monotonic((n - i) as nat, 15);
                lemma_pow256_values();
                reveal_with_fuel(pow256, 2);
                assert(pow256(16) == 256 * pow256(15));
                assert(bytes@.subrange(i - 1, n as int).drop_first() =~= bytes@.subrange(
                    i as int,
                    n as int,
                ));
            }
            i = i - 1;
            acc = acc * 256 + bytes[i] as u128;
        }
        proof {
            assert(bytes@.subrange(0, n as int) =~= bytes@);
        }
    }
    acc
}

} // verus!
