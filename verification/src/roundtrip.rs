//! What encoding and decoding guarantee of each other.
//!
//! Every law is stated over the wire forms that the encoder's contracts name
//! and the readings that the decoder's contracts name, with arbitrary bytes
//! following the encoded value.

use vstd::prelude::*;
use vstd::utf8::{
    decode_utf8, encode_scalar, encode_utf8, encode_utf8_decode_utf8, encode_utf8_first_scalar,
    encode_utf8_valid_utf8, valid_utf8,
};
use crate::binaryerror::BinaryError;
use crate::common::{
    count_bytes, count_frame_complete, count_frame_len, count_value, lemma_count_round_trip,
    lemma_count_truncated, lemma_pow256_values, pow256, COUNT_LIMIT, NONE, SOME, STRUCT,
    STRUCT_VARIANT, UNIT_VARIANT,
};
use crate::de::{
    char_frame_len, decode_bool, decode_bytes, decode_char, decode_count, decode_enum, decode_i128,
    decode_i16, decode_i32, decode_i64, decode_i8, decode_number, decode_option, decode_str,
    decode_struct, decode_u128, decode_u16, decode_u32, decode_u64, decode_u8, EnumHeader,
    StructHeader, VariantKind,
};
use crate::endian::{lemma_ordered_round_trip, ordered_bytes};
use crate::ser::{
    encode_bool, encode_bytes, encode_char, encode_i128, encode_i16, encode_i32, encode_i64,
    encode_i8, encode_str, encode_struct, encode_struct_variant, encode_tuple_variant, encode_u128,
    encode_u16, encode_u32, encode_u64, encode_u8, encode_unit_variant,
};
use crate::utf8::lemma_encode_single;

verus! {

/// A number below `256^width` is read back from its `width` bytes, whatever
/// follows them, in either byte order.
pub proof fn lemma_number_round_trip(v: nat, width: nat, big_endian: bool, rest: Seq<u8>)
    requires
        v < pow256(width),
    ensures
        decode_number(ordered_bytes(v, width, big_endian) + rest, width, big_endian) == Ok::<
            (nat, nat),
            BinaryError,
        >((v, width)),
{
    lemma_ordered_round_trip(v, width, big_endian);
    let a = ordered_bytes(v, width, big_endian);
    assert((a + rest).subrange(0, width as int) =~= a);
}

/// A fixed-width number that lost its last byte is an unexpected end of input.
pub proof fn lemma_number_truncated(v: nat, width: nat, big_endian: bool)
    requires
        v < pow256(width),
        width > 0,
    ensures
        decode_number(ordered_bytes(v, width, big_endian).drop_last(), width, big_endian) == Err::<
            (nat, nat),
            BinaryError,
        >(BinaryError::UnexpectedEndOfInput),
{
    lemma_ordered_round_trip(v, width, big_endian);
}

/// A fixed-width number of any of the numeric shapes that lost its last byte
/// is an unexpected end of input.
pub proof fn lemma_typed_number_truncated(v: u128, big_endian: bool)
    ensures
        decode_u16(encode_u16(v as u16, big_endian).drop_last(), big_endian) == Err::<
            (u16, nat),
            BinaryError,
        >(BinaryError::UnexpectedEndOfInput),
        decode_u32(encode_u32(v as u32, big_endian).drop_last(), big_endian) == Err::<
            (u32, nat),
            BinaryError,
        >(BinaryError::UnexpectedEndOfInput),
        decode_u64(encode_u64(v as u64, big_endian).drop_last(), big_endian) == Err::<
            (u64, nat),
            BinaryError,
        >(BinaryError::UnexpectedEndOfInput),
        decode_u128(encode_u128(v, big_endian).drop_last(), big_endian) == Err::<
            (u128, nat),
            BinaryError,
        >(BinaryError::UnexpectedEndOfInput),
        decode_i16(encode_i16(v as i16, big_endian).drop_last(), big_endian) == Err::<
            (i16, nat),
            BinaryError,
        >(BinaryError::UnexpectedEndOfInput),
        decode_i32(encode_i32(v as i32, big_endian).drop_last(), big_endian) == Err::<
            (i32, nat),
            BinaryError,
        >(BinaryError::UnexpectedEndOfInput),
        decode_i64(encode_i64(v as i64, big_endian).drop_last(), big_endian) == Err::<
            (i64, nat),
            BinaryError,
        >(BinaryError::UnexpectedEndOfInput),
        decode_i128(encode_i128(v as i128, big_endian).drop_last(), big_endian) == Err::<
            (i128, nat),
            BinaryError,
        >(BinaryError::UnexpectedEndOfInput),
{
    lemma_pow256_values();
    lemma_number_truncated((v as u16) as nat, 2, big_endian);
    lemma_number_truncated((v as u32) as nat, 4, big_endian);
    lemma_number_truncated((v as u64) as nat, 8, big_endian);
    lemma_number_truncated(v as nat, 16, big_endian);
    lemma_number_truncated(((v as i16) as u16) as nat, 2, big_endian);
    lemma_number_truncated(((v as i32) as u32) as nat, 4, big_endian);
    lemma_number_truncated(((v as i64) as u64) as nat, 8, big_endian);
    lemma_number_truncated(((v as i128) as u128) as nat, 16, big_endian);
}

/// Every `bool` is read back from its byte.
pub proof fn lemma_bool_round_trip(v: bool, rest: Seq<u8>)
    ensures
        decode_bool(encode_bool(v) + rest) == Ok::<(bool, nat), BinaryError>((v, 1)),
{
}

/// Every `u8` is read back from its byte.
pub proof fn lemma_u8_round_trip(v: u8, rest: Seq<u8>)
    ensures
        decode_u8(encode_u8(v) + rest) == Ok::<(u8, nat), BinaryError>((v, 1)),
{
}

/// Every `i8` is read back from its byte.
pub proof fn lemma_i8_round_trip(v: i8, rest: Seq<u8>)
    ensures
        decode_i8(encode_i8(v) + rest) == Ok::<(i8, nat), BinaryError>((v, 1)),
{
    assert((v as u8) as i8 == v) by (bit_vector);
}

/// Every `u16` is read back from its bytes, in either byte order.
pub proof fn lemma_u16_round_trip(v: u16, big_endian: bool, rest: Seq<u8>)
    ensures
        encode_u16(v, big_endian).len() == 2,
        decode_u16(encode_u16(v, big_endian) + rest, big_endian) == Ok::<(u16, nat), BinaryError>(
            (v, 2),
        ),
{
    lemma_pow256_values();
    lemma_number_round_trip(v as nat, 2, big_endian, rest);
    lemma_ordered_round_trip(v as nat, 2, big_endian);
}

/// Every `u32` is read back from its bytes, in either byte order.
pub proof fn lemma_u32_round_trip(v: u32, big_endian: bool, rest: Seq<u8>)
    ensures
        encode_u32(v, big_endian).len() == 4,
        decode_u32(encode_u32(v, big_endian) + rest, big_endian) == Ok::<(u32, nat), BinaryError>(
            (v, 4),
        ),
{
    lemma_pow256_values();
    lemma_number_round_trip(v as nat, 4, big_endian, rest);
    lemma_ordered_round_trip(v as nat, 4, big_endian);
}

/// Every `u64` is read back from its bytes, in either byte order.
pub proof fn lemma_u64_round_trip(v: u64, big_endian: bool, rest: Seq<u8>)
    ensures
        encode_u64(v, big_endian).len() == 8,
        decode_u64(encode_u64(v, big_endian) + rest, big_endian) == Ok::<(u64, nat), BinaryError>(
            (v, 8),
        ),
{
    lemma_pow256_values();
    lemma_number_round_trip(v as nat, 8, big_endian, rest);
    lemma_ordered_round_trip(v as nat, 8, big_endian);
}

/// Every `u128` is read back from its bytes, in either byte order.
pub proof fn lemma_u128_round_trip(v: u128, big_endian: bool, rest: Seq<u8>)
    ensures
        encode_u128(v, big_endian).len() == 16,
        decode_u128(encode_u128(v, big_endian) + rest, big_endian) == Ok::<
            (u128, nat),
            BinaryError,
        >((v, 16)),
{
    lemma_pow256_values();
    lemma_number_round_trip(v as nat, 16, big_endian, rest);
    lemma_ordered_round_trip(v as nat, 16, big_endian);
}

/// Every `i16` is read back from its bytes, in either byte order.
pub proof fn lemma_i16_round_trip(v: i16, big_endian: bool, rest: Seq<u8>)
    ensures
        encode_i16(v, big_endian).len() == 2,
        decode_i16(encode_i16(v, big_endian) + rest, big_endian) == Ok::<(i16, nat), BinaryError>(
            (v, 2),
        ),
{
    lemma_u16_round_trip(v as u16, big_endian, rest);
    assert((v as u16) as i16 == v) by (bit_vector);
}

/// Every `i32` is read back from its bytes, in either byte order.
pub proof fn lemma_i32_round_trip(v: i32, big_endian: bool, rest: Seq<u8>)
    ensures
        encode_i32(v, big_endian).len() == 4,
        decode_i32(encode_i32(v, big_endian) + rest, big_endian) == Ok::<(i32, nat), BinaryError>(
            (v, 4),
        ),
{
    lemma_u32_round_trip(v as u32, big_endian, rest);
    assert((v as u32) as i32 == v) by (bit_vector);
}

/// Every `i64` is read back from its bytes, in either byte order.
pub proof fn lemma_i64_round_trip(v: i64, big_endian: bool, rest: Seq<u8>)
    ensures
        encode_i64(v, big_endian).len() == 8,
        decode_i64(encode_i64(v, big_endian) + rest, big_endian) == Ok::<(i64, nat), BinaryError>(
            (v, 8),
        ),
{
    lemma_u64_round_trip(v as u64, big_endian, rest);
    assert((v as u64) as i64 == v) by (bit_vector);
}

/// Every `i128` is read back from its bytes, in either byte order.
pub proof fn lemma_i128_round_trip(v: i128, big_endian: bool, rest: Seq<u8>)
    ensures
        encode_i128(v, big_endian).len() == 16,
        decode_i128(encode_i128(v, big_endian) + rest, big_endian) == Ok::<
            (i128, nat),
            BinaryError,
        >((v, 16)),
{
    lemma_u128_round_trip(v as u128, big_endian, rest);
    assert((v as u128) as i128 == v) by (bit_vector);
}

/// A complete count frame reads the same whatever follows it.
pub proof fn lemma_count_prefix(frame: Seq<u8>, rest: Seq<u8>)
    requires
        count_frame_len(frame) == Some(frame.len()),
    ensures
        count_frame_complete(frame + rest),
        count_frame_len(frame + rest) == Some(frame.len()),
        count_value(frame + rest) == count_value(frame),
{
    let s = frame + rest;
    assert(s[0] == frame[0]);
    if frame[0] >= 128 {
        assert(s[1] == frame[1]);
        assert(s.subrange(2, 2 + (s[1] / 32) as int) =~= frame.subrange(
            2,
            2 + (frame[1] / 32) as int,
        ));
    }
}

/// Every `usize` count is read back from its frame, whatever follows it, and
/// the frame is one byte long exactly for the counts up to 127.
pub proof fn lemma_usize_round_trip(n: usize, rest: Seq<u8>)
    ensures
        decode_count(count_bytes(n as nat) + rest) == Ok::<(usize, nat), BinaryError>(
            (n, count_bytes(n as nat).len()),
        ),
        count_bytes(n as nat).len() == 1 <==> n <= 127,
{
    assert(n < COUNT_LIMIT);
    lemma_count_round_trip(n as nat);
    lemma_count_prefix(count_bytes(n as nat), rest);
    vstd::arithmetic::div_mod::lemma_small_mod(n as nat, usize::MAX as nat + 1);
}

/// A count frame that lost its last byte is an unexpected end of input.
pub proof fn lemma_usize_truncated(n: usize)
    ensures
        decode_count(count_bytes(n as nat).drop_last()) == Err::<(usize, nat), BinaryError>(
            BinaryError::UnexpectedEndOfInput,
        ),
{
    lemma_count_truncated(n as nat);
}

/// The first byte of a character's UTF-8 form announces the form's length.
pub proof fn lemma_char_frame(c: char)
    ensures
        1 <= encode_char(c).len() <= 4,
        char_frame_len(encode_char(c)[0]) == Some(encode_char(c).len()),
        valid_utf8(encode_char(c)),
        decode_utf8(encode_char(c)) == seq![c],
{
    lemma_encode_single(c);
    encode_utf8_first_scalar(seq![c]);
    encode_utf8_valid_utf8(seq![c]);
    encode_utf8_decode_utf8(seq![c]);
}

/// Every character is read back from its UTF-8 bytes, whatever follows them.
pub proof fn lemma_char_round_trip(c: char, rest: Seq<u8>)
    ensures
        decode_char(encode_char(c) + rest) == Ok::<(char, nat), BinaryError>(
            (c, encode_char(c).len()),
        ),
{
    lemma_char_frame(c);
    let e = encode_char(c);
    let s = e + rest;
    assert(s[0] == e[0]);
    assert(s.subrange(0, e.len() as int) =~= e);
}

/// A character that lost its last byte is an unexpected end of input.
pub proof fn lemma_char_truncated(c: char)
    ensures
        decode_char(encode_char(c).drop_last()) == Err::<(char, nat), BinaryError>(
            BinaryError::UnexpectedEndOfInput,
        ),
{
    lemma_char_frame(c);
    let e = encode_char(c);
    if e.len() > 1 {
        assert(e.drop_last()[0] == e[0]);
    }
}

/// A byte that continues a character cannot start one.
pub proof fn lemma_char_bad_start(first: u8, rest: Seq<u8>)
    requires
        0x80 <= first <= 0xBF,
    ensures
        decode_char(seq![first] + rest) == Err::<(char, nat), BinaryError>(
            BinaryError::InvalidBytes,
        ),
{
    assert((seq![first] + rest)[0] == first);
}

/// Every byte buffer whose length fits a `usize` is read back from its wire
/// form, whatever follows it.
pub proof fn lemma_bytes_round_trip(b: Seq<u8>, rest: Seq<u8>)
    requires
        b.len() <= usize::MAX,
    ensures
        decode_bytes(encode_bytes(b) + rest) == Ok::<(Seq<u8>, nat), BinaryError>(
            (b, encode_bytes(b).len()),
        ),
{
    let head = count_bytes(b.len());
    let s = encode_bytes(b) + rest;
    assert(s =~= head + (b + rest));
    lemma_usize_round_trip(b.len() as usize, b + rest);
    assert(s.subrange(head.len() as int, (head.len() + b.len()) as int) =~= b);
}

/// A byte buffer that lost its last byte is an unexpected end of input.
pub proof fn lemma_bytes_truncated(b: Seq<u8>)
    requires
        b.len() <= usize::MAX,
    ensures
        decode_bytes(encode_bytes(b).drop_last()) == Err::<(Seq<u8>, nat), BinaryError>(
            BinaryError::UnexpectedEndOfInput,
        ),
{
    let head = count_bytes(b.len());
    if b.len() == 0 {
        assert(encode_bytes(b) =~= head);
        lemma_usize_truncated(0);
    } else {
        assert(encode_bytes(b).drop_last() =~= head + b.drop_last());
        lemma_usize_round_trip(b.len() as usize, b.drop_last());
    }
}

/// Every string whose UTF-8 length fits a `usize` is read back from its wire
/// form, whatever follows it.
pub proof fn lemma_str_round_trip(text: Seq<char>, rest: Seq<u8>)
    requires
        encode_utf8(text).len() <= usize::MAX,
    ensures
        decode_str(encode_str(text) + rest) == Ok::<(Seq<char>, nat), BinaryError>(
            (text, encode_str(text).len()),
        ),
{
    lemma_bytes_round_trip(encode_utf8(text), rest);
    encode_utf8_valid_utf8(text);
    encode_utf8_decode_utf8(text);
}

/// A string that lost its last byte is an unexpected end of input.
pub proof fn lemma_str_truncated(text: Seq<char>)
    requires
        encode_utf8(text).len() <= usize::MAX,
    ensures
        decode_str(encode_str(text).drop_last()) == Err::<(Seq<char>, nat), BinaryError>(
            BinaryError::UnexpectedEndOfInput,
        ),
{
    lemma_bytes_truncated(encode_utf8(text));
}

/// The two optional flags are read back as absent and present.
pub proof fn lemma_option_round_trip(rest: Seq<u8>)
    ensures
        decode_option(seq![NONE] + rest) == Ok::<(bool, nat), BinaryError>((false, 1)),
        decode_option(seq![SOME] + rest) == Ok::<(bool, nat), BinaryError>((true, 1)),
{
    assert((seq![NONE] + rest)[0] == NONE);
    assert((seq![SOME] + rest)[0] == SOME);
}

/// Any byte but the two flags in the place of an optional flag is rejected
/// as a missing or invalid flag.
pub proof fn lemma_option_bad_flag(flag: u8, rest: Seq<u8>)
    requires
        flag != NONE,
        flag != SOME,
    ensures
        decode_option(seq![flag] + rest) == Err::<(bool, nat), BinaryError>(
            BinaryError::MissingOrInvalidFlag { actual: flag, expected: SOME },
        ),
{
    assert((seq![flag] + rest)[0] == flag);
}

/// Nothing can be read from an empty input: every shape that takes bytes
/// reports an unexpected end of input.
pub proof fn lemma_empty_input(name: Seq<char>, big_endian: bool)
    ensures
        decode_bool(Seq::<u8>::empty()) == Err::<(bool, nat), BinaryError>(
            BinaryError::UnexpectedEndOfInput,
        ),
        decode_u8(Seq::<u8>::empty()) == Err::<(u8, nat), BinaryError>(
            BinaryError::UnexpectedEndOfInput,
        ),
        decode_i8(Seq::<u8>::empty()) == Err::<(i8, nat), BinaryError>(
            BinaryError::UnexpectedEndOfInput,
        ),
        decode_u16(Seq::<u8>::empty(), big_endian) == Err::<(u16, nat), BinaryError>(
            BinaryError::UnexpectedEndOfInput,
        ),
        decode_u32(Seq::<u8>::empty(), big_endian) == Err::<(u32, nat), BinaryError>(
            BinaryError::UnexpectedEndOfInput,
        ),
        decode_u64(Seq::<u8>::empty(), big_endian) == Err::<(u64, nat), BinaryError>(
            BinaryError::UnexpectedEndOfInput,
        ),
        decode_u128(Seq::<u8>::empty(), big_endian) == Err::<(u128, nat), BinaryError>(
            BinaryError::UnexpectedEndOfInput,
        ),
        decode_i16(Seq::<u8>::empty(), big_endian) == Err::<(i16, nat), BinaryError>(
            BinaryError::UnexpectedEndOfInput,
        ),
        decode_i32(Seq::<u8>::empty(), big_endian) == Err::<(i32, nat), BinaryError>(
            BinaryError::UnexpectedEndOfInput,
        ),
        decode_i64(Seq::<u8>::empty(), big_endian) == Err::<(i64, nat), BinaryError>(
            BinaryError::UnexpectedEndOfInput,
        ),
        decode_i128(Seq::<u8>::empty(), big_endian) == Err::<(i128, nat), BinaryError>(
            BinaryError::UnexpectedEndOfInput,
        ),
        decode_char(Seq::<u8>::empty()) == Err::<(char, nat), BinaryError>(
            BinaryError::UnexpectedEndOfInput,
        ),
        decode_count(Seq::<u8>::empty()) == Err::<(usize, nat), BinaryError>(
            BinaryError::UnexpectedEndOfInput,
        ),
        decode_bytes(Seq::<u8>::empty()) == Err::<(Seq<u8>, nat), BinaryError>(
            BinaryError::UnexpectedEndOfInput,
        ),
        decode_str(Seq::<u8>::empty()) == Err::<(Seq<char>, nat), BinaryError>(
            BinaryError::UnexpectedEndOfInput,
        ),
        decode_option(Seq::<u8>::empty()) == Err::<(bool, nat), BinaryError>(
            BinaryError::UnexpectedEndOfInput,
        ),
        decode_struct(Seq::<u8>::empty(), name) == StructHeader::Broken(
            BinaryError::UnexpectedEndOfInput,
        ),
        decode_enum(Seq::<u8>::empty(), name, big_endian) == EnumHeader::Broken(
            BinaryError::UnexpectedEndOfInput,
        ),
{
}

/// A struct header is read back against its own name, whatever follows it.
pub proof fn lemma_struct_round_trip(name: Seq<char>, len: usize, rest: Seq<u8>)
    requires
        encode_utf8(name).len() <= usize::MAX,
    ensures
        decode_struct(encode_struct(name, len) + rest, name) == StructHeader::Fields(
            len,
            encode_struct(name, len).len(),
        ),
{
    let s = encode_struct(name, len) + rest;
    let tail = count_bytes(len as nat) + rest;
    assert(s[0] == STRUCT);
    assert(s.skip(1) =~= encode_str(name) + tail);
    lemma_str_round_trip(name, tail);
    let n = encode_str(name).len();
    assert(s.skip(1 + n as int) =~= tail);
    lemma_usize_round_trip(len, rest);
}

/// A struct header read against another name than its own is rejected with
/// the name that it carries.
pub proof fn lemma_struct_wrong_name(found: Seq<char>, wanted: Seq<char>, len: usize, rest: Seq<u8>)
    requires
        encode_utf8(found).len() <= usize::MAX,
        found != wanted,
    ensures
        decode_struct(encode_struct(found, len) + rest, wanted) == StructHeader::WrongName(found),
{
    let s = encode_struct(found, len) + rest;
    let tail = count_bytes(len as nat) + rest;
    assert(s[0] == STRUCT);
    assert(s.skip(1) =~= encode_str(found) + tail);
    lemma_str_round_trip(found, tail);
}

/// A struct header that lost its last byte is an unexpected end of input.
pub proof fn lemma_struct_truncated(name: Seq<char>, len: usize)
    requires
        encode_utf8(name).len() <= usize::MAX,
    ensures
        decode_struct(encode_struct(name, len).drop_last(), name) == StructHeader::Broken(
            BinaryError::UnexpectedEndOfInput,
        ),
{
    lemma_count_round_trip(len as nat);
    let s = encode_struct(name, len).drop_last();
    let tail = count_bytes(len as nat).drop_last();
    assert(s[0] == STRUCT);
    assert(s.skip(1) =~= encode_str(name) + tail);
    lemma_str_round_trip(name, tail);
    let n = encode_str(name).len();
    assert(s.skip(1 + n as int) =~= tail);
    lemma_usize_truncated(len);
}

/// A unit variant's header is read back with its index.
pub proof fn lemma_unit_variant_round_trip(
    index: u32,
    name: Seq<char>,
    big_endian: bool,
    rest: Seq<u8>,
)
    ensures
        decode_enum(encode_unit_variant(index, big_endian) + rest, name, big_endian)
            == EnumHeader::Variant(VariantKind::Unit, index, 5),
{
    let s = encode_unit_variant(index, big_endian) + rest;
    assert(s[0] == UNIT_VARIANT);
    assert(s.skip(1) =~= encode_u32(index, big_endian) + rest);
    lemma_u32_round_trip(index, big_endian, rest);
}

/// How the wire form of a struct variant's header splits into its parts.
proof fn lemma_struct_variant_parts(
    name: Seq<char>,
    index: u32,
    len: usize,
    big_endian: bool,
    rest: Seq<u8>,
)
    ensures
        ({
            let s = encode_struct_variant(name, index, len, big_endian) + rest;
            let n = encode_str(name).len();
            &&& s.len() >= 1
            &&& s[0] == STRUCT_VARIANT
            &&& s.skip(1) == encode_str(name) + (encode_u32(index, big_endian) + (count_bytes(
                len as nat,
            ) + rest))
            &&& s.skip(1 + n as int) == encode_u32(index, big_endian) + (count_bytes(len as nat)
                + rest)
            &&& s.skip((1 + n + 4) as int) == count_bytes(len as nat) + rest
        }),
{
    lemma_u32_round_trip(index, big_endian, Seq::<u8>::empty());
    let s = encode_struct_variant(name, index, len, big_endian) + rest;
    let n = encode_str(name).len();
    let after_index = count_bytes(len as nat) + rest;
    let after_name = encode_u32(index, big_endian) + after_index;
    assert(s =~= seq![STRUCT_VARIANT] + (encode_str(name) + after_name));
    assert(s.skip(1) =~= encode_str(name) + after_name);
    assert(s.skip(1 + n as int) =~= after_name);
    assert(s.skip((1 + n + 4) as int) =~= after_index);
}

/// A unit variant's header that lost its last byte is an unexpected end of
/// input.
pub proof fn lemma_unit_variant_truncated(index: u32, name: Seq<char>, big_endian: bool)
    ensures
        decode_enum(encode_unit_variant(index, big_endian).drop_last(), name, big_endian)
            == EnumHeader::Broken(BinaryError::UnexpectedEndOfInput),
{
    lemma_u32_round_trip(index, big_endian, Seq::<u8>::empty());
    let s = encode_unit_variant(index, big_endian).drop_last();
    assert(s[0] == UNIT_VARIANT);
    assert(s.skip(1).len() == 3);
}

/// A struct variant's header is read back against its own name with its
/// index.
pub proof fn lemma_struct_variant_round_trip(
    name: Seq<char>,
    index: u32,
    len: usize,
    big_endian: bool,
    rest: Seq<u8>,
)
    requires
        encode_utf8(name).len() <= usize::MAX,
    ensures
        decode_enum(encode_struct_variant(name, index, len, big_endian) + rest, name, big_endian)
            == EnumHeader::Variant(VariantKind::Struct, index, 1 + encode_str(name).len() + 4),
{
    let s = encode_struct_variant(name, index, len, big_endian) + rest;
    let after_index = count_bytes(len as nat) + rest;
    let after_name = encode_u32(index, big_endian) + after_index;
    lemma_struct_variant_parts(name, index, len, big_endian, rest);
    lemma_str_round_trip(name, after_name);
    lemma_u32_round_trip(index, big_endian, after_index);
}

/// After a struct variant's name and index, its number of fields is read
/// back as a count.
pub proof fn lemma_struct_variant_count(
    name: Seq<char>,
    index: u32,
    len: usize,
    big_endian: bool,
    rest: Seq<u8>,
)
    ensures
        decode_count(
            (encode_struct_variant(name, index, len, big_endian) + rest).skip(
                (1 + encode_str(name).len() + 4) as int,
            ),
        ) == Ok::<(usize, nat), BinaryError>((len, count_bytes(len as nat).len())),
{
    lemma_struct_variant_parts(name, index, len, big_endian, rest);
    lemma_usize_round_trip(len, rest);
}

/// The index of a newtype or tuple variant is read back, provided its first
/// byte on the wire is not one of the two variant markers.
pub proof fn lemma_nonunit_variant_round_trip(
    index: u32,
    name: Seq<char>,
    big_endian: bool,
    rest: Seq<u8>,
)
    requires
        encode_u32(index, big_endian)[0] != UNIT_VARIANT,
        encode_u32(index, big_endian)[0] != STRUCT_VARIANT,
    ensures
        decode_enum(encode_u32(index, big_endian) + rest, name, big_endian) == EnumHeader::Variant(
            VariantKind::NonUnit,
            index,
            4,
        ),
{
    lemma_pow256_values();
    lemma_ordered_round_trip(index as nat, 4, big_endian);
    let s = encode_u32(index, big_endian) + rest;
    assert(s[0] == encode_u32(index, big_endian)[0]);
    lemma_u32_round_trip(index, big_endian, rest);
}

/// A tuple variant's header is its index followed by its number of fields.
pub proof fn lemma_tuple_variant_count(index: u32, len: usize, big_endian: bool, rest: Seq<u8>)
    ensures
        encode_u32(index, big_endian).len() == 4,
        decode_count((encode_tuple_variant(index, len, big_endian) + rest).skip(4)) == Ok::<
            (usize, nat),
            BinaryError,
        >((len, count_bytes(len as nat).len())),
{
    lemma_pow256_values();
    lemma_ordered_round_trip(index as nat, 4, big_endian);
    let s = encode_tuple_variant(index, len, big_endian) + rest;
    assert(s.skip(4) =~= count_bytes(len as nat) + rest);
    lemma_usize_round_trip(len, rest);
}

/// A streamed unit variant's header is read back with its index.
pub proof fn lemma_stream_unit_variant_round_trip(index: u32, big_endian: bool, rest: Seq<u8>)
    ensures
        crate::stream::de::decode_enum(encode_unit_variant(index, big_endian) + rest, big_endian)
            == Ok::<((VariantKind, u32), nat), BinaryError>(((VariantKind::Unit, index), 5)),
{
    let s = encode_unit_variant(index, big_endian) + rest;
    assert(s[0] == UNIT_VARIANT);
    assert(s.skip(1) =~= encode_u32(index, big_endian) + rest);
    lemma_u32_round_trip(index, big_endian, rest);
}

/// A streamed newtype variant's marker is read back as such, and its index
/// follows.
pub proof fn lemma_stream_newtype_variant_round_trip(index: u32, big_endian: bool, rest: Seq<u8>)
    ensures
        crate::stream::de::decode_enum(
            crate::stream::ser::encode_newtype_variant(index, big_endian) + rest,
            big_endian,
        ) == Ok::<((VariantKind, u32), nat), BinaryError>(((VariantKind::NonUnit, 0), 1)),
        decode_u32(
            (crate::stream::ser::encode_newtype_variant(index, big_endian) + rest).skip(1),
            big_endian,
        ) == Ok::<(u32, nat), BinaryError>((index, 4)),
{
    let s = crate::stream::ser::encode_newtype_variant(index, big_endian) + rest;
    assert(s[0] == crate::common::NONUNIT_VARIANT);
    assert(s.skip(1) =~= encode_u32(index, big_endian) + rest);
    lemma_u32_round_trip(index, big_endian, rest);
}

/// In a stream, a byte that is none of the three variant markers in the
/// place of one is a missing or invalid flag.
pub proof fn lemma_stream_bad_variant_flag(flag: u8, big_endian: bool, rest: Seq<u8>)
    requires
        flag != UNIT_VARIANT,
        flag != STRUCT_VARIANT,
        flag != crate::common::NONUNIT_VARIANT,
    ensures
        crate::stream::de::decode_enum(seq![flag] + rest, big_endian) == Err::<
            ((VariantKind, u32), nat),
            BinaryError,
        >(BinaryError::MissingOrInvalidFlag { actual: flag, expected: UNIT_VARIANT }),
{
    assert((seq![flag] + rest)[0] == flag);
}

} // verus!
