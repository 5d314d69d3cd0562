//! The format as a whole: what shapes there are, what values they hold, how
//! a value of a shape is laid out on the wire, how it is read from there, and
//! that reading gives back what was laid out.
//!
//! A shape is built from the primitive shapes with a few combinators. An
//! optional value is a flag and, where present, the value. A pair is two
//! values in a row, which is how the entries of a map and the fields of
//! tuples and structs follow each other. A series is a count and that many
//! values of one shape: a sequence, or a map as a series of pairs. A counted
//! shape is a count that the schema fixes, then its content: a tuple or a
//! tuple struct. A struct is its marker, name and number of fields, then its
//! fields. A newtype struct is its inner value and needs no shape of its own.
//! An enumeration is a list of variants; a value of it is the index of one
//! variant and that variant's content.

use vstd::prelude::*;
use vstd::utf8::encode_utf8;
use crate::common::{count_bytes, NONE, SOME, STRUCT_VARIANT, UNIT_VARIANT};
use crate::de::{
    decode_bool, decode_bytes, decode_char, decode_count, decode_i128, decode_i16, decode_i32,
    decode_enum, decode_i64, decode_i8, decode_option, decode_str, decode_struct, decode_u128,
    decode_u16, decode_u32, decode_u64, decode_u8, EnumHeader, StructHeader, VariantKind,
};
use crate::roundtrip::{
    lemma_bool_round_trip, lemma_bytes_round_trip, lemma_bytes_truncated, lemma_char_round_trip,
    lemma_char_truncated, lemma_i128_round_trip, lemma_i16_round_trip, lemma_i32_round_trip,
    lemma_i64_round_trip, lemma_i8_round_trip, lemma_nonunit_variant_round_trip,
    lemma_option_round_trip, lemma_str_round_trip, lemma_struct_variant_count,
    lemma_struct_variant_round_trip, lemma_unit_variant_round_trip, lemma_unit_variant_truncated,
    lemma_str_truncated, lemma_struct_round_trip, lemma_struct_truncated,
    lemma_typed_number_truncated, lemma_u128_round_trip, lemma_u16_round_trip,
    lemma_u32_round_trip, lemma_u64_round_trip, lemma_u8_round_trip, lemma_usize_round_trip,
    lemma_usize_truncated,
};
use crate::ser::{
    encode_bool, encode_bytes, encode_char, encode_i128, encode_i16, encode_i32, encode_i64,
    encode_i8, encode_str, encode_struct, encode_struct_variant, encode_u128, encode_u16,
    encode_u32, encode_u64, encode_u8, encode_unit_variant,
};

verus! {

/// The shape of a value: what the schema says of it.
pub enum Shape {
    /// A `bool`.
    Bool,
    /// A `u8`.
    U8,
    /// A `u16`.
    U16,
    /// A `u32`.
    U32,
    /// A `u64`.
    U64,
    /// A `u128`.
    U128,
    /// An `i8`.
    I8,
    /// An `i16`.
    I16,
    /// An `i32`.
    I32,
    /// An `i64`.
    I64,
    /// An `i128`.
    I128,
    /// A character.
    Char,
    /// A string.
    Str,
    /// A byte buffer.
    Bytes,
    /// A unit or a unit struct: no bytes.
    Unit,
    /// An optional value of the given shape.
    Optional(Box<Shape>),
    /// Two values in a row.
    Pair(Box<Shape>, Box<Shape>),
    /// A count, then that many values of the given shape.
    Series(Box<Shape>),
    /// The given count, then the content.
    Counted(usize, Box<Shape>),
    /// A struct of the given name and number of fields, then the fields.
    Struct(Seq<char>, usize, Box<Shape>),
    /// An enumeration of the given name with the given variants.
    Enum(Seq<char>, Seq<VariantShape>),
}

/// The shape of one variant of an enumeration.
pub enum VariantShape {
    /// A variant without content.
    Unit,
    /// A newtype variant with the given content, or a tuple variant whose
    /// content is a counted shape.
    Payload(Shape),
    /// A struct variant of the given number of fields, then the fields.
    Fields(usize, Shape),
}

/// A value, as far as the format tells values apart.
pub enum Value {
    /// A `bool`.
    Bool(bool),
    /// A `u8`.
    U8(u8),
    /// A `u16`.
    U16(u16),
    /// A `u32`.
    U32(u32),
    /// A `u64`.
    U64(u64),
    /// A `u128`.
    U128(u128),
    /// An `i8`.
    I8(i8),
    /// An `i16`.
    I16(i16),
    /// An `i32`.
    I32(i32),
    /// An `i64`.
    I64(i64),
    /// An `i128`.
    I128(i128),
    /// A character.
    Char(char),
    /// A string.
    Str(Seq<char>),
    /// A byte buffer.
    Bytes(Seq<u8>),
    /// The unit.
    Unit,
    /// An absent optional value.
    Absent,
    /// A present optional value.
    Present(Box<Value>),
    /// Two values.
    Pair(Box<Value>, Box<Value>),
    /// The values of a series.
    Series(Seq<Value>),
    /// A variant of an enumeration: its index and its content, the unit for
    /// a variant without content.
    Variant(u32, Box<Value>),
}

/// True when `v` is a value of `shape` that the format can carry: strings,
/// byte buffers and series are no longer than a `usize` can count, and the
/// index of a newtype or tuple variant, which has no marker, does not start
/// with a byte that is one.
pub open spec fn fits(v: Value, shape: Shape, big_endian: bool) -> bool
    decreases shape, 0nat,
{
    match shape {
        Shape::Bool => v is Bool,
        Shape::U8 => v is U8,
        Shape::U16 => v is U16,
        Shape::U32 => v is U32,
        Shape::U64 => v is U64,
        Shape::U128 => v is U128,
        Shape::I8 => v is I8,
        Shape::I16 => v is I16,
        Shape::I32 => v is I32,
        Shape::I64 => v is I64,
        Shape::I128 => v is I128,
        Shape::Char => v is Char,
        Shape::Str => v is Str && encode_utf8(v->Str_0).len() <= usize::MAX,
        Shape::Bytes => v is Bytes && v->Bytes_0.len() <= usize::MAX,
        Shape::Unit => v is Unit,
        Shape::Optional(inner) => v is Absent || (v is Present && fits(*v->Present_0, *inner, big_endian)),
        Shape::Pair(a, b) => v is Pair && fits(*v->Pair_0, *a, big_endian) && fits(
            *v->Pair_1,
            *b,
            big_endian,
        ),
        Shape::Series(elem) => v is Series && v->Series_0.len() <= usize::MAX && fits_all(
            v->Series_0,
            *elem,
            big_endian,
        ),
        Shape::Counted(_, inner) => fits(v, *inner, big_endian),
        Shape::Struct(name, _, inner) => encode_utf8(name).len() <= usize::MAX && fits(
            v,
            *inner,
            big_endian,
        ),
        Shape::Enum(name, variants) => v is Variant && v->Variant_0 < variants.len()
            && encode_utf8(name).len() <= usize::MAX && match variants[v->Variant_0 as int] {
            VariantShape::Unit => *v->Variant_1 is Unit,
            VariantShape::Payload(inner) => encode_u32(v->Variant_0, big_endian)[0]
                != UNIT_VARIANT && encode_u32(v->Variant_0, big_endian)[0] != STRUCT_VARIANT
                && fits(*v->Variant_1, inner, big_endian),
            VariantShape::Fields(_, inner) => fits(*v->Variant_1, inner, big_endian),
        },
    }
}

/// True when every one of `items` fits `elem`.
pub open spec fn fits_all(items: Seq<Value>, elem: Shape, big_endian: bool) -> bool
    decreases elem, items.len() + 1,
{
    if items.len() == 0 {
        true
    } else {
        fits(items[0], elem, big_endian) && fits_all(items.drop_first(), elem, big_endian)
    }
}

/// The wire form of `v` as a value of a shape without parts.
#[verifier::opaque]
pub open spec fn encode_plain(shape: Shape, v: Value, big_endian: bool) -> Seq<u8> {
    match shape {
        Shape::Bool => encode_bool(v->Bool_0),
        Shape::U8 => encode_u8(v->U8_0),
        Shape::U16 => encode_u16(v->U16_0, big_endian),
        Shape::U32 => encode_u32(v->U32_0, big_endian),
        Shape::U64 => encode_u64(v->U64_0, big_endian),
        Shape::U128 => encode_u128(v->U128_0, big_endian),
        Shape::I8 => encode_i8(v->I8_0),
        Shape::I16 => encode_i16(v->I16_0, big_endian),
        Shape::I32 => encode_i32(v->I32_0, big_endian),
        Shape::I64 => encode_i64(v->I64_0, big_endian),
        Shape::I128 => encode_i128(v->I128_0, big_endian),
        Shape::Char => encode_char(v->Char_0),
        Shape::Str => encode_str(v->Str_0),
        Shape::Bytes => encode_bytes(v->Bytes_0),
        _ => Seq::<u8>::empty(),
    }
}

/// The value of a shape without parts read from the start of `s`.
#[verifier::opaque]
pub open spec fn decode_plain(shape: Shape, s: Seq<u8>, big_endian: bool) -> Option<(Value, nat)> {
    match shape {
        Shape::Bool => match decode_bool(s) {
            Ok((x, k)) => Some((Value::Bool(x), k)),
            Err(_) => None,
        },
        Shape::U8 => match decode_u8(s) {
            Ok((x, k)) => Some((Value::U8(x), k)),
            Err(_) => None,
        },
        Shape::U16 => match decode_u16(s, big_endian) {
            Ok((x, k)) => Some((Value::U16(x), k)),
            Err(_) => None,
        },
        Shape::U32 => match decode_u32(s, big_endian) {
            Ok((x, k)) => Some((Value::U32(x), k)),
            Err(_) => None,
        },
        Shape::U64 => match decode_u64(s, big_endian) {
            Ok((x, k)) => Some((Value::U64(x), k)),
            Err(_) => None,
        },
        Shape::U128 => match decode_u128(s, big_endian) {
            Ok((x, k)) => Some((Value::U128(x), k)),
            Err(_) => None,
        },
        Shape::I8 => match decode_i8(s) {
            Ok((x, k)) => Some((Value::I8(x), k)),
            Err(_) => None,
        },
        Shape::I16 => match decode_i16(s, big_endian) {
            Ok((x, k)) => Some((Value::I16(x), k)),
            Err(_) => None,
        },
        Shape::I32 => match decode_i32(s, big_endian) {
            Ok((x, k)) => Some((Value::I32(x), k)),
            Err(_) => None,
        },
        Shape::I64 => match decode_i64(s, big_endian) {
            Ok((x, k)) => Some((Value::I64(x), k)),
            Err(_) => None,
        },
        Shape::I128 => match decode_i128(s, big_endian) {
            Ok((x, k)) => Some((Value::I128(x), k)),
            Err(_) => None,
        },
        Shape::Char => match decode_char(s) {
            Ok((x, k)) => Some((Value::Char(x), k)),
            Err(_) => None,
        },
        Shape::Str => match decode_str(s) {
            Ok((x, k)) => Some((Value::Str(x), k)),
            Err(_) => None,
        },
        Shape::Bytes => match decode_bytes(s) {
            Ok((x, k)) => Some((Value::Bytes(x), k)),
            Err(_) => None,
        },
        Shape::Unit => Some((Value::Unit, 0)),
        _ => None,
    }
}

/// The optional flag read from the start of `s`.
#[verifier::opaque]
pub open spec fn read_flag(s: Seq<u8>) -> Option<(bool, nat)> {
    match decode_option(s) {
        Ok(found) => Some(found),
        Err(_) => None,
    }
}

/// The count read from the start of `s`.
#[verifier::opaque]
pub open spec fn read_count(s: Seq<u8>) -> Option<(usize, nat)> {
    match decode_count(s) {
        Ok(found) => Some(found),
        Err(_) => None,
    }
}

/// The number of fields that the header of the struct `name` at the start of
/// `s` announces, and the header's length.
#[verifier::opaque]
pub open spec fn read_struct(s: Seq<u8>, name: Seq<char>) -> Option<(usize, nat)> {
    match decode_struct(s, name) {
        StructHeader::Fields(len, k) => Some((len, k)),
        _ => None,
    }
}

/// The kind and index of the variant that the header at the start of `s`
/// announces for the enumeration `name`, and the header's length.
#[verifier::opaque]
pub open spec fn read_variant(s: Seq<u8>, name: Seq<char>, big_endian: bool) -> Option<
    (VariantKind, u32, nat),
> {
    match decode_enum(s, name, big_endian) {
        EnumHeader::Variant(kind, index, k) => Some((kind, index, k)),
        _ => None,
    }
}

/// The wire form of `v` as a value of `shape`.
pub open spec fn encode(shape: Shape, v: Value, big_endian: bool) -> Seq<u8>
    decreases shape, 0nat,
{
    match shape {
        Shape::Optional(inner) => if v is Present {
            seq![SOME] + encode(*inner, *v->Present_0, big_endian)
        } else {
            seq![NONE]
        },
        Shape::Pair(a, b) => encode(*a, *v->Pair_0, big_endian) + encode(
            *b,
            *v->Pair_1,
            big_endian,
        ),
        Shape::Series(elem) => count_bytes(v->Series_0.len()) + encode_all(
            *elem,
            v->Series_0,
            big_endian,
        ),
        Shape::Counted(n, inner) => count_bytes(n as nat) + encode(*inner, v, big_endian),
        Shape::Struct(name, n, inner) => encode_struct(name, n) + encode(*inner, v, big_endian),
        Shape::Enum(name, variants) => if v is Variant && v->Variant_0 < variants.len() {
            match variants[v->Variant_0 as int] {
                VariantShape::Unit => encode_unit_variant(v->Variant_0, big_endian),
                VariantShape::Payload(inner) => encode_u32(v->Variant_0, big_endian) + encode(
                    inner,
                    *v->Variant_1,
                    big_endian,
                ),
                VariantShape::Fields(n, inner) => encode_struct_variant(
                    name,
                    v->Variant_0,
                    n,
                    big_endian,
                ) + encode(inner, *v->Variant_1, big_endian),
            }
        } else {
            Seq::<u8>::empty()
        },
        _ => encode_plain(shape, v, big_endian),
    }
}

/// The wire forms of `items` as values of `elem`, in a row.
pub open spec fn encode_all(elem: Shape, items: Seq<Value>, big_endian: bool) -> Seq<u8>
    decreases elem, items.len() + 1,
{
    if items.len() == 0 {
        Seq::<u8>::empty()
    } else {
        encode(elem, items[0], big_endian) + encode_all(elem, items.drop_first(), big_endian)
    }
}

/// The value of `shape` read from the start of `s` and the number of bytes
/// it took; `None` where the decoder fails.
pub open spec fn decode(shape: Shape, s: Seq<u8>, big_endian: bool) -> Option<(Value, nat)>
    decreases shape, 0nat,
{
    match shape {
        Shape::Optional(inner) => match read_flag(s) {
            None => None,
            Some((present, k)) => if present {
                match decode(*inner, s.skip(k as int), big_endian) {
                    Some((x, m)) => Some((Value::Present(Box::new(x)), k + m)),
                    None => None,
                }
            } else {
                Some((Value::Absent, k))
            },
        },
        Shape::Pair(a, b) => match decode(*a, s, big_endian) {
            None => None,
            Some((x, k)) => match decode(*b, s.skip(k as int), big_endian) {
                None => None,
                Some((y, m)) => Some((Value::Pair(Box::new(x), Box::new(y)), k + m)),
            },
        },
        Shape::Series(elem) => match read_count(s) {
            None => None,
            Some((len, k)) => match decode_all(*elem, len as nat, s.skip(k as int), big_endian) {
                None => None,
                Some((items, m)) => Some((Value::Series(items), k + m)),
            },
        },
        Shape::Counted(n, inner) => match read_count(s) {
            None => None,
            Some((len, k)) => if len != n {
                None
            } else {
                match decode(*inner, s.skip(k as int), big_endian) {
                    None => None,
                    Some((x, m)) => Some((x, k + m)),
                }
            },
        },
        Shape::Struct(name, n, inner) => match read_struct(s, name) {
            None => None,
            Some((len, k)) => if len != n {
                None
            } else {
                match decode(*inner, s.skip(k as int), big_endian) {
                    None => None,
                    Some((x, m)) => Some((x, k + m)),
                }
            },
        },
        Shape::Enum(name, variants) => match read_variant(s, name, big_endian) {
            None => None,
            Some((kind, index, k)) => if index >= variants.len() {
                None
            } else {
                match variants[index as int] {
                    VariantShape::Unit => if kind == VariantKind::Unit {
                        Some((Value::Variant(index, Box::new(Value::Unit)), k))
                    } else {
                        None
                    },
                    VariantShape::Payload(inner) => if kind == VariantKind::NonUnit {
                        match decode(inner, s.skip(k as int), big_endian) {
                            None => None,
                            Some((x, m)) => Some((Value::Variant(index, Box::new(x)), k + m)),
                        }
                    } else {
                        None
                    },
                    VariantShape::Fields(n, inner) => if kind == VariantKind::Struct {
                        match read_count(s.skip(k as int)) {
                            None => None,
                            Some((len, c)) => if len != n {
                                None
                            } else {
                                match decode(inner, s.skip((k + c) as int), big_endian) {
                                    None => None,
                                    Some((x, m)) => Some(
                                        (Value::Variant(index, Box::new(x)), k + c + m),
                                    ),
                                }
                            },
                        }
                    } else {
                        None
                    },
                }
            },
        },
        _ => decode_plain(shape, s, big_endian),
    }
}

/// `n` values of `elem` read in a row from the start of `s`.
pub open spec fn decode_all(elem: Shape, n: nat, s: Seq<u8>, big_endian: bool) -> Option<
    (Seq<Value>, nat),
>
    decreases elem, n + 1,
{
    if n == 0 {
        Some((Seq::<Value>::empty(), 0))
    } else {
        match decode(elem, s, big_endian) {
            None => None,
            Some((x, k)) => match decode_all(elem, (n - 1) as nat, s.skip(k as int), big_endian) {
                None => None,
                Some((others, m)) => Some((seq![x] + others, k + m)),
            },
        }
    }
}

/// True when `shape` is one of the shapes without parts.
pub open spec fn is_plain(shape: Shape) -> bool {
    !(shape is Optional || shape is Pair || shape is Series || shape is Counted || shape is Struct
        || shape is Enum)
}

/// What `lemma_round_trip` states, for one value and what follows it.
pub open spec fn read_back(shape: Shape, v: Value, big_endian: bool, rest: Seq<u8>) -> bool {
    decode(shape, encode(shape, v, big_endian) + rest, big_endian) == Some(
        (v, encode(shape, v, big_endian).len()),
    )
}

/// What `lemma_truncated` states, for one value.
pub open spec fn cut_rejected(shape: Shape, v: Value, big_endian: bool) -> bool {
    encode(shape, v, big_endian).len() > 0 ==> decode(
        shape,
        encode(shape, v, big_endian).drop_last(),
        big_endian,
    ) is None
}

/// What the optional flag reads as.
proof fn lemma_flag_facts(tail: Seq<u8>)
    ensures
        read_flag(seq![SOME] + tail) == Some((true, 1nat)),
        read_flag(seq![NONE] + tail) == Some((false, 1nat)),
        read_flag(Seq::<u8>::empty()) is None,
{
    reveal(read_flag);
    lemma_option_round_trip(tail);
}

/// What a count reads as, whole and cut.
proof fn lemma_count_facts(n: usize, tail: Seq<u8>)
    ensures
        read_count(count_bytes(n as nat) + tail) == Some((n, count_bytes(n as nat).len())),
        read_count(count_bytes(n as nat).drop_last()) is None,
        count_bytes(n as nat).len() > 0,
{
    reveal(read_count);
    lemma_usize_round_trip(n, tail);
    lemma_usize_truncated(n);
    crate::common::lemma_count_round_trip(n as nat);
}

/// What a struct header reads as, whole and cut.
proof fn lemma_struct_facts(name: Seq<char>, n: usize, tail: Seq<u8>)
    requires
        encode_utf8(name).len() <= usize::MAX,
    ensures
        read_struct(encode_struct(name, n) + tail, name) == Some(
            (n, encode_struct(name, n).len()),
        ),
        read_struct(encode_struct(name, n).drop_last(), name) is None,
        encode_struct(name, n).len() > 0,
{
    reveal(read_struct);
    lemma_struct_round_trip(name, n, tail);
    lemma_struct_truncated(name, n);
}

/// What a unit variant's header reads as, whole and cut.
proof fn lemma_unit_variant_facts(index: u32, name: Seq<char>, big_endian: bool, tail: Seq<u8>)
    ensures
        read_variant(encode_unit_variant(index, big_endian) + tail, name, big_endian) == Some(
            (VariantKind::Unit, index, 5nat),
        ),
        read_variant(encode_unit_variant(index, big_endian).drop_last(), name, big_endian) is None,
        encode_unit_variant(index, big_endian).len() == 5,
{
    reveal(read_variant);
    lemma_unit_variant_round_trip(index, name, big_endian, tail);
    lemma_unit_variant_truncated(index, name, big_endian);
    lemma_u32_round_trip(index, big_endian, tail);
}

/// What the index of a newtype or tuple variant reads as, whole and cut.
proof fn lemma_payload_variant_facts(index: u32, name: Seq<char>, big_endian: bool, tail: Seq<u8>)
    requires
        encode_u32(index, big_endian)[0] != UNIT_VARIANT,
        encode_u32(index, big_endian)[0] != STRUCT_VARIANT,
    ensures
        read_variant(encode_u32(index, big_endian) + tail, name, big_endian) == Some(
            (VariantKind::NonUnit, index, 4nat),
        ),
        read_variant(encode_u32(index, big_endian).drop_last(), name, big_endian) is None,
        encode_u32(index, big_endian).len() == 4,
{
    reveal(read_variant);
    lemma_nonunit_variant_round_trip(index, name, big_endian, tail);
    lemma_u32_round_trip(index, big_endian, tail);
    let cut = encode_u32(index, big_endian).drop_last();
    assert(cut[0] == encode_u32(index, big_endian)[0]);
    assert(cut.len() == 3);
}

/// What a struct variant's header reads as: its name and index, then its
/// count, whole and with the count cut.
#[verifier::rlimit(50)]
proof fn lemma_fields_variant_facts(
    name: Seq<char>,
    index: u32,
    n: usize,
    big_endian: bool,
    tail: Seq<u8>,
)
    requires
        encode_utf8(name).len() <= usize::MAX,
    ensures
        ({
            let head = encode_struct_variant(name, index, n, big_endian);
            let k = (1 + encode_str(name).len() + 4) as nat;
            let c = count_bytes(n as nat).len();
            &&& head.len() == k + c
            &&& c > 0
            &&& read_variant(head + tail, name, big_endian) == Some((VariantKind::Struct, index, k))
            &&& read_count((head + tail).skip(k as int)) == Some((n, c))
            &&& read_variant(head.drop_last(), name, big_endian) == Some(
                (VariantKind::Struct, index, k),
            )
            &&& read_count(head.drop_last().skip(k as int)) is None
        }),
{
    reveal(read_variant);
    reveal(read_count);
    lemma_fields_header_len(name, index, n, big_endian);
    lemma_struct_variant_round_trip(name, index, n, big_endian, tail);
    lemma_struct_variant_count(name, index, n, big_endian, tail);
    lemma_fields_header_cut(name, index, n, big_endian);
    crate::common::lemma_count_round_trip(n as nat);
}

#[verifier::rlimit(50)]
proof fn lemma_plain_numbers_round_trip(shape: Shape, v: Value, big_endian: bool, rest: Seq<u8>)
    requires
        fits(v, shape, big_endian),
        shape is U16 || shape is U32 || shape is U64 || shape is U128 || shape is I16
            || shape is I32 || shape is I64 || shape is I128,
    ensures
        read_back(shape, v, big_endian, rest),
{
    reveal(encode_plain);
    reveal(decode_plain);
    match shape {
        Shape::U16 => {
            let x = v->U16_0;
            lemma_u16_round_trip(x, big_endian, rest);
        },
        Shape::U32 => {
            let x = v->U32_0;
            lemma_u32_round_trip(x, big_endian, rest);
        },
        Shape::U64 => {
            let x = v->U64_0;
            lemma_u64_round_trip(x, big_endian, rest);
        },
        Shape::U128 => {
            let x = v->U128_0;
            lemma_u128_round_trip(x, big_endian, rest);
        },
        Shape::I16 => {
            let x = v->I16_0;
            lemma_i16_round_trip(x, big_endian, rest);
        },
        Shape::I32 => {
            let x = v->I32_0;
            lemma_i32_round_trip(x, big_endian, rest);
        },
        Shape::I64 => {
            let x = v->I64_0;
            lemma_i64_round_trip(x, big_endian, rest);
        },
        Shape::I128 => {
            let x = v->I128_0;
            lemma_i128_round_trip(x, big_endian, rest);
        },
        _ => {},
    }
}

#[verifier::rlimit(50)]
proof fn lemma_plain_round_trip(shape: Shape, v: Value, big_endian: bool, rest: Seq<u8>)
    requires
        fits(v, shape, big_endian),
        is_plain(shape),
    ensures
        read_back(shape, v, big_endian, rest),
{
    reveal(encode_plain);
    reveal(decode_plain);
    match shape {
        Shape::Bool => {
            let x = v->Bool_0;
            lemma_bool_round_trip(x, rest);
        },
        Shape::U8 => {
            let x = v->U8_0;
            lemma_u8_round_trip(x, rest);
        },
        Shape::I8 => {
            let x = v->I8_0;
            lemma_i8_round_trip(x, rest);
        },
        Shape::Char => {
            let x = v->Char_0;
            lemma_char_round_trip(x, rest);
        },
        Shape::Str => {
            let x = v->Str_0;
            lemma_str_round_trip(x, rest);
        },
        Shape::Bytes => {
            let x = v->Bytes_0;
            lemma_bytes_round_trip(x, rest);
        },
        Shape::Unit => {
            assert(encode(shape, v, big_endian).len() == 0);
        },
        _ => {
            lemma_plain_numbers_round_trip(shape, v, big_endian, rest);
        },
    }
}

proof fn lemma_optional_round_trip(inner: Shape, v: Value, big_endian: bool, rest: Seq<u8>)
    requires
        v is Absent || v is Present,
        v is Present ==> read_back(inner, *v->Present_0, big_endian, rest),
    ensures
        read_back(Shape::Optional(Box::new(inner)), v, big_endian, rest),
{
    let shape = Shape::Optional(Box::new(inner));
    let s = encode(shape, v, big_endian) + rest;
    if v is Present {
        let tail = encode(inner, *v->Present_0, big_endian) + rest;
        assert(s =~= seq![SOME] + tail);
        lemma_flag_facts(tail);
        assert(s.skip(1) =~= tail);
    } else {
        lemma_flag_facts(rest);
    }
}

proof fn lemma_pair_parts_round_trip(
    a: Shape,
    b: Shape,
    x: Value,
    y: Value,
    big_endian: bool,
    rest: Seq<u8>,
)
    requires
        read_back(a, x, big_endian, encode(b, y, big_endian) + rest),
        read_back(b, y, big_endian, rest),
    ensures
        read_back(
            Shape::Pair(Box::new(a), Box::new(b)),
            Value::Pair(Box::new(x), Box::new(y)),
            big_endian,
            rest,
        ),
{
    let shape = Shape::Pair(Box::new(a), Box::new(b));
    let v = Value::Pair(Box::new(x), Box::new(y));
    let s = encode(shape, v, big_endian) + rest;
    let tail = encode(b, y, big_endian) + rest;
    assert(s =~= encode(a, x, big_endian) + tail);
    assert(s.skip(encode(a, x, big_endian).len() as int) =~= tail);
}

proof fn lemma_series_parts_round_trip(
    elem: Shape,
    items: Seq<Value>,
    big_endian: bool,
    rest: Seq<u8>,
)
    requires
        items.len() <= usize::MAX,
        decode_all(elem, items.len(), encode_all(elem, items, big_endian) + rest, big_endian)
            == Some((items, encode_all(elem, items, big_endian).len())),
    ensures
        read_back(Shape::Series(Box::new(elem)), Value::Series(items), big_endian, rest),
{
    let shape = Shape::Series(Box::new(elem));
    let s = encode(shape, Value::Series(items), big_endian) + rest;
    let head = count_bytes(items.len());
    let tail = encode_all(elem, items, big_endian) + rest;
    assert(s =~= head + tail);
    lemma_count_facts(items.len() as usize, tail);
    assert(s.skip(head.len() as int) =~= tail);
}

proof fn lemma_counted_round_trip(n: usize, inner: Shape, v: Value, big_endian: bool, rest: Seq<u8>)
    requires
        read_back(inner, v, big_endian, rest),
    ensures
        read_back(Shape::Counted(n, Box::new(inner)), v, big_endian, rest),
{
    let shape = Shape::Counted(n, Box::new(inner));
    let s = encode(shape, v, big_endian) + rest;
    let head = count_bytes(n as nat);
    let tail = encode(inner, v, big_endian) + rest;
    assert(s =~= head + tail);
    lemma_count_facts(n, tail);
    assert(s.skip(head.len() as int) =~= tail);
}

proof fn lemma_struct_parts_round_trip(
    name: Seq<char>,
    n: usize,
    inner: Shape,
    v: Value,
    big_endian: bool,
    rest: Seq<u8>,
)
    requires
        encode_utf8(name).len() <= usize::MAX,
        read_back(inner, v, big_endian, rest),
    ensures
        read_back(Shape::Struct(name, n, Box::new(inner)), v, big_endian, rest),
{
    let shape = Shape::Struct(name, n, Box::new(inner));
    let s = encode(shape, v, big_endian) + rest;
    let head = encode_struct(name, n);
    let tail = encode(inner, v, big_endian) + rest;
    assert(s =~= head + tail);
    lemma_struct_facts(name, n, tail);
    assert(s.skip(head.len() as int) =~= tail);
}

proof fn lemma_unit_variant_value_round_trip(
    name: Seq<char>,
    variants: Seq<VariantShape>,
    index: u32,
    big_endian: bool,
    rest: Seq<u8>,
)
    requires
        index < variants.len(),
        variants[index as int] is Unit,
    ensures
        read_back(
            Shape::Enum(name, variants),
            Value::Variant(index, Box::new(Value::Unit)),
            big_endian,
            rest,
        ),
{
    lemma_unit_variant_facts(index, name, big_endian, rest);
}

proof fn lemma_payload_variant_round_trip(
    name: Seq<char>,
    variants: Seq<VariantShape>,
    index: u32,
    x: Value,
    big_endian: bool,
    rest: Seq<u8>,
)
    requires
        index < variants.len(),
        variants[index as int] is Payload,
        encode_u32(index, big_endian)[0] != UNIT_VARIANT,
        encode_u32(index, big_endian)[0] != STRUCT_VARIANT,
        read_back(variants[index as int]->Payload_0, x, big_endian, rest),
    ensures
        read_back(Shape::Enum(name, variants), Value::Variant(index, Box::new(x)), big_endian, rest),
{
    let inner = variants[index as int]->Payload_0;
    let shape = Shape::Enum(name, variants);
    let s = encode(shape, Value::Variant(index, Box::new(x)), big_endian) + rest;
    let tail = encode(inner, x, big_endian) + rest;
    assert(s =~= encode_u32(index, big_endian) + tail);
    lemma_payload_variant_facts(index, name, big_endian, tail);
    assert(s.skip(4) =~= tail);
}

proof fn lemma_fields_variant_round_trip(
    name: Seq<char>,
    variants: Seq<VariantShape>,
    index: u32,
    x: Value,
    big_endian: bool,
    rest: Seq<u8>,
)
    requires
        index < variants.len(),
        variants[index as int] is Fields,
        encode_utf8(name).len() <= usize::MAX,
        read_back(variants[index as int]->Fields_1, x, big_endian, rest),
    ensures
        read_back(Shape::Enum(name, variants), Value::Variant(index, Box::new(x)), big_endian, rest),
{
    let n = variants[index as int]->Fields_0;
    let inner = variants[index as int]->Fields_1;
    let shape = Shape::Enum(name, variants);
    let head = encode_struct_variant(name, index, n, big_endian);
    let s = encode(shape, Value::Variant(index, Box::new(x)), big_endian) + rest;
    let tail = encode(inner, x, big_endian) + rest;
    assert(s =~= head + tail);
    lemma_fields_variant_facts(name, index, n, big_endian, tail);
    assert(s.skip(head.len() as int) =~= tail);
}

/// The header of a struct variant is its marker, name and index, then the
/// count of its fields.
proof fn lemma_fields_header_len(name: Seq<char>, index: u32, n: usize, big_endian: bool)
    ensures
        encode_struct_variant(name, index, n, big_endian).len() == 1 + encode_str(name).len() + 4
            + count_bytes(n as nat).len(),
{
    lemma_u32_round_trip(index, big_endian, Seq::<u8>::empty());
}

/// Decoding gives back what was encoded: every value that fits its shape is
/// read back from its wire form under that shape and the same byte order,
/// whatever follows it, and the reading takes exactly the wire form.
#[verifier::rlimit(50)]
pub proof fn lemma_round_trip(shape: Shape, v: Value, big_endian: bool, rest: Seq<u8>)
    requires
        fits(v, shape, big_endian),
    ensures
        decode(shape, encode(shape, v, big_endian) + rest, big_endian) == Some(
            (v, encode(shape, v, big_endian).len()),
        ),
    decreases shape, 0nat,
{
    match shape {
        Shape::Optional(inner) => {
            if v is Present {
                lemma_round_trip(*inner, *v->Present_0, big_endian, rest);
            }
            lemma_optional_round_trip(*inner, v, big_endian, rest);
        },
        Shape::Pair(a, b) => {
            let x = *v->Pair_0;
            let y = *v->Pair_1;
            lemma_round_trip(*a, x, big_endian, encode(*b, y, big_endian) + rest);
            lemma_round_trip(*b, y, big_endian, rest);
            lemma_pair_parts_round_trip(*a, *b, x, y, big_endian, rest);
        },
        Shape::Series(elem) => {
            lemma_all_round_trip(*elem, v->Series_0, big_endian, rest);
            lemma_series_parts_round_trip(*elem, v->Series_0, big_endian, rest);
        },
        Shape::Counted(n, inner) => {
            lemma_round_trip(*inner, v, big_endian, rest);
            lemma_counted_round_trip(n, *inner, v, big_endian, rest);
        },
        Shape::Struct(name, n, inner) => {
            lemma_round_trip(*inner, v, big_endian, rest);
            lemma_struct_parts_round_trip(name, n, *inner, v, big_endian, rest);
        },
        Shape::Enum(name, variants) => {
            let index = v->Variant_0;
            let x = *v->Variant_1;
            match variants[index as int] {
                VariantShape::Unit => {
                    lemma_unit_variant_value_round_trip(name, variants, index, big_endian, rest);
                },
                VariantShape::Payload(inner) => {
                    lemma_round_trip(inner, x, big_endian, rest);
                    lemma_payload_variant_round_trip(name, variants, index, x, big_endian, rest);
                },
                VariantShape::Fields(_, inner) => {
                    lemma_round_trip(inner, x, big_endian, rest);
                    lemma_fields_variant_round_trip(name, variants, index, x, big_endian, rest);
                },
            }
        },
        _ => {
            lemma_plain_round_trip(shape, v, big_endian, rest);
        },
    }
}

/// The values of a series are read back from their wire forms in a row.
pub proof fn lemma_all_round_trip(elem: Shape, items: Seq<Value>, big_endian: bool, rest: Seq<u8>)
    requires
        fits_all(items, elem, big_endian),
    ensures
        decode_all(elem, items.len(), encode_all(elem, items, big_endian) + rest, big_endian)
            == Some((items, encode_all(elem, items, big_endian).len())),
    decreases elem, items.len() + 1,
{
    if items.len() == 0 {
        assert(items =~= Seq::<Value>::empty());
    } else {
        let first = encode(elem, items[0], big_endian);
        let tail = encode_all(elem, items.drop_first(), big_endian) + rest;
        let s = encode_all(elem, items, big_endian) + rest;
        assert(s =~= first + tail);
        lemma_round_trip(elem, items[0], big_endian, tail);
        assert(s.skip(first.len() as int) =~= tail);
        lemma_all_round_trip(elem, items.drop_first(), big_endian, rest);
        assert(seq![items[0]] + items.drop_first() =~= items);
    }
}

#[verifier::rlimit(50)]
proof fn lemma_plain_numbers_truncated(shape: Shape, v: Value, big_endian: bool)
    requires
        fits(v, shape, big_endian),
        shape is U16 || shape is U32 || shape is U64 || shape is U128 || shape is I16
            || shape is I32 || shape is I64 || shape is I128,
    ensures
        cut_rejected(shape, v, big_endian),
{
    reveal(encode_plain);
    reveal(decode_plain);
    match shape {
        Shape::U16 => {
            lemma_typed_number_truncated(v->U16_0 as u128, big_endian);
        },
        Shape::U32 => {
            lemma_typed_number_truncated(v->U32_0 as u128, big_endian);
        },
        Shape::U64 => {
            lemma_typed_number_truncated(v->U64_0 as u128, big_endian);
        },
        Shape::U128 => {
            lemma_typed_number_truncated(v->U128_0, big_endian);
        },
        Shape::I16 => {
            let x = v->I16_0;
            assert((((x as u16) as u128) as i16) == x) by (bit_vector);
            lemma_typed_number_truncated((x as u16) as u128, big_endian);
        },
        Shape::I32 => {
            let x = v->I32_0;
            assert((((x as u32) as u128) as i32) == x) by (bit_vector);
            lemma_typed_number_truncated((x as u32) as u128, big_endian);
        },
        Shape::I64 => {
            let x = v->I64_0;
            assert((((x as u64) as u128) as i64) == x) by (bit_vector);
            lemma_typed_number_truncated((x as u64) as u128, big_endian);
        },
        Shape::I128 => {
            let x = v->I128_0;
            assert(((x as u128) as i128) == x) by (bit_vector);
            lemma_typed_number_truncated(x as u128, big_endian);
        },
        _ => {},
    }
}

#[verifier::rlimit(50)]
proof fn lemma_plain_truncated(shape: Shape, v: Value, big_endian: bool)
    requires
        fits(v, shape, big_endian),
        is_plain(shape),
    ensures
        cut_rejected(shape, v, big_endian),
{
    reveal(encode_plain);
    reveal(decode_plain);
    match shape {
        Shape::Bool => {},
        Shape::U8 => {},
        Shape::I8 => {},
        Shape::Unit => {},
        Shape::Char => {
            lemma_char_truncated(v->Char_0);
        },
        Shape::Str => {
            lemma_str_truncated(v->Str_0);
        },
        Shape::Bytes => {
            lemma_bytes_truncated(v->Bytes_0);
        },
        _ => {
            lemma_plain_numbers_truncated(shape, v, big_endian);
        },
    }
}

proof fn lemma_optional_truncated(inner: Shape, v: Value, big_endian: bool)
    requires
        v is Absent || v is Present,
        v is Present ==> cut_rejected(inner, *v->Present_0, big_endian),
    ensures
        cut_rejected(Shape::Optional(Box::new(inner)), v, big_endian),
{
    let shape = Shape::Optional(Box::new(inner));
    let cut = encode(shape, v, big_endian).drop_last();
    if v is Present {
        let body = encode(inner, *v->Present_0, big_endian);
        if body.len() == 0 {
            assert(cut =~= Seq::<u8>::empty());
            lemma_flag_facts(cut);
        } else {
            assert(cut =~= seq![SOME] + body.drop_last());
            lemma_flag_facts(body.drop_last());
            assert(cut.skip(1) =~= body.drop_last());
        }
    } else {
        assert(cut =~= Seq::<u8>::empty());
        lemma_flag_facts(cut);
    }
}

proof fn lemma_pair_parts_truncated(a: Shape, b: Shape, x: Value, y: Value, big_endian: bool)
    requires
        cut_rejected(a, x, big_endian),
        cut_rejected(b, y, big_endian),
        encode(b, y, big_endian).len() > 0 ==> read_back(
            a,
            x,
            big_endian,
            encode(b, y, big_endian).drop_last(),
        ),
    ensures
        cut_rejected(
            Shape::Pair(Box::new(a), Box::new(b)),
            Value::Pair(Box::new(x), Box::new(y)),
            big_endian,
        ),
{
    let shape = Shape::Pair(Box::new(a), Box::new(b));
    let v = Value::Pair(Box::new(x), Box::new(y));
    let first = encode(a, x, big_endian);
    let second = encode(b, y, big_endian);
    if encode(shape, v, big_endian).len() > 0 {
        let cut = encode(shape, v, big_endian).drop_last();
        if second.len() == 0 {
            assert(cut =~= first.drop_last());
        } else {
            assert(cut =~= first + second.drop_last());
            assert(cut.skip(first.len() as int) =~= second.drop_last());
        }
    }
}

proof fn lemma_series_parts_truncated(elem: Shape, items: Seq<Value>, big_endian: bool)
    requires
        items.len() <= usize::MAX,
        encode_all(elem, items, big_endian).len() > 0 ==> decode_all(
            elem,
            items.len(),
            encode_all(elem, items, big_endian).drop_last(),
            big_endian,
        ) is None,
    ensures
        cut_rejected(Shape::Series(Box::new(elem)), Value::Series(items), big_endian),
{
    let shape = Shape::Series(Box::new(elem));
    let cut = encode(shape, Value::Series(items), big_endian).drop_last();
    let head = count_bytes(items.len());
    let body = encode_all(elem, items, big_endian);
    if body.len() == 0 {
        assert(cut =~= head.drop_last());
        lemma_count_facts(items.len() as usize, body);
    } else {
        assert(cut =~= head + body.drop_last());
        lemma_count_facts(items.len() as usize, body.drop_last());
        assert(cut.skip(head.len() as int) =~= body.drop_last());
    }
}

proof fn lemma_counted_truncated(n: usize, inner: Shape, v: Value, big_endian: bool)
    requires
        cut_rejected(inner, v, big_endian),
    ensures
        cut_rejected(Shape::Counted(n, Box::new(inner)), v, big_endian),
{
    let shape = Shape::Counted(n, Box::new(inner));
    let cut = encode(shape, v, big_endian).drop_last();
    let head = count_bytes(n as nat);
    let body = encode(inner, v, big_endian);
    if body.len() == 0 {
        assert(cut =~= head.drop_last());
        lemma_count_facts(n, body);
    } else {
        assert(cut =~= head + body.drop_last());
        lemma_count_facts(n, body.drop_last());
        assert(cut.skip(head.len() as int) =~= body.drop_last());
    }
}

proof fn lemma_struct_parts_truncated(
    name: Seq<char>,
    n: usize,
    inner: Shape,
    v: Value,
    big_endian: bool,
)
    requires
        encode_utf8(name).len() <= usize::MAX,
        cut_rejected(inner, v, big_endian),
    ensures
        cut_rejected(Shape::Struct(name, n, Box::new(inner)), v, big_endian),
{
    let shape = Shape::Struct(name, n, Box::new(inner));
    let cut = encode(shape, v, big_endian).drop_last();
    let head = encode_struct(name, n);
    let body = encode(inner, v, big_endian);
    if body.len() == 0 {
        assert(cut =~= head.drop_last());
        lemma_struct_facts(name, n, body);
    } else {
        assert(cut =~= head + body.drop_last());
        lemma_struct_facts(name, n, body.drop_last());
        assert(cut.skip(head.len() as int) =~= body.drop_last());
    }
}

proof fn lemma_unit_variant_value_truncated(
    name: Seq<char>,
    variants: Seq<VariantShape>,
    index: u32,
    big_endian: bool,
)
    requires
        index < variants.len(),
        variants[index as int] is Unit,
    ensures
        cut_rejected(
            Shape::Enum(name, variants),
            Value::Variant(index, Box::new(Value::Unit)),
            big_endian,
        ),
{
    lemma_unit_variant_facts(index, name, big_endian, Seq::<u8>::empty());
}

proof fn lemma_payload_variant_truncated(
    name: Seq<char>,
    variants: Seq<VariantShape>,
    index: u32,
    x: Value,
    big_endian: bool,
)
    requires
        index < variants.len(),
        variants[index as int] is Payload,
        encode_u32(index, big_endian)[0] != UNIT_VARIANT,
        encode_u32(index, big_endian)[0] != STRUCT_VARIANT,
        cut_rejected(variants[index as int]->Payload_0, x, big_endian),
    ensures
        cut_rejected(Shape::Enum(name, variants), Value::Variant(index, Box::new(x)), big_endian),
{
    let inner = variants[index as int]->Payload_0;
    let shape = Shape::Enum(name, variants);
    let head = encode_u32(index, big_endian);
    let body = encode(inner, x, big_endian);
    let cut = encode(shape, Value::Variant(index, Box::new(x)), big_endian).drop_last();
    if body.len() == 0 {
        assert(cut =~= head.drop_last());
        lemma_payload_variant_facts(index, name, big_endian, body);
    } else {
        assert(cut =~= head + body.drop_last());
        lemma_payload_variant_facts(index, name, big_endian, body.drop_last());
        assert(cut.skip(4) =~= body.drop_last());
    }
}

proof fn lemma_fields_variant_truncated(
    name: Seq<char>,
    variants: Seq<VariantShape>,
    index: u32,
    x: Value,
    big_endian: bool,
)
    requires
        index < variants.len(),
        variants[index as int] is Fields,
        encode_utf8(name).len() <= usize::MAX,
        cut_rejected(variants[index as int]->Fields_1, x, big_endian),
    ensures
        cut_rejected(Shape::Enum(name, variants), Value::Variant(index, Box::new(x)), big_endian),
{
    let n = variants[index as int]->Fields_0;
    let inner = variants[index as int]->Fields_1;
    let shape = Shape::Enum(name, variants);
    let head = encode_struct_variant(name, index, n, big_endian);
    let body = encode(inner, x, big_endian);
    let cut = encode(shape, Value::Variant(index, Box::new(x)), big_endian).drop_last();
    if body.len() == 0 {
        assert(cut =~= head.drop_last());
        lemma_fields_variant_facts(name, index, n, big_endian, body);
    } else {
        assert(cut =~= head + body.drop_last());
        lemma_fields_variant_facts(name, index, n, big_endian, body.drop_last());
        assert(cut.skip(head.len() as int) =~= body.drop_last());
    }
}

/// A struct variant's header whose count lost its last byte: the name and
/// index are still read, the count no longer.
#[verifier::rlimit(50)]
proof fn lemma_fields_header_cut(name: Seq<char>, index: u32, n: usize, big_endian: bool)
    requires
        encode_utf8(name).len() <= usize::MAX,
    ensures
        ({
            let cut = encode_struct_variant(name, index, n, big_endian).drop_last();
            let k = 1 + encode_str(name).len() + 4;
            &&& decode_enum(cut, name, big_endian) == EnumHeader::Variant(
                VariantKind::Struct,
                index,
                k as nat,
            )
            &&& decode_count(cut.skip(k as int)) is Err
        }),
{
    let head = encode_struct_variant(name, index, n, big_endian);
    let cut = head.drop_last();
    let short = count_bytes(n as nat).drop_last();
    let after_name = encode_u32(index, big_endian) + short;
    let k = 1 + encode_str(name).len() + 4;
    lemma_fields_header_len(name, index, n, big_endian);
    crate::common::lemma_count_round_trip(n as nat);
    assert(cut =~= seq![STRUCT_VARIANT] + (encode_str(name) + after_name));
    assert(cut[0] == STRUCT_VARIANT);
    assert(cut.skip(1) =~= encode_str(name) + after_name);
    lemma_str_round_trip(name, after_name);
    assert(cut.skip(1 + encode_str(name).len() as int) =~= after_name);
    lemma_u32_round_trip(index, big_endian, short);
    assert(cut.skip(k as int) =~= short);
    lemma_usize_truncated(n);
}

/// A cut wire form is rejected: the wire form of a value that fits its
/// shape, without its last byte, no longer decodes under that shape.
#[verifier::rlimit(50)]
pub proof fn lemma_truncated(shape: Shape, v: Value, big_endian: bool)
    requires
        fits(v, shape, big_endian),
        encode(shape, v, big_endian).len() > 0,
    ensures
        decode(shape, encode(shape, v, big_endian).drop_last(), big_endian) is None,
    decreases shape, 0nat,
{
    match shape {
        Shape::Optional(inner) => {
            if v is Present && encode(*inner, *v->Present_0, big_endian).len() > 0 {
                lemma_truncated(*inner, *v->Present_0, big_endian);
            }
            lemma_optional_truncated(*inner, v, big_endian);
        },
        Shape::Pair(a, b) => {
            let x = *v->Pair_0;
            let y = *v->Pair_1;
            if encode(*a, x, big_endian).len() > 0 {
                lemma_truncated(*a, x, big_endian);
            }
            if encode(*b, y, big_endian).len() > 0 {
                lemma_truncated(*b, y, big_endian);
                lemma_round_trip(*a, x, big_endian, encode(*b, y, big_endian).drop_last());
            }
            lemma_pair_parts_truncated(*a, *b, x, y, big_endian);
        },
        Shape::Series(elem) => {
            if encode_all(*elem, v->Series_0, big_endian).len() > 0 {
                lemma_all_truncated(*elem, v->Series_0, big_endian);
            }
            lemma_series_parts_truncated(*elem, v->Series_0, big_endian);
        },
        Shape::Counted(n, inner) => {
            if encode(*inner, v, big_endian).len() > 0 {
                lemma_truncated(*inner, v, big_endian);
            }
            lemma_counted_truncated(n, *inner, v, big_endian);
        },
        Shape::Struct(name, n, inner) => {
            if encode(*inner, v, big_endian).len() > 0 {
                lemma_truncated(*inner, v, big_endian);
            }
            lemma_struct_parts_truncated(name, n, *inner, v, big_endian);
        },
        Shape::Enum(name, variants) => {
            let index = v->Variant_0;
            let x = *v->Variant_1;
            match variants[index as int] {
                VariantShape::Unit => {
                    lemma_unit_variant_value_truncated(name, variants, index, big_endian);
                },
                VariantShape::Payload(inner) => {
                    if encode(inner, x, big_endian).len() > 0 {
                        lemma_truncated(inner, x, big_endian);
                    }
                    lemma_payload_variant_truncated(name, variants, index, x, big_endian);
                },
                VariantShape::Fields(_, inner) => {
                    if encode(inner, x, big_endian).len() > 0 {
                        lemma_truncated(inner, x, big_endian);
                    }
                    lemma_fields_variant_truncated(name, variants, index, x, big_endian);
                },
            }
        },
        _ => {
            lemma_plain_truncated(shape, v, big_endian);
        },
    }
}

/// The wire forms of a series' values in a row, without the last byte, no
/// longer decode as that many values.
pub proof fn lemma_all_truncated(elem: Shape, items: Seq<Value>, big_endian: bool)
    requires
        fits_all(items, elem, big_endian),
        encode_all(elem, items, big_endian).len() > 0,
    ensures
        decode_all(elem, items.len(), encode_all(elem, items, big_endian).drop_last(), big_endian)
            is None,
    decreases elem, items.len() + 1,
{
    let first = encode(elem, items[0], big_endian);
    let others = encode_all(elem, items.drop_first(), big_endian);
    let cut = encode_all(elem, items, big_endian).drop_last();
    if others.len() == 0 {
        assert(cut =~= first.drop_last());
        lemma_truncated(elem, items[0], big_endian);
    } else {
        assert(cut =~= first + others.drop_last());
        lemma_round_trip(elem, items[0], big_endian, others.drop_last());
        assert(cut.skip(first.len() as int) =~= others.drop_last());
        lemma_all_truncated(elem, items.drop_first(), big_endian);
    }
}

} // verus!
