use serde_binary_adv::common::{
    compress, compress_usize, decompress, decompress_usize, COUNT_LIMIT, NONE, NONUNIT_VARIANT,
    SOME, STRUCT, STRUCT_VARIANT, UNIT_VARIANT,
};
use serde_binary_adv::de::{BinarySeries, VariantKind};
use serde_binary_adv::{BinaryError, Deserializer, Serializer};

fn check_t(value: u128) {
    let encoded: Vec<u8> = compress(value);
    let decoded: u128 = decompress(&encoded).unwrap();
    assert_eq!(value, decoded);
}

fn check_usize(value: usize) {
    let encoded = compress_usize(value);
    let decoded = decompress_usize(&encoded).unwrap();
    assert_eq!(value, decoded);
}

fn samples() -> Vec<u64> {
    vec![
        0x7F,
        0x80,
        0xFF,
        0x100,
        0x101,
        0xFFF,
        0x1000,
        0x1010,
        0xFFFFF,
        0x100000,
        0x101010,
        0xFFFFFF,
        0x1000000,
        0x1010101,
        0xFFFFFFF,
        0x10000000,
        0x10101010,
        0xFFFFFFFF,
        0x1000000000,
        0x1010101010,
        0xFFFFFFFFFF,
        0x10000000000,
        0x10101010101,
        0xFFFFFFFFFFF,
        0x100000000000,
        0x101010101010,
        0xFFFFFFFFFFFF,
        0x1000000000000,
        0x1010101010101,
        0xFFFFFFFFFFFFF,
        0x10000000000000,
        0x10101010101010,
        0xFFFFFFFFFFFFFF,
        0x100000000000000,
        0x101010101010101,
        0xFFFFFFFFFFFFFFF,
        0x1000000000000000,
    ]
}

#[test]
fn test_values() {
    assert_eq!(NONE, 0x00);
    assert_eq!(SOME, 0xFF);
    assert_eq!(UNIT_VARIANT, 0xFE);
    assert_eq!(NONUNIT_VARIANT, 0xFD);
    assert_eq!(STRUCT_VARIANT, 0xFC);
    assert_eq!(STRUCT, 0xFD);
}

#[test]
fn test_usize_compress_min() {
    check_usize(0x00);
}

#[test]
fn test_compress_usize_max() {
    check_usize(usize::MAX);
}

#[test]
fn test_compress_usize_var() {
    for t in samples() {
        check_usize(t as usize);
    }
}

#[test]
fn test_compress_t_min() {
    check_t(0x00);
}

#[test]
fn test_compress_t_max() {
    check_t(u64::MAX as u128);
}

#[test]
fn test_compress_t_var() {
    for t in samples() {
        check_t(t as u128);
    }
}

#[test]
fn test_decompress_empty() {
    assert!(decompress_usize(&[]).is_err());
}

#[test]
fn test_decompress_too_small() {
    assert!(decompress_usize(&[0x80]).is_err());
    assert!(decompress_usize(&[0xFF, 0xFF]).is_err());
}

#[test]
fn count_exact_bytes() {
    assert_eq!(compress_usize(0), vec![0x00]);
    assert_eq!(compress_usize(1), vec![0x01]);
    assert_eq!(compress_usize(127), vec![0x7F]);
    assert_eq!(compress_usize(128), vec![0x80, 0x01]);
    assert_eq!(compress_usize(255), vec![0xFF, 0x01]);
    assert_eq!(compress_usize(256), vec![0x80, 0x02]);
    assert_eq!(compress_usize(4095), vec![0xFF, 0x1F]);
    assert_eq!(compress_usize(4096), vec![0x80, 0x20, 0x01]);
    assert_eq!(compress_usize(0x12345), vec![0xC5, 0x26, 0x12]);
    assert_eq!(compress(COUNT_LIMIT - 1).len(), 9);
    assert_eq!(
        compress(COUNT_LIMIT - 1),
        vec![0xFF, 0xFF, 0xFF, 0xFF, 0xFF, 0xFF, 0xFF, 0xFF, 0xFF]
    );
    assert_eq!(decompress(&compress(COUNT_LIMIT - 1)), Ok(COUNT_LIMIT - 1));
}

#[test]
fn count_length_is_one_up_to_127() {
    let mut n: usize = 0;
    while n < 5000 {
        assert_eq!(compress_usize(n).len() == 1, n <= 127);
        check_usize(n);
        n += 1;
    }
    let mut p: usize = 1;
    while p <= 1usize << 60 {
        check_usize(p);
        check_usize(p - 1);
        assert_eq!(compress_usize(p).len() == 1, p <= 127);
        p <<= 1;
    }
}

#[test]
fn count_decode_errors() {
    let word = std::mem::size_of::<usize>();
    assert_eq!(
        decompress_usize(&[]),
        Err(BinaryError::InvalidLength { actual: 0, expected: word })
    );
    assert_eq!(
        decompress_usize(&[0x80]),
        Err(BinaryError::InvalidLength { actual: 1, expected: word })
    );
    assert_eq!(
        decompress_usize(&[0xFF, 0xFF]),
        Err(BinaryError::InvalidLength { actual: 2, expected: word })
    );
    assert_eq!(
        decompress(&[]),
        Err(BinaryError::InvalidLength { actual: 0, expected: word })
    );
    assert_eq!(
        decompress(&[0x80]),
        Err(BinaryError::InvalidLength { actual: 1, expected: 2 })
    );
    assert_eq!(
        decompress(&[0xFF, 0xFF]),
        Err(BinaryError::InvalidLength { actual: 2, expected: 9 })
    );
    assert_eq!(decompress(&[0x05, 0xAA]), Ok(5));
    assert_eq!(decompress_usize(&[0x80, 0x20, 0x01, 0x99]), Ok(4096));
}

#[test]
fn serde_binary_adv_test_bad_char() {
    assert!(Deserializer::new(&vec![0x80 as u8], false).deserialize_char().is_err());
    assert!(Deserializer::new(&vec![0xC0 as u8, 0x00 as u8], false).deserialize_char().is_err());
    assert!(Deserializer::new(&vec![], false).deserialize_char().is_err());
}

#[test]
fn bad_char_kinds() {
    for b in 0x80..=0xBFu8 {
        assert_eq!(
            Deserializer::new(&vec![b, 0x80, 0x80, 0x80], false).deserialize_char(),
            Err(BinaryError::InvalidBytes)
        );
    }
    assert_eq!(
        Deserializer::new(&vec![0xC0, 0x00], false).deserialize_char(),
        Err(BinaryError::InvalidBytes)
    );
    assert_eq!(
        Deserializer::new(&vec![0xFF, 0x80, 0x80, 0x80], false).deserialize_char(),
        Err(BinaryError::InvalidBytes)
    );
    assert_eq!(
        Deserializer::new(&vec![0xE0, 0x80], false).deserialize_char(),
        Err(BinaryError::UnexpectedEndOfInput)
    );
    assert_eq!(
        Deserializer::new(&vec![], false).deserialize_char(),
        Err(BinaryError::UnexpectedEndOfInput)
    );
}

#[test]
fn binaryerror_test_display() {
    test_display_specific(
        BinaryError::Message {
            message: String::from("this is a test"),
        },
        "this is a test",
    );
    test_display_specific(BinaryError::InvalidBytes, "invalid byte sequence");
    test_display_specific(BinaryError::UnexpectedEndOfInput, "unexpected end of input");
    test_display_specific(BinaryError::UnexpectedType, "unexpected type");
    test_display_specific(BinaryError::UnexpectedEndOfInput, "unexpected end of input");
    test_display_specific(
        BinaryError::InvalidLength {
            actual: 2,
            expected: 1,
        },
        "invalid length, actual 2, expected 1",
    );
    test_display_specific(
        BinaryError::InvalidName {
            actual: String::from("actual"),
            expected: String::from("expected"),
        },
        "invalid name, actual actual, expected expected",
    );
    test_display_specific(
        BinaryError::MissingOrInvalidFlag {
            actual: 0xff,
            expected: 0x80,
        },
        "missing or invalid type flag, actual 0xFF, expected 0x80",
    );
}

fn test_display_specific(error: BinaryError, expected: &str) {
    assert_eq!(error.to_string(), expected);
}

#[test]
fn test_error() {
    let e = BinaryError::custom("test");
    test_display_specific(e, "test");
}

#[test]
fn error_text_of_numbers() {
    test_display_specific(
        BinaryError::MissingOrInvalidFlag { actual: 0x0A, expected: 0x00 },
        "missing or invalid type flag, actual 0xA, expected 0x0",
    );
    test_display_specific(
        BinaryError::InvalidLength { actual: 1234567890, expected: 0 },
        "invalid length, actual 1234567890, expected 0",
    );
}

fn encoded(big_endian: bool, write: fn(&mut Serializer)) -> Vec<u8> {
    let mut s = Serializer::new(big_endian);
    write(&mut s);
    s.into_bytes()
}

#[test]
fn wire_bytes_of_primitives() {
    assert_eq!(encoded(false, |s| s.serialize_bool(true).unwrap()), vec![0x01]);
    assert_eq!(encoded(false, |s| s.serialize_bool(false).unwrap()), vec![0x00]);
    assert_eq!(encoded(false, |s| s.serialize_u8(0x41).unwrap()), vec![0x41]);
    assert_eq!(encoded(false, |s| s.serialize_i8(-1).unwrap()), vec![0xFF]);
    assert_eq!(encoded(false, |s| s.serialize_u16(0x1234).unwrap()), vec![0x34, 0x12]);
    assert_eq!(encoded(true, |s| s.serialize_u16(0x1234).unwrap()), vec![0x12, 0x34]);
    assert_eq!(encoded(false, |s| s.serialize_u32(0x41).unwrap()), vec![0x41, 0, 0, 0]);
    assert_eq!(
        encoded(false, |s| s.serialize_u32(0x12345678).unwrap()),
        vec![0x78, 0x56, 0x34, 0x12]
    );
    assert_eq!(
        encoded(true, |s| s.serialize_u32(0x12345678).unwrap()),
        vec![0x12, 0x34, 0x56, 0x78]
    );
    assert_eq!(
        encoded(false, |s| s.serialize_u64(0x0102030405060708).unwrap()),
        vec![8, 7, 6, 5, 4, 3, 2, 1]
    );
    assert_eq!(
        encoded(true, |s| s.serialize_u64(0x0102030405060708).unwrap()),
        vec![1, 2, 3, 4, 5, 6, 7, 8]
    );
    assert_eq!(
        encoded(false, |s| s.serialize_u128(0x0102030405060708090A0B0C0D0E0F10).unwrap()),
        vec![16, 15, 14, 13, 12, 11, 10, 9, 8, 7, 6, 5, 4, 3, 2, 1]
    );
    assert_eq!(
        encoded(true, |s| s.serialize_u128(0x0102030405060708090A0B0C0D0E0F10).unwrap()),
        vec![1, 2, 3, 4, 5, 6, 7, 8, 9, 10, 11, 12, 13, 14, 15, 16]
    );
    assert_eq!(encoded(false, |s| s.serialize_i16(-2).unwrap()), vec![0xFE, 0xFF]);
    assert_eq!(encoded(true, |s| s.serialize_i32(-2).unwrap()), vec![0xFF, 0xFF, 0xFF, 0xFE]);
    assert_eq!(encoded(false, |s| s.serialize_i64(-2).unwrap()), (-2i64).to_le_bytes().to_vec());
    assert_eq!(encoded(true, |s| s.serialize_i128(-2).unwrap()), (-2i128).to_be_bytes().to_vec());
    assert_eq!(encoded(false, |s| s.serialize_char('a').unwrap()), vec![0x61]);
    assert_eq!(encoded(false, |s| s.serialize_char('\u{F0}').unwrap()), vec![0xC3, 0xB0]);
    assert_eq!(encoded(false, |s| s.serialize_char('\u{C08}').unwrap()), vec![0xE0, 0xB0, 0x88]);
    assert_eq!(
        encoded(false, |s| s.serialize_char('\u{1F636}').unwrap()),
        vec![0xF0, 0x9F, 0x98, 0xB6]
    );
    assert_eq!(
        encoded(false, |s| s.serialize_str("test").unwrap()),
        vec![0x04, 0x74, 0x65, 0x73, 0x74]
    );
    assert_eq!(
        encoded(false, |s| s.serialize_bytes(&[0x41, 0x42, 0x43]).unwrap()),
        vec![0x03, 0x41, 0x42, 0x43]
    );
    assert_eq!(encoded(false, |s| s.serialize_none().unwrap()), vec![0x00]);
    assert_eq!(
        encoded(false, |s| {
            s.serialize_some().unwrap();
            s.serialize_u8(0x41).unwrap()
        }),
        vec![0xFF, 0x41]
    );
}

#[test]
fn wire_bytes_of_composites() {
    assert_eq!(
        encoded(false, |s| s.serialize_unit_variant(1).unwrap()),
        vec![0xFE, 0x01, 0x00, 0x00, 0x00]
    );
    assert_eq!(
        encoded(false, |s| {
            s.serialize_struct("Point", 2).unwrap();
            s.serialize_u8(1).unwrap();
            s.serialize_u8(2).unwrap();
            s.end().unwrap()
        }),
        vec![0xFD, 0x05, 0x50, 0x6F, 0x69, 0x6E, 0x74, 0x02, 0x01, 0x02]
    );
    assert_eq!(
        encoded(false, |s| {
            s.serialize_tuple(3).unwrap();
            s.serialize_u8(0x41).unwrap();
            s.serialize_u8(0x42).unwrap();
            s.serialize_u8(0x43).unwrap()
        }),
        vec![0x03, 0x41, 0x42, 0x43]
    );
    assert_eq!(
        encoded(true, |s| {
            s.serialize_newtype_variant(0).unwrap();
            s.serialize_u8(0x41).unwrap()
        }),
        vec![0, 0, 0, 0, 0x41]
    );
    assert_eq!(
        encoded(false, |s| s.serialize_tuple_variant(2, 3).unwrap()),
        vec![2, 0, 0, 0, 3]
    );
    assert_eq!(
        encoded(false, |s| s.serialize_struct_variant("E", 1, 2).unwrap()),
        vec![0xFC, 0x01, 0x45, 1, 0, 0, 0, 2]
    );
    assert_eq!(encoded(false, |s| s.serialize_seq(Some(300)).unwrap()), vec![0xAC, 0x02]);
    assert_eq!(encoded(false, |s| s.serialize_map(Some(2)).unwrap()), vec![0x02]);
    assert_eq!(encoded(false, |s| s.serialize_tuple_struct("T", 3).unwrap()), vec![0x03]);
    assert_eq!(encoded(false, |s| s.serialize_usize(5).unwrap()), vec![0x05]);
    assert_eq!(
        encoded(false, |s| s.serialize_vec(vec![9, 8]).unwrap()),
        vec![9, 8]
    );
}

#[test]
fn test_unit() {
    let mut s = Serializer::new(false);
    s.serialize_unit().unwrap();
    let serialized = s.into_bytes();
    assert!(serialized.is_empty());
    let mut d = Deserializer::new(&serialized, false);
    assert_eq!(d.deserialize_unit(), Ok(()));
}

#[test]
fn test_unit_struct() {
    let mut s = Serializer::new(false);
    s.serialize_unit_struct("Unit").unwrap();
    s.serialize_newtype_struct("NewType").unwrap();
    let serialized = s.into_bytes();
    assert!(serialized.is_empty());
    let mut d = Deserializer::new(&serialized, false);
    assert_eq!(d.deserialize_unit_struct("Unit"), Ok(()));
    assert_eq!(d.deserialize_newtype_struct("NewType"), Ok(()));
}

#[test]
fn unknown_length_is_rejected() {
    let mut s = Serializer::new(false);
    s.serialize_u8(7).unwrap();
    let e = s.serialize_seq(None).unwrap_err();
    assert_eq!(
        e,
        BinaryError::Message {
            message: String::from("sequences and maps of unknown length cannot be encoded")
        }
    );
    assert!(matches!(s.serialize_map(None), Err(BinaryError::Message { .. })));
    assert_eq!(s.output(), &vec![7]);
    assert!(!s.big_endian());
}

fn round_trip_both_orders(write: fn(&mut Serializer), read: fn(&mut Deserializer) -> bool) {
    for big_endian in [false, true] {
        let mut s = Serializer::new(big_endian);
        write(&mut s);
        let bytes = s.into_bytes();
        let mut d = Deserializer::new(&bytes, big_endian);
        assert_eq!(d.big_endian(), big_endian);
        assert!(read(&mut d));
        assert_eq!(d.remaining_len(), 0);
        // the same bytes without the last one no longer decode
        let shrunk = bytes[0..bytes.len() - 1].to_vec();
        let mut t = Deserializer::new(&shrunk, big_endian);
        assert!(!read(&mut t));
    }
}

#[test]
fn round_trip_of_primitives() {
    round_trip_both_orders(|s| s.serialize_bool(true).unwrap(), |d| d.deserialize_bool() == Ok(true));
    round_trip_both_orders(
        |s| s.serialize_bool(false).unwrap(),
        |d| d.deserialize_bool() == Ok(false),
    );
    round_trip_both_orders(|s| s.serialize_u8(0x41).unwrap(), |d| d.deserialize_u8() == Ok(0x41));
    round_trip_both_orders(|s| s.serialize_u16(0x41).unwrap(), |d| d.deserialize_u16() == Ok(0x41));
    round_trip_both_orders(|s| s.serialize_u32(0x41).unwrap(), |d| d.deserialize_u32() == Ok(0x41));
    round_trip_both_orders(|s| s.serialize_u64(0x41).unwrap(), |d| d.deserialize_u64() == Ok(0x41));
    round_trip_both_orders(
        |s| s.serialize_u128(0x41).unwrap(),
        |d| d.deserialize_u128() == Ok(0x41),
    );
    round_trip_both_orders(|s| s.serialize_i8(-0x41).unwrap(), |d| d.deserialize_i8() == Ok(-0x41));
    round_trip_both_orders(
        |s| s.serialize_i16(-0x4142).unwrap(),
        |d| d.deserialize_i16() == Ok(-0x4142),
    );
    round_trip_both_orders(
        |s| s.serialize_i32(i32::MIN).unwrap(),
        |d| d.deserialize_i32() == Ok(i32::MIN),
    );
    round_trip_both_orders(
        |s| s.serialize_i64(i64::MIN + 5).unwrap(),
        |d| d.deserialize_i64() == Ok(i64::MIN + 5),
    );
    round_trip_both_orders(
        |s| s.serialize_i128(i128::MIN + 7).unwrap(),
        |d| d.deserialize_i128() == Ok(i128::MIN + 7),
    );
    round_trip_both_orders(
        |s| s.serialize_u32((65.0f32).to_bits()).unwrap(),
        |d| d.deserialize_u32().map(f32::from_bits) == Ok(65.0f32),
    );
    round_trip_both_orders(
        |s| s.serialize_u64((65.0f64).to_bits()).unwrap(),
        |d| d.deserialize_u64().map(f64::from_bits) == Ok(65.0f64),
    );
    round_trip_both_orders(|s| s.serialize_char('a').unwrap(), |d| d.deserialize_char() == Ok('a'));
    round_trip_both_orders(
        |s| s.serialize_char('\u{F0}').unwrap(),
        |d| d.deserialize_char() == Ok('\u{F0}'),
    );
    round_trip_both_orders(
        |s| s.serialize_char('\u{C08}').unwrap(),
        |d| d.deserialize_char() == Ok('\u{C08}'),
    );
    round_trip_both_orders(
        |s| s.serialize_char('\u{1F636}').unwrap(),
        |d| d.deserialize_char() == Ok('\u{1F636}'),
    );
    round_trip_both_orders(
        |s| s.serialize_str("test").unwrap(),
        |d| d.deserialize_str() == Ok(String::from("test")),
    );
    round_trip_both_orders(
        |s| s.serialize_str("t\u{1F636}").unwrap(),
        |d| d.deserialize_string() == Ok(String::from("t\u{1F636}")),
    );
    round_trip_both_orders(
        |s| s.serialize_bytes(&[0x41, 0x42, 0x43]).unwrap(),
        |d| d.deserialize_bytes() == Ok(vec![0x41, 0x42, 0x43]),
    );
    round_trip_both_orders(
        |s| s.serialize_bytes(&[0x41]).unwrap(),
        |d| d.deserialize_byte_buf() == Ok(vec![0x41]),
    );
    round_trip_both_orders(|s| s.serialize_none().unwrap(), |d| d.deserialize_option() == Ok(false));
    round_trip_both_orders(
        |s| {
            s.serialize_some().unwrap();
            s.serialize_u64(0x41).unwrap()
        },
        |d| d.deserialize_option() == Ok(true) && d.deserialize_u64() == Ok(0x41),
    );
}

#[test]
fn round_trip_of_composites() {
    round_trip_both_orders(
        |s| s.serialize_unit_variant(3).unwrap(),
        |d| d.deserialize_enum("TestEnum") == Ok((VariantKind::Unit, 3)),
    );
    round_trip_both_orders(
        |s| {
            s.serialize_newtype_variant(0).unwrap();
            s.serialize_u8(0x41).unwrap()
        },
        |d| {
            d.deserialize_enum("TestEnum") == Ok((VariantKind::NonUnit, 0))
                && d.deserialize_u8() == Ok(0x41)
        },
    );
    round_trip_both_orders(
        |s| {
            s.serialize_tuple_variant(2, 3).unwrap();
            s.serialize_u8(0x41).unwrap();
            s.serialize_u8(0x42).unwrap();
            s.serialize_u8(0x43).unwrap()
        },
        |d| {
            d.deserialize_enum("TestEnum") == Ok((VariantKind::NonUnit, 2))
                && d.deserialize_seq() == Ok(3)
                && d.deserialize_u8() == Ok(0x41)
                && d.deserialize_u8() == Ok(0x42)
                && d.deserialize_u8() == Ok(0x43)
        },
    );
    round_trip_both_orders(
        |s| {
            s.serialize_struct_variant("TestEnum", 1, 2).unwrap();
            s.serialize_u8(0x41).unwrap();
            s.serialize_u8(0x42).unwrap()
        },
        |d| {
            d.deserialize_enum("TestEnum") == Ok((VariantKind::Struct, 1))
                && d.deserialize_map() == Ok(2)
                && d.deserialize_u8() == Ok(0x41)
                && d.deserialize_u8() == Ok(0x42)
        },
    );
    round_trip_both_orders(
        |s| {
            s.serialize_struct("Test", 2).unwrap();
            s.serialize_u8(0x41).unwrap();
            s.serialize_str("test").unwrap()
        },
        |d| {
            d.deserialize_struct("Test") == Ok(2)
                && d.deserialize_u8() == Ok(0x41)
                && d.deserialize_str() == Ok(String::from("test"))
        },
    );
    round_trip_both_orders(
        |s| {
            s.serialize_tuple_struct("TupleStruct", 3).unwrap();
            s.serialize_u8(0x41).unwrap();
            s.serialize_u8(0x42).unwrap();
            s.serialize_u8(0x43).unwrap()
        },
        |d| {
            d.deserialize_tuple_struct("TupleStruct", 3) == Ok(3)
                && d.deserialize_u8() == Ok(0x41)
                && d.deserialize_u8() == Ok(0x42)
                && d.deserialize_u8() == Ok(0x43)
        },
    );
    round_trip_both_orders(
        |s| {
            s.serialize_tuple(3).unwrap();
            s.serialize_char('a').unwrap();
            s.serialize_i32(16).unwrap();
            s.serialize_u8(0x41).unwrap()
        },
        |d| {
            d.deserialize_tuple(3) == Ok(3)
                && d.deserialize_char() == Ok('a')
                && d.deserialize_i32() == Ok(16)
                && d.deserialize_u8() == Ok(0x41)
        },
    );
    round_trip_both_orders(
        |s| {
            s.serialize_seq(Some(3)).unwrap();
            s.serialize_i32(0x41).unwrap();
            s.serialize_i32(0x42).unwrap();
            s.serialize_i32(0x43).unwrap()
        },
        |d| {
            d.deserialize_seq() == Ok(3)
                && d.deserialize_i32() == Ok(0x41)
                && d.deserialize_i32() == Ok(0x42)
                && d.deserialize_i32() == Ok(0x43)
        },
    );
}

#[test]
fn serde_binary_adv_test_map() {
    let entries = [(String::from("a"), 'a'), (String::from("b"), 'b')];
    for big_endian in [false, true] {
        let mut s = Serializer::new(big_endian);
        s.serialize_map(Some(entries.len())).unwrap();
        for (k, v) in entries.iter() {
            s.serialize_str(k).unwrap();
            s.serialize_char(*v).unwrap();
        }
        s.end().unwrap();
        let bytes = s.into_bytes();
        assert_eq!(bytes, vec![0x02, 0x01, 0x61, 0x61, 0x01, 0x62, 0x62]);
        let mut d = Deserializer::new(&bytes, big_endian);
        let mut series = BinarySeries::new(d.deserialize_map().unwrap());
        let mut found: Vec<(String, char)> = Vec::new();
        while series.next_element().unwrap() {
            let k = d.deserialize_string().unwrap();
            let v = d.deserialize_char().unwrap();
            found.push((k, v));
        }
        assert_eq!(found, entries.to_vec());
    }
}

#[test]
fn series_yields_exactly_its_length() {
    let mut series = BinarySeries::new(2);
    assert_eq!(series.len(), 2);
    assert_eq!(series.next_element(), Ok(true));
    assert_eq!(series.next_element(), Ok(true));
    assert_eq!(series.next_element(), Ok(false));
    assert_eq!(
        series.next_element(),
        Err(BinaryError::InvalidLength { actual: 4, expected: 2 })
    );
    let mut empty = BinarySeries::new(0);
    assert_eq!(empty.next_element(), Ok(false));
    assert_eq!(
        empty.next_element(),
        Err(BinaryError::InvalidLength { actual: 2, expected: 0 })
    );
}

#[test]
fn empty_input_is_unexpected_end() {
    let e = Err(BinaryError::UnexpectedEndOfInput);
    let empty: Vec<u8> = vec![];
    for be in [false, true] {
        assert_eq!(Deserializer::new(&empty, be).deserialize_bool(), e.clone().map(|_: ()| true));
        assert_eq!(Deserializer::new(&empty, be).deserialize_u8(), Err(BinaryError::UnexpectedEndOfInput));
        assert_eq!(Deserializer::new(&empty, be).deserialize_u16(), Err(BinaryError::UnexpectedEndOfInput));
        assert_eq!(Deserializer::new(&empty, be).deserialize_u32(), Err(BinaryError::UnexpectedEndOfInput));
        assert_eq!(Deserializer::new(&empty, be).deserialize_u64(), Err(BinaryError::UnexpectedEndOfInput));
        assert_eq!(Deserializer::new(&empty, be).deserialize_u128(), Err(BinaryError::UnexpectedEndOfInput));
        assert_eq!(Deserializer::new(&empty, be).deserialize_i8(), Err(BinaryError::UnexpectedEndOfInput));
        assert_eq!(Deserializer::new(&empty, be).deserialize_i16(), Err(BinaryError::UnexpectedEndOfInput));
        assert_eq!(Deserializer::new(&empty, be).deserialize_i32(), Err(BinaryError::UnexpectedEndOfInput));
        assert_eq!(Deserializer::new(&empty, be).deserialize_i64(), Err(BinaryError::UnexpectedEndOfInput));
        assert_eq!(Deserializer::new(&empty, be).deserialize_i128(), Err(BinaryError::UnexpectedEndOfInput));
        assert_eq!(Deserializer::new(&empty, be).deserialize_char(), Err(BinaryError::UnexpectedEndOfInput));
        assert_eq!(Deserializer::new(&empty, be).deserialize_str(), Err(BinaryError::UnexpectedEndOfInput));
        assert_eq!(Deserializer::new(&empty, be).deserialize_string(), Err(BinaryError::UnexpectedEndOfInput));
        assert_eq!(Deserializer::new(&empty, be).deserialize_identifier(), Err(BinaryError::UnexpectedEndOfInput));
        assert_eq!(Deserializer::new(&empty, be).deserialize_bytes(), Err(BinaryError::UnexpectedEndOfInput));
        assert_eq!(Deserializer::new(&empty, be).deserialize_option(), Err(BinaryError::UnexpectedEndOfInput));
        assert_eq!(Deserializer::new(&empty, be).deserialize_seq(), Err(BinaryError::UnexpectedEndOfInput));
        assert_eq!(Deserializer::new(&empty, be).deserialize_map(), Err(BinaryError::UnexpectedEndOfInput));
        assert_eq!(Deserializer::new(&empty, be).deserialize_tuple(1), Err(BinaryError::UnexpectedEndOfInput));
        assert_eq!(Deserializer::new(&empty, be).deserialize_struct("S"), Err(BinaryError::UnexpectedEndOfInput));
        assert_eq!(Deserializer::new(&empty, be).deserialize_enum("E"), Err(BinaryError::UnexpectedEndOfInput));
        assert_eq!(Deserializer::new(&empty, be).peek(), Err(BinaryError::UnexpectedEndOfInput));
        assert_eq!(Deserializer::new(&empty, be).next(), Err(BinaryError::UnexpectedEndOfInput));
        assert_eq!(Deserializer::new(&empty, be).take(1), Err(BinaryError::UnexpectedEndOfInput));
        assert_eq!(Deserializer::new(&empty, be).take(0), Ok(vec![]));
    }
}

#[test]
fn option_flag_must_be_known() {
    for flag in 0x01..=0xFEu8 {
        assert_eq!(
            Deserializer::new(&vec![flag, 0x41], false).deserialize_option(),
            Err(BinaryError::MissingOrInvalidFlag { actual: flag, expected: 0xFF })
        );
    }
    assert_eq!(Deserializer::new(&vec![0x00, 0x41], false).deserialize_option(), Ok(false));
    assert_eq!(Deserializer::new(&vec![0xFF, 0x41], false).deserialize_option(), Ok(true));
}

#[test]
fn struct_name_must_match() {
    let mut s = Serializer::new(false);
    s.serialize_struct("Point", 2).unwrap();
    s.serialize_u8(1).unwrap();
    s.serialize_u8(2).unwrap();
    let bytes = s.into_bytes();
    assert_eq!(
        Deserializer::new(&bytes, false).deserialize_struct("Line"),
        Err(BinaryError::InvalidName {
            actual: String::from("Point"),
            expected: String::from("Line")
        })
    );
    assert_eq!(Deserializer::new(&bytes, false).deserialize_struct("Point"), Ok(2));
    let mut wrong = bytes.clone();
    wrong[0] = 0xFC;
    assert_eq!(
        Deserializer::new(&wrong, false).deserialize_struct("Point"),
        Err(BinaryError::MissingOrInvalidFlag { actual: 0xFC, expected: 0xFD })
    );
    let mut v = Serializer::new(false);
    v.serialize_struct_variant("Shape", 1, 2).unwrap();
    assert_eq!(
        Deserializer::new(&v.into_bytes(), false).deserialize_enum("Other"),
        Err(BinaryError::InvalidName {
            actual: String::from("Shape"),
            expected: String::from("Other")
        })
    );
}

#[test]
fn bool_reads_any_nonzero_byte_as_true() {
    assert_eq!(Deserializer::new(&vec![0x00], false).deserialize_bool(), Ok(false));
    assert_eq!(Deserializer::new(&vec![0x01], false).deserialize_bool(), Ok(true));
    assert_eq!(Deserializer::new(&vec![0x7F], false).deserialize_bool(), Ok(true));
}

#[test]
fn cursor_moves_forward_only() {
    let mut d = Deserializer::new(&vec![1, 2, 3, 4, 5, 6], false);
    assert_eq!(d.peek(), Ok(1));
    assert_eq!(d.peek_at(2), Ok(3));
    assert_eq!(d.peek_at(6), Err(BinaryError::UnexpectedEndOfInput));
    assert_eq!(d.next(), Ok(1));
    assert_eq!(d.take(2), Ok(vec![2, 3]));
    assert_eq!(d.remaining_len(), 3);
    assert_eq!(d.take(4), Err(BinaryError::UnexpectedEndOfInput));
    assert_eq!(d.remaining_len(), 3);
    assert_eq!(d.next_usize(), Ok(4));
    d.extend(&[7, 0, 0, 0]);
    assert_eq!(d.remaining_len(), 6);
    assert_eq!(d.take_bytes(), Ok(vec![6, 7, 0, 0, 0]));
    assert_eq!(Deserializer::new(&vec![3, 1, 2], false).take_bytes(), Err(BinaryError::UnexpectedEndOfInput));
    let mut e = Deserializer::new(&vec![2, 0xC3, 0xB0, 9, 0, 0, 0], false);
    assert_eq!(e.take_string(), Ok(String::from("\u{F0}")));
    assert_eq!(e.next_u32(), Ok(9));
    assert_eq!(
        Deserializer::new(&vec![2, 0xC3, 0x41], false).take_string(),
        Err(BinaryError::InvalidBytes)
    );
}

#[test]
fn unit_variant_needs_unit_kind() {
    assert_eq!(VariantKind::Unit.unit_variant(), Ok(()));
    assert_eq!(VariantKind::NonUnit.unit_variant(), Err(BinaryError::UnexpectedType));
    assert_eq!(VariantKind::Struct.unit_variant(), Err(BinaryError::UnexpectedType));
    assert_eq!(BinaryError::UnexpectedType.to_string(), "unexpected type");
}

#[test]
fn count_is_peeked_without_moving() {
    let d = Deserializer::new(&vec![0x80, 0x20, 0x01, 0x99], false);
    assert_eq!(d.peek_usize(), Ok((4096, 3)));
    assert_eq!(d.remaining_len(), 4);
    assert_eq!(
        Deserializer::new(&vec![0x80, 0x20], false).peek_usize(),
        Err(BinaryError::UnexpectedEndOfInput)
    );
}

#[test]
fn test_ascii_char() {
    let v = serde_binary_adv::ascii::Char(0x41);
    let mut s = Serializer::new(false);
    s.serialize_u8(v.to_u8()).unwrap();
    let b = s.into_bytes();
    assert_eq!(b, vec![0x41]);
    let d = serde_binary_adv::ascii::Char(Deserializer::new(&b, false).deserialize_u8().unwrap());
    assert_eq!(v, d);
}
