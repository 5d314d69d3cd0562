use serde_binary_adv::de::VariantKind;
use serde_binary_adv::stream::{Deserializer, Serializer};
use serde_binary_adv::BinaryError;

/// Pulls `wanted` bytes from the source into the window, as the owner of a
/// source does.
fn pull(d: &mut Deserializer, source: &mut &[u8], wanted: usize) -> Result<(), BinaryError> {
    let got = wanted.min(source.len());
    let (head, tail) = source.split_at(got);
    d.feed(head);
    *source = tail;
    Deserializer::check_read(got, wanted)
}

fn read_char(source: &mut &[u8]) -> Result<char, BinaryError> {
    let mut d = Deserializer::new(false);
    pull(&mut d, source, 1)?;
    let more = d.missing_for_char()?;
    pull(&mut d, source, more)?;
    d.window.deserialize_char()
}

fn read_count(d: &mut Deserializer, source: &mut &[u8]) -> Result<usize, BinaryError> {
    loop {
        let more = d.missing_for_count();
        if more == 0 {
            return d.window.next_usize();
        }
        pull(d, source, more)?;
    }
}

fn read_string(d: &mut Deserializer, source: &mut &[u8]) -> Result<String, BinaryError> {
    loop {
        let more = d.missing_for_bytes();
        if more == 0 {
            return d.window.take_string();
        }
        pull(d, source, more)?;
    }
}

#[test]
fn stream_test_bad_char() {
    assert!(read_char(&mut vec![0x80 as u8].as_slice()).is_err());
    assert!(read_char(&mut vec![0xC0 as u8, 0x00 as u8].as_slice()).is_err());
    assert!(read_char(&mut vec![].as_slice()).is_err());
}

#[test]
fn stream_char_errors_by_kind() {
    assert_eq!(read_char(&mut vec![0x80u8].as_slice()), Err(BinaryError::InvalidBytes));
    assert_eq!(read_char(&mut vec![0xC0u8, 0x00].as_slice()), Err(BinaryError::InvalidBytes));
    assert_eq!(read_char(&mut vec![].as_slice()), Err(BinaryError::UnexpectedEndOfInput));
    assert_eq!(read_char(&mut vec![0xE0u8, 0xB0].as_slice()), Err(BinaryError::UnexpectedEndOfInput));
    assert_eq!(read_char(&mut vec![0xE0u8, 0xB0, 0x88, 0x41].as_slice()), Ok('\u{C08}'));
}

#[test]
fn stream_pending_is_taken_piece_by_piece() {
    let mut s = Serializer::new(true);
    assert!(s.big_endian());
    s.serialize_u16(0x1234).unwrap();
    assert_eq!(s.output(), &vec![0x12, 0x34]);
    assert_eq!(s.take_pending(), vec![0x12, 0x34]);
    assert_eq!(s.take_pending(), Vec::<u8>::new());
    s.write(&vec![1, 2, 3]);
    s.serialize_str("A").unwrap();
    assert_eq!(s.take_pending(), vec![1, 2, 3, 1, 0x41]);
}

#[test]
fn stream_wire_bytes_that_differ() {
    let mut s = Serializer::new(false);
    s.serialize_newtype_variant(1).unwrap();
    assert_eq!(s.take_pending(), vec![0xFD, 1, 0, 0, 0]);
    s.serialize_tuple_variant(2, 3).unwrap();
    assert_eq!(s.take_pending(), vec![0xFD, 2, 0, 0, 0, 3]);
    s.serialize_struct("Point", 2).unwrap();
    assert_eq!(s.take_pending(), vec![0x02]);
    s.serialize_struct_variant("E", 1, 2).unwrap();
    assert_eq!(s.take_pending(), vec![0xFC, 0x01, 0x45, 1, 0, 0, 0, 2]);
    s.serialize_unit_variant(1).unwrap();
    assert_eq!(s.take_pending(), vec![0xFE, 1, 0, 0, 0]);
    assert!(s.serialize_seq(None).is_err());
    assert!(s.serialize_map(None).is_err());
    assert_eq!(s.take_pending(), Vec::<u8>::new());
    s.serialize_bytes(&[9, 9]).unwrap();
    s.serialize_none().unwrap();
    s.serialize_some().unwrap();
    s.serialize_unit().unwrap();
    s.serialize_bool(true).unwrap();
    assert_eq!(s.take_pending(), vec![2, 9, 9, 0x00, 0xFF, 0x01]);
}

#[test]
fn stream_round_trip_of_values() {
    for big_endian in [false, true] {
        let mut s = Serializer::new(big_endian);
        s.serialize_struct("Test", 2).unwrap();
        s.serialize_u8(0x41).unwrap();
        s.serialize_str("test").unwrap();
        s.serialize_unit_variant(3).unwrap();
        s.serialize_newtype_variant(0).unwrap();
        s.serialize_u8(0x41).unwrap();
        s.serialize_tuple_variant(2, 300).unwrap();
        s.serialize_i64(-5).unwrap();
        s.serialize_u128(7).unwrap();
        let bytes = s.take_pending();
        let source = &mut bytes.as_slice();

        let mut d = Deserializer::new(big_endian);
        // struct: the number of fields only
        loop {
            let more = d.missing_for_count();
            if more == 0 {
                break;
            }
            pull(&mut d, source, more).unwrap();
        }
        assert_eq!(d.deserialize_struct("Test"), Ok(2));
        pull(&mut d, source, 1).unwrap();
        assert_eq!(d.window.deserialize_u8(), Ok(0x41));
        assert_eq!(read_string(&mut d, source), Ok(String::from("test")));
        // unit variant: marker and index
        let more = d.missing_for_fixed(5);
        pull(&mut d, source, more).unwrap();
        assert_eq!(d.deserialize_enum(), Ok((VariantKind::Unit, 3)));
        // newtype variant: marker, then the index as identifier
        pull(&mut d, source, 1).unwrap();
        assert_eq!(d.deserialize_enum(), Ok((VariantKind::NonUnit, 0)));
        pull(&mut d, source, 4).unwrap();
        assert_eq!(d.deserialize_identifier(), Ok(0));
        pull(&mut d, source, 1).unwrap();
        assert_eq!(d.window.deserialize_u8(), Ok(0x41));
        // tuple variant
        pull(&mut d, source, 1).unwrap();
        assert_eq!(d.deserialize_enum(), Ok((VariantKind::NonUnit, 0)));
        pull(&mut d, source, 4).unwrap();
        assert_eq!(d.deserialize_identifier(), Ok(2));
        assert_eq!(read_count(&mut d, source), Ok(300));
        pull(&mut d, source, 8).unwrap();
        assert_eq!(d.window.deserialize_i64(), Ok(-5));
        pull(&mut d, source, 16).unwrap();
        assert_eq!(d.window.deserialize_u128(), Ok(7));
        assert!(source.is_empty());
        assert_eq!(pull(&mut d, source, 1), Err(BinaryError::UnexpectedEndOfInput));
    }
}

#[test]
fn stream_test_map() {
    let entries = [(String::from("a"), 'a'), (String::from("b"), 'b')];
    for big_endian in [false, true] {
        let mut s = Serializer::new(big_endian);
        s.serialize_map(Some(entries.len())).unwrap();
        for (k, v) in entries.iter() {
            s.serialize_str(k).unwrap();
            s.serialize_char(*v).unwrap();
        }
        s.end().unwrap();
        let bytes = s.take_pending();
        let source = &mut bytes.as_slice();
        let mut d = Deserializer::new(big_endian);
        let n = read_count(&mut d, source).unwrap();
        assert_eq!(n, 2);
        let mut found: Vec<(String, char)> = Vec::new();
        for _ in 0..n {
            let k = read_string(&mut d, source).unwrap();
            pull(&mut d, source, 1).unwrap();
            let more = d.missing_for_char().unwrap();
            pull(&mut d, source, more).unwrap();
            found.push((k, d.window.deserialize_char().unwrap()));
        }
        assert_eq!(found, entries.to_vec());
    }
}

#[test]
fn stream_enum_marker_must_be_known() {
    let mut d = Deserializer::new(false);
    d.feed(&[0x00, 1, 0, 0, 0]);
    assert_eq!(
        d.deserialize_enum(),
        Err(BinaryError::MissingOrInvalidFlag { actual: 0x00, expected: 0xFE })
    );
    let mut e = Deserializer::new(false);
    e.feed(&[0xFC]);
    assert_eq!(e.deserialize_enum(), Ok((VariantKind::Struct, 0)));
    let mut f = Deserializer::new(false);
    assert_eq!(f.deserialize_enum(), Err(BinaryError::UnexpectedEndOfInput));
    f.feed(&[0xFE, 1]);
    assert_eq!(f.deserialize_enum(), Err(BinaryError::UnexpectedEndOfInput));
}

#[test]
fn stream_missing_bytes() {
    let mut d = Deserializer::new(false);
    assert_eq!(d.missing_for_count(), 1);
    assert_eq!(d.missing_for_char(), Ok(1));
    assert_eq!(d.missing_for_fixed(4), 4);
    d.feed(&[0x80]);
    assert_eq!(d.missing_for_count(), 1);
    assert_eq!(d.missing_for_fixed(4), 3);
    d.feed(&[0x60]);
    assert_eq!(d.missing_for_count(), 3);
    d.feed(&[1, 2, 3]);
    assert_eq!(d.missing_for_count(), 0);
    assert_eq!(d.missing_for_fixed(4), 0);
    let mut b = Deserializer::new(false);
    assert_eq!(b.missing_for_bytes(), 1);
    b.feed(&[0x83]);
    assert_eq!(b.missing_for_bytes(), 1);
    b.feed(&[0x00]);
    assert_eq!(b.missing_for_bytes(), 3);
    b.feed(&[1, 2]);
    assert_eq!(b.missing_for_bytes(), 1);
    b.feed(&[3, 4]);
    assert_eq!(b.missing_for_bytes(), 0);
    assert_eq!(b.window.take_bytes(), Ok(vec![1, 2, 3]));
    assert_eq!(Deserializer::check_read(3, 4), Err(BinaryError::UnexpectedEndOfInput));
    assert_eq!(Deserializer::check_read(4, 4), Ok(()));
}

#[test]
fn stream_struct_variant_is_read_in_steps() {
    for big_endian in [false, true] {
        let mut s = Serializer::new(big_endian);
        s.serialize_struct_variant("E", 1, 2).unwrap();
        s.serialize_u8(0x41).unwrap();
        s.serialize_u8(0x42).unwrap();
        let bytes = s.take_pending();
        let source = &mut bytes.as_slice();
        let mut d = Deserializer::new(big_endian);
        pull(&mut d, source, 1).unwrap();
        assert_eq!(d.deserialize_enum(), Ok((VariantKind::Struct, 0)));
        assert_eq!(read_string(&mut d, source), Ok(String::from("E")));
        pull(&mut d, source, 4).unwrap();
        assert_eq!(d.deserialize_identifier(), Ok(1));
        assert_eq!(read_count(&mut d, source), Ok(2));
        pull(&mut d, source, 2).unwrap();
        assert_eq!(d.window.deserialize_u8(), Ok(0x41));
        assert_eq!(d.window.deserialize_u8(), Ok(0x42));
        assert!(source.is_empty());
    }
}
