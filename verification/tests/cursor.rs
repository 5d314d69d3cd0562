use serde_binary_adv::{BinaryError, CharacterEncoding, Endianness, Options, Raw, StringType};

#[test]
fn raw_reads_in_order() {
    let mut r = Raw::from(&vec![1, 2, 3, 4, 5, 6, 7]);
    assert_eq!(r.peek(), Ok(1));
    assert_eq!(r.next(), Ok(1));
    assert_eq!(r.take_u8(), Ok(2));
    assert_eq!(r.take(2), Ok(vec![3, 4]));
    assert_eq!(r.take_u16(&Endianness::Little), Ok(0x0605));
    assert_eq!(r.take_u16(&Endianness::Little), Err(BinaryError::UnexpectedEndOfInput));
    assert_eq!(r.take(1), Ok(vec![7]));
    assert_eq!(r.peek(), Err(BinaryError::UnexpectedEndOfInput));
    assert_eq!(r.next(), Err(BinaryError::UnexpectedEndOfInput));
    assert_eq!(r.take(0), Ok(vec![]));
    let mut empty = Raw::new();
    assert_eq!(empty.peek(), Err(BinaryError::UnexpectedEndOfInput));
    assert_eq!(empty.take_u8(), Err(BinaryError::UnexpectedEndOfInput));
}

#[test]
fn raw_numbers_in_each_order() {
    let bytes: Vec<u8> = (1..=16).collect();
    assert_eq!(Raw::from(&bytes).take_u16(&Endianness::Big), Ok(0x0102));
    assert_eq!(Raw::from(&bytes).take_u32(&Endianness::Big), Ok(0x01020304));
    assert_eq!(Raw::from(&bytes).take_u32(&Endianness::Little), Ok(0x04030201));
    assert_eq!(Raw::from(&bytes).take_u64(&Endianness::Big), Ok(0x0102030405060708));
    assert_eq!(Raw::from(&bytes).take_u64(&Endianness::Little), Ok(0x0807060504030201));
    assert_eq!(
        Raw::from(&bytes).take_u128(&Endianness::Big),
        Ok(0x0102030405060708090A0B0C0D0E0F10)
    );
    assert_eq!(
        Raw::from(&bytes).take_u128(&Endianness::Little),
        Ok(0x100F0E0D0C0B0A090807060504030201)
    );
    assert_eq!(
        Raw::from(&bytes).take_u16(&Endianness::Native),
        Ok(u16::from_ne_bytes([1, 2]))
    );
    assert_eq!(
        Raw::from(&bytes).take_u32(&Endianness::Native),
        Ok(u32::from_ne_bytes([1, 2, 3, 4]))
    );
    assert_eq!(
        Raw::from(&bytes).take_u64(&Endianness::Native),
        Ok(u64::from_ne_bytes([1, 2, 3, 4, 5, 6, 7, 8]))
    );
    assert_eq!(
        Raw::from(&bytes).take_usize(&Endianness::Native),
        Ok(usize::from_ne_bytes(bytes[0..std::mem::size_of::<usize>()].try_into().unwrap()))
    );
    assert_eq!(
        Raw::from(&bytes).take_usize(&Endianness::Big),
        Ok(usize::from_be_bytes(bytes[0..std::mem::size_of::<usize>()].try_into().unwrap()))
    );
    assert_eq!(
        Raw::from(&vec![1, 2, 3]).take_usize(&Endianness::Little),
        Err(BinaryError::UnexpectedEndOfInput)
    );
    assert_eq!(
        Raw::from(&vec![1, 2, 3]).take_u32(&Endianness::Big),
        Err(BinaryError::UnexpectedEndOfInput)
    );
    assert_eq!(
        Raw::from(&vec![1, 2, 3]).take_u128(&Endianness::Native),
        Err(BinaryError::UnexpectedEndOfInput)
    );
}

#[test]
fn options_default() {
    let o = Options::default();
    assert_eq!(o.endianness, Endianness::Little);
    assert_eq!(o.string_type, StringType::NullTerminated);
    assert_eq!(o.character_encoding, CharacterEncoding::UTF8);
    assert!(!o.self_describing);
}
