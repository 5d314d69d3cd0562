use serde_binary_adv::ascii::achar::{AChar, MAX, MIN};
use serde_binary_adv::ascii::astring::AString;
use serde_binary_adv::ascii::character::Char;
use serde_binary_adv::ascii::error::ASCIIError;
use serde_binary_adv::ascii::fixedlengthstring::FixedLengthString;

#[test]
fn achar_test_utf8() {
    // Test a specific, known conversion
    let nbsp = AChar::from(&(0xA0 as u8));
    assert!(nbsp.as_utf8() == [0xC2, 0xA0, 0x00, 0x00]);
    assert!(nbsp.len_utf8() == 2);

    // Test that all characters convert correctly
    for c in MIN..=MAX {
        let ch: AChar = AChar::from(&c);
        assert!(if c <= 0x7F {
            ch.as_utf8() == [c, 0x00, 0x00, 0x00]
        } else {
            ch.as_utf8() == [c >> 6 & 0x1F | 0xC0, c & 0x3F | 0x80, 0x00, 0x00]
        });
    }
}

#[test]
fn achar_test_comparisons() {
    for c in MIN..=MAX {
        let cha = AChar::from(&c);
        let chb = AChar::from(&c);

        assert_eq!(cha, chb);
        match c {
            0x41..=0x5A => {
                assert!(cha.is_alphabetic());
                assert!(cha.is_uppercase());
                let chc: AChar = cha.lowercase();
                assert!(cha.eq_ignore_case(&chc));
            }
            0x61..=0x7A => {
                assert!(cha.is_alphabetic());
                assert!(cha.is_lowercase());
                let chc: AChar = cha.uppercase();
                assert!(cha.eq_ignore_case(&chc));
            }
            0x30..=0x39 => {
                assert!(cha.is_numeric());
            }
            0x21..=0x29 | 0x3A..=0x40 | 0x5B..=0x60 | 0x7B..=0x7E => {
                assert!(cha.is_punctuation());
            }
            0x00..=0x1F => {
                assert!(cha.is_control());
            }
            _ => {}
        }
        // Control overlaps with whitespace and null
        match c {
            0x00 => {
                assert!(cha.is_null())
            }
            0x09 | 0x0A | 0x0C | 0x0D | 0x20 => {
                assert!(cha.is_whitespace());
            }
            _ => {}
        }
    }
}

#[test]
fn achar_default_and_of() {
    assert_eq!(AChar::default(), AChar::of(0x00));
    assert_eq!(AChar::of(0x61).uppercase(), AChar::of(0x41));
    assert_eq!(AChar::of(0x41).lowercase(), AChar::of(0x61));
    assert_eq!(AChar::of(0x7B).uppercase(), AChar::of(0x7B));
    assert!(!AChar::of(0x41).eq_ignore_case(&AChar::of(0x42)));
    assert_eq!(AChar::of(0x7F).len_utf8(), 1);
    assert_eq!(AChar::of(0x80).len_utf8(), 2);
    assert_eq!(AChar::of(0xFF).as_utf8(), [0xC3, 0xBF, 0x00, 0x00]);
    assert_eq!(AChar::of(0x41).to_string(), "A");
    assert_eq!(AChar::of(0x0A).to_string(), "");
    assert_eq!(AChar::of(0xE9).to_string(), "\u{E9}");
}

#[test]
fn astring_test_create() {
    let s1 = AString::new();
    assert_eq!(s1.len(), 0);
    let s2 = AString::new_of_size(10);
    assert_eq!(s2.len(), 10);
    let s3 = AString::fixed(10);
    assert_eq!(s3.len(), 10);
}

#[test]
fn test_fixed_length() {
    let s = &mut AString::fixed(10);
    assert!(s.resize(11).is_err());
    assert_eq!(s.len(), 10);
    assert_eq!(
        s.resize(11).unwrap_err().to_string(),
        "attepted to change the length of a fixed length AString"
    );
}

#[test]
fn test_resize() {
    let s = &mut AString::new();
    assert_eq!(s.len(), 0);
    s.resize(10).unwrap();
    assert_eq!(s.len(), 10);
}

#[test]
fn astring_resize_keeps_and_fills() {
    let mut s = AString::from_bytes(&[0x41, 0x42, 0x43]);
    s.resize(2).unwrap();
    assert_eq!(s.as_bytes(), vec![0x41, 0x42]);
    s.resize(4).unwrap();
    assert_eq!(s.as_bytes(), vec![0x41, 0x42, 0x00, 0x00]);
}

#[test]
fn test_from() {
    let s1 = AString::from(&[0x41 as u8] as &[u8]);
    assert_eq!(s1, "A");
    let s2 = AString::from(&vec![AChar::from(&(0x41 as u8))]);
    assert_eq!(s2, "A");
    let s3 = AString::try_from(&String::from("A")).unwrap();
    assert_eq!(s3, "A");
    let s4 = String::from(s3);
    assert_eq!(s4, "A");
    assert_eq!(s1, s2);
    assert_eq!(AString::from_bytes(&[0x41, 0x42]).to_string(), "AB");
    assert!(s1.same(&s2));
    assert!(!s1.eq_str("B"));
    assert!(AString::try_from_string(&String::from("\u{1F47F}")).is_err());
}

#[test]
fn char_test_utf8() {
    // Test a specific, known conversion
    let nbsp = Char(0xA0 as u8);
    assert!(nbsp.as_utf8() == [0xC2, 0xA0, 0x00, 0x00]);
    assert!(nbsp.len_utf8() == 2);

    // Test that all characters convert correctly
    for c in 0x00..=0xFF {
        let ch: Char = Char(c);
        assert!(if c <= 0x7F {
            ch.as_utf8() == [c, 0x00, 0x00, 0x00]
        } else {
            ch.as_utf8() == [c >> 6 & 0x1F | 0xC0, c & 0x3F | 0x80, 0x00, 0x00]
        });
    }
}

#[test]
fn char_utf8_agrees_with_std() {
    for c in 0x00..=0xFFu8 {
        let ch = Char(c);
        let mut buf = [0u8; 4];
        let text = ch.char().encode_utf8(&mut buf);
        assert_eq!(text.len(), ch.len_utf8());
        assert_eq!(buf, ch.as_utf8());
    }
}

#[test]
fn test_null() {
    assert_eq!(Char::null(), Char(0x00));
}

#[test]
fn char_test_display() {
    let cha = Char(0x00);
    assert_eq!(cha.to_string(), "\0x0");
    let chb = Char(0x41);
    assert_eq!(chb.to_string(), "A");
    assert_eq!(Char(0x1F).to_string(), "\0x1F");
    assert_eq!(Char(0x41).to_u8(), 0x41);
    assert_eq!(u8::from(Char(0x41)), 0x41);
}

#[test]
fn char_test_comparisons() {
    for c in 0x00..=0xFF {
        let cha = Char(c);
        let chb = Char(c);

        assert_eq!(cha, chb);
        match c {
            0x41..=0x5A => {
                assert!(cha.is_alphabetic());
                assert!(cha.is_uppercase());
                assert!(!cha.is_lowercase());
                assert!(!cha.is_numeric());
                assert!(!cha.is_punctuation());
                assert!(!cha.is_whitespace());
                assert!(!cha.is_control());
                let chc: Char = cha.lowercase();
                assert!(cha.eq_ignore_case(&chc));
            }
            0x61..=0x7A => {
                assert!(cha.is_alphabetic());
                assert!(cha.is_lowercase());
                assert!(!cha.is_uppercase());
                let chc: Char = cha.uppercase();
                assert!(cha.eq_ignore_case(&chc));
            }
            0x30..=0x39 => {
                assert!(cha.is_numeric());
            }
            0x21..=0x29 | 0x3A..=0x40 | 0x5B..=0x60 | 0x7B..=0x7E => {
                assert!(cha.is_punctuation());
                assert_eq!(cha, cha.uppercase());
                assert_eq!(cha, cha.lowercase());
            }
            0x00..=0x1F => {
                assert!(cha.is_control());
            }
            _ => {}
        }
        // Control overlaps with whitespace and null
        match c {
            0x00 => {
                assert!(cha.is_null())
            }
            0x09 | 0x0A | 0x0C | 0x0D | 0x20 => {
                assert!(cha.is_whitespace());
            }
            _ => {}
        }
    }
}

#[test]
fn test() {
    let e = ASCIIError {
        message: String::from("test"),
    };
    assert_eq!(e.to_string(), "test");
    assert!(e.source().is_none());
    assert!(e.cause().is_none());
    assert_eq!(e.description(), "description() is deprecated; use Display");
}

#[test]
fn fixedlengthstring_test_create() {
    let s1 = FixedLengthString([Char(0x00)]);
    assert_eq!(s1.len(), 1);
    assert_eq!(s1, "\0");
    let s: FixedLengthString<10> = FixedLengthString::new();
    assert_eq!(s.len(), 10);
    assert_eq!(s.as_bytes(), [0u8; 10]);
}

#[test]
fn test_from_vec_of_u8() {
    let v: Vec<u8> = vec![0x41 as u8];
    let s1: FixedLengthString<1> = FixedLengthString::from_vec(v);
    assert_eq!(s1, "A");
}

#[test]
fn test_from_array_of_u8() {
    let s1: FixedLengthString<1> = FixedLengthString::try_from(&[0x41 as u8] as &[u8]).unwrap();
    assert_eq!(s1, "A");
    let s2: FixedLengthString<1> = FixedLengthString::from([0x41 as u8; 1]);
    assert_eq!(s2, "A");
    assert!(FixedLengthString::<1>::try_from(&[0x41 as u8; 2] as &[u8]).is_err());
    assert_eq!(s1, s2);
}

#[test]
fn test_from_string() {
    let s1: FixedLengthString<1> = FixedLengthString::try_from(&String::from("A")).unwrap();
    assert_eq!(s1, "A");
    assert!(FixedLengthString::<1>::try_from(&String::from("\u{1F47F}")).is_err());
}

#[test]
fn test_string_try_from_astring() {
    let s4 = String::from(FixedLengthString::<1>::try_from("A").unwrap());
    assert_eq!(s4, "A");
}

#[test]
fn fixedlengthstring_test_display() {
    let s = FixedLengthString([Char(0x41); 1]);
    assert_eq!(s.to_string(), "A");
}

#[test]
fn fixedlengthstring_pads_and_refuses() {
    let s: FixedLengthString<4> = FixedLengthString::try_from_str("AB").unwrap();
    assert_eq!(s.as_bytes(), [0x41, 0x42, 0x00, 0x00]);
    assert_eq!(
        FixedLengthString::<1>::try_from_str("AB").unwrap_err().to_string(),
        "array &[u8] of length 2 too long for AString<1>"
    );
    assert_eq!(
        FixedLengthString::<1>::try_from_str("\u{1F47F}").unwrap_err().to_string(),
        "attempt to convert an Unicode string to an AString"
    );
    let t: FixedLengthString<3> = FixedLengthString::from_vec(vec![0x61]);
    assert_eq!(t.as_bytes(), [0x61, 0x00, 0x00]);
    assert!(!s.eq_str("AB"));
    assert!(s.eq_str("AB\0\0"));
}
