//! Conversions between characters, strings and their UTF-8 bytes.

use vstd::prelude::*;
use vstd::utf8::{decode_utf8, encode_scalar, encode_utf8, valid_utf8};

verus! {

/// `char::encode_utf8`: the one to four UTF-8 bytes of the scalar `c`.
#[verifier::external_body]
pub(crate) fn char_to_utf8(c: char) -> (res: Vec<u8>)
    ensures
        res@ == encode_scalar(c as u32),
{
    let mut buf: [u8; 4] = [0, 0, 0, 0];
    c.encode_utf8(&mut buf).as_bytes().to_vec()
}

/// `String::from_utf8`: succeeds exactly on well-formed UTF-8, and then gives
/// the string that the bytes encode.
#[verifier::external_body]
pub(crate) fn string_from_utf8(bytes: Vec<u8>) -> (res: Option<String>)
    ensures
        res is Some <==> valid_utf8(bytes@),
        res is Some ==> res->0@ == decode_utf8(bytes@),
{
    match String::from_utf8(bytes) {
        Ok(s) => Some(s),
        Err(_) => None,
    }
}

/// The UTF-8 bytes of a text are the bytes of its first character followed by
/// the bytes of the rest, and a one-character text has the bytes of its
/// character.
pub proof fn lemma_encode_single(c: char)
    ensures
        encode_utf8(seq![c]) == encode_scalar(c as u32),
{
    let s = seq![c];
    assert(s.drop_first() =~= Seq::<char>::empty());
    reveal_with_fuel(encode_utf8, 2);
    assert(encode_utf8(s) =~= encode_scalar(c as u32) + encode_utf8(s.drop_first()));
    assert(encode_utf8(Seq::<char>::empty()) =~= Seq::<u8>::empty());
    assert(encode_scalar(c as u32) + Seq::<u8>::empty() =~= encode_scalar(c as u32));
}

} // verus!
