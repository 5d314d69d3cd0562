//! A string of exactly `N` single-byte characters.

use vstd::prelude::*;
use vstd::std_specs::cmp::PartialEqSpecImpl;
use vstd::std_specs::convert::{FromSpecImpl, TryFromSpecImpl};
use vstd::array::array_fill_for_copy_types;
use crate::ascii::character::Char;
use vstd::utf8::encode_utf8;
use crate::ascii::error::{not_ascii_text, too_long_text, ASCIIError};
use crate::text::char_text;

verus! {

/// A string of exactly `N` single-byte characters.
#[derive(Clone, Debug)]
pub struct FixedLengthString<const N: usize>(pub [Char; N]);

impl<const N: usize> FixedLengthString<N> {
    /// The codes of the string's characters.
    pub open spec fn codes(&self) -> Seq<u8> {
        Seq::new(N as nat, |i: int| self.0@[i].0)
    }

    /// `N` characters with code zero.
    pub fn new() -> (res: Self)
        ensures
            res.codes() == Seq::new(N as nat, |i: int| 0u8),
    {
        let res = Self(array_fill_for_copy_types(Char(0x00)));
        proof {
            assert(res.codes() =~= Seq::new(N as nat, |i: int| 0u8));
        }
        res
    }

    /// The number of characters: `N`.
    pub fn len(&self) -> (res: usize)
        ensures
            res == N,
    {
        N
    }

    /// The codes of the string.
    pub fn as_bytes(&self) -> (res: [u8; N])
        ensures
            res@ == self.codes(),
    {
        let mut out: [u8; N] = array_fill_for_copy_types(0u8);
        let mut i: usize = 0;
        while i < N
            invariant
                i <= N,
                forall|j: int| 0 <= j < i ==> #[trigger] out@[j] == self.0@[j].0,
            decreases N - i,
        {
            out[i] = self.0[i].0;
            i = i + 1;
        }
        proof {
            assert(out@ =~= self.codes());
        }
        out
    }

    /// The string that starts with the given codes and is filled up with zero
    /// characters; more than `N` codes are refused.
    pub fn try_from_bytes(value: &[u8]) -> (res: Result<Self, ASCIIError>)
        ensures
            value@.len() > N ==> res is Err && res->Err_0.message@ == too_long_text(
                value@.len(),
                N as nat,
            ),
            value@.len() <= N ==> res is Ok && res->Ok_0.codes() == Seq::new(
                N as nat,
                |i: int| if i < value@.len() { value@[i] } else { 0u8 },
            ),
    {
        if value.len() > N {
            Err(ASCIIError::too_long(value.len(), N))
        } else {
            let mut out: [Char; N] = array_fill_for_copy_types(Char(0x00));
            let mut i: usize = 0;
            while i < value.len()
                invariant
                    i <= value@.len() <= N,
                    forall|j: int|
                        0 <= j < N ==> (#[trigger] out@[j]).0 == (if j < i {
                            value@[j]
                        } else {
                            0u8
                        }),
                decreases value@.len() - i,
            {
                out[i] = Char(value[i]);
                i = i + 1;
            }
            let res = Self(out);
            proof {
                assert(res.codes() =~= Seq::new(
                    N as nat,
                    |i: int| if i < value@.len() { value@[i] } else { 0u8 },
                ));
            }
            Ok(res)
        }
    }

    /// The string with exactly the given codes.
    pub fn from_array(value: [u8; N]) -> (res: Self)
        ensures
            res.codes() == value@,
    {
        let mut out: [Char; N] = array_fill_for_copy_types(Char(0x00));
        let mut i: usize = 0;
        while i < N
            invariant
                i <= N,
                forall|j: int| 0 <= j < i ==> (#[trigger] out@[j]).0 == value@[j],
            decreases N - i,
        {
            out[i] = Char(value[i]);
            i = i + 1;
        }
        let res = Self(out);
        proof {
            assert(res.codes() =~= value@);
        }
        res
    }

    /// The text of the string: each code as the Unicode scalar of that value.
    pub open spec fn text(&self) -> Seq<char> {
        Seq::new(N as nat, |i: int| self.0@[i].0 as char)
    }

    /// The string that starts with the given codes and is filled up with
    /// zero characters.
    pub fn from_vec(value: Vec<u8>) -> (res: Self)
        requires
            value@.len() <= N,
        ensures
            res.codes() == Seq::new(
                N as nat,
                |i: int| if i < value@.len() { value@[i] } else { 0u8 },
            ),
    {
        match Self::try_from_bytes(value.as_slice()) {
            Ok(s) => s,
            Err(_) => Self::new(),
        }
    }

    /// The string of an ASCII text of at most `N` characters, filled up with
    /// zero characters; any other text is refused.
    pub fn try_from_str(value: &str) -> (res: Result<Self, ASCIIError>)
        ensures
            (value.is_ascii() && encode_utf8(value@).len() <= N) ==> res is Ok
                && res->Ok_0.codes() == Seq::new(
                N as nat,
                |i: int| if i < encode_utf8(value@).len() { encode_utf8(value@)[i] } else { 0u8 },
            ),
            !value.is_ascii() ==> res is Err && res->Err_0.message@ == not_ascii_text(),
            value.is_ascii() && encode_utf8(value@).len() > N ==> res is Err
                && res->Err_0.message@ == too_long_text(encode_utf8(value@).len(), N as nat),
    {
        if !value.is_ascii() {
            Err(ASCIIError::not_ascii())
        } else {
            Self::try_from_bytes(value.as_bytes())
        }
    }

    /// The string of an ASCII text, as `try_from_str` gives it.
    pub fn try_from_string(value: &String) -> (res: Result<Self, ASCIIError>)
        ensures
            (value.is_ascii() && encode_utf8(value@).len() <= N) ==> res is Ok
                && res->Ok_0.codes() == Seq::new(
                N as nat,
                |i: int| if i < encode_utf8(value@).len() { encode_utf8(value@)[i] } else { 0u8 },
            ),
            !value.is_ascii() ==> res is Err && res->Err_0.message@ == not_ascii_text(),
            value.is_ascii() && encode_utf8(value@).len() > N ==> res is Err
                && res->Err_0.message@ == too_long_text(encode_utf8(value@).len(), N as nat),
    {
        Self::try_from_str(value.as_str())
    }

    /// The text of the string.
    pub fn to_string(&self) -> (res: String)
        ensures
            res@ == self.text(),
    {
        let mut out = String::new();
        let mut i: usize = 0;
        while i < N
            invariant
                i <= N,
                out@ == self.text().subrange(0, i as int),
            decreases N - i,
        {
            let c = char_text(self.0[i].char());
            let ghost before = out@;
            out.append(c.as_str());
            proof {
                assert(out@ =~= self.text().subrange(0, i + 1));
            }
            i = i + 1;
        }
        proof {
            assert(self.text().subrange(0, N as int) =~= self.text());
        }
        out
    }

    /// Whether the string's text is `other`.
    pub fn eq_str(&self, other: &str) -> (res: bool)
        ensures
            res == (self.text() == other@),
    {
        let mine = self.to_string();
        let theirs = String::from_str(other);
        mine == theirs
    }

    /// Whether two strings hold the same characters.
    pub fn same(&self, other: &FixedLengthString<N>) -> (res: bool)
        ensures
            res == (self.codes() == other.codes()),
    {
        let mut i: usize = 0;
        while i < N
            invariant
                i <= N,
                forall|j: int| 0 <= j < i ==> self.0@[j].0 == other.0@[j].0,
            decreases N - i,
        {
            if self.0[i].0 != other.0[i].0 {
                proof {
                    assert(self.codes()[i as int] != other.codes()[i as int]);
                }
                return false;
            }
            i = i + 1;
        }
        proof {
            assert(self.codes() =~= other.codes());
        }
        true
    }
}

impl<const N: usize> PartialEq<FixedLengthString<N>> for FixedLengthString<N> {
    fn eq(&self, other: &FixedLengthString<N>) -> (res: bool) {
        self.same(other)
    }
}

impl<const N: usize> PartialEqSpecImpl<FixedLengthString<N>> for FixedLengthString<N> {
    open spec fn obeys_eq_spec() -> bool {
        true
    }

    open spec fn eq_spec(&self, other: &FixedLengthString<N>) -> bool {
        self.codes() == other.codes()
    }
}

impl<const N: usize> PartialEq<&str> for FixedLengthString<N> {
    fn eq(&self, other: &&str) -> (res: bool) {
        self.eq_str(*other)
    }
}

impl<const N: usize> PartialEqSpecImpl<&str> for FixedLengthString<N> {
    open spec fn obeys_eq_spec() -> bool {
        true
    }

    open spec fn eq_spec(&self, other: &&str) -> bool {
        self.text() == (*other)@
    }
}

impl<const N: usize> TryFrom<&[u8]> for FixedLengthString<N> {
    type Error = ASCIIError;

    /// The string that starts with the given codes and is filled up with zero
    /// characters; more than `N` codes are refused.
    fn try_from(value: &[u8]) -> (res: Result<Self, Self::Error>)
        ensures
            value@.len() > N ==> res is Err && res->Err_0.message@ == too_long_text(
                value@.len(),
                N as nat,
            ),
            value@.len() <= N ==> res is Ok && res->Ok_0.codes() == Seq::new(
                N as nat,
                |i: int| if i < value@.len() { value@[i] } else { 0u8 },
            ),
    {
        Self::try_from_bytes(value)
    }
}

impl<const N: usize> TryFromSpecImpl<&[u8]> for FixedLengthString<N> {
    open spec fn obeys_try_from_spec() -> bool {
        false
    }

    open spec fn try_from_spec(v: &[u8]) -> Result<Self, Self::Error> {
        arbitrary()
    }
}

impl<const N: usize> From<[u8; N]> for FixedLengthString<N> {
    fn from(value: [u8; N]) -> (res: Self) {
        Self::from_array(value)
    }
}

impl<const N: usize> FromSpecImpl<[u8; N]> for FixedLengthString<N> {
    open spec fn obeys_from_spec() -> bool {
        false
    }

    open spec fn from_spec(v: [u8; N]) -> Self {
        arbitrary()
    }
}

impl<const N: usize> TryFrom<&String> for FixedLengthString<N> {
    type Error = ASCIIError;

    /// The string of an ASCII text of at most `N` characters, filled up with
    /// zero characters; a text that is not ASCII and a longer text are refused.
    fn try_from(value: &String) -> (res: Result<Self, Self::Error>)
        ensures
            (value.is_ascii() && encode_utf8(value@).len() <= N) ==> res is Ok
                && res->Ok_0.codes() == Seq::new(
                N as nat,
                |i: int| if i < encode_utf8(value@).len() { encode_utf8(value@)[i] } else { 0u8 },
            ),
            !value.is_ascii() ==> res is Err && res->Err_0.message@ == not_ascii_text(),
            value.is_ascii() && encode_utf8(value@).len() > N ==> res is Err
                && res->Err_0.message@ == too_long_text(encode_utf8(value@).len(), N as nat),
    {
        Self::try_from_string(value)
    }
}

impl<const N: usize> TryFromSpecImpl<&String> for FixedLengthString<N> {
    open spec fn obeys_try_from_spec() -> bool {
        false
    }

    open spec fn try_from_spec(v: &String) -> Result<Self, Self::Error> {
        arbitrary()
    }
}

impl<const N: usize> TryFrom<&str> for FixedLengthString<N> {
    type Error = ASCIIError;

    /// The string of an ASCII text of at most `N` characters, filled up with
    /// zero characters; a text that is not ASCII and a longer text are refused.
    fn try_from(value: &str) -> (res: Result<Self, Self::Error>)
        ensures
            (value.is_ascii() && encode_utf8(value@).len() <= N) ==> res is Ok
                && res->Ok_0.codes() == Seq::new(
                N as nat,
                |i: int| if i < encode_utf8(value@).len() { encode_utf8(value@)[i] } else { 0u8 },
            ),
            !value.is_ascii() ==> res is Err && res->Err_0.message@ == not_ascii_text(),
            value.is_ascii() && encode_utf8(value@).len() > N ==> res is Err
                && res->Err_0.message@ == too_long_text(encode_utf8(value@).len(), N as nat),
    {
        Self::try_from_str(value)
    }
}

impl<const N: usize> TryFromSpecImpl<&str> for FixedLengthString<N> {
    open spec fn obeys_try_from_spec() -> bool {
        false
    }

    open spec fn try_from_spec(v: &str) -> Result<Self, Self::Error> {
        arbitrary()
    }
}

impl<const N: usize> From<FixedLengthString<N>> for String {
    fn from(value: FixedLengthString<N>) -> (res: Self) {
        value.to_string()
    }
}

impl<const N: usize> FromSpecImpl<FixedLengthString<N>> for String {
    open spec fn obeys_from_spec() -> bool {
        false
    }

    open spec fn from_spec(v: FixedLengthString<N>) -> Self {
        arbitrary()
    }
}

} // verus!
