//! A growable string of single-byte characters.

use vstd::prelude::*;
use vstd::std_specs::cmp::PartialEqSpecImpl;
use vstd::std_specs::convert::{FromSpecImpl, TryFromSpecImpl};
use crate::ascii::achar::AChar;
use vstd::utf8::encode_utf8;
use crate::ascii::error::{fixed_length_text, not_ascii_text, ASCIIError};
use crate::text::char_text;

verus! {

/// A string of single-byte characters whose length may be fixed.
#[derive(Clone, Debug)]
pub struct AString {
    achars: Vec<AChar>,
    fixed_length: bool,
}

impl AString {
    /// The codes of the string's characters.
    pub closed spec fn codes(&self) -> Seq<u8> {
        Seq::new(self.achars@.len(), |i: int| self.achars@[i].value)
    }

    /// Whether the length may no longer change.
    pub closed spec fn is_fixed(&self) -> bool {
        self.fixed_length
    }

    /// An empty string that may grow.
    pub fn new() -> (res: Self)
        ensures
            res.codes() == Seq::<u8>::empty(),
            !res.is_fixed(),
    {
        let res = Self { achars: Vec::new(), fixed_length: false };
        proof {
            assert(res.codes() =~= Seq::<u8>::empty());
        }
        res
    }

    /// `size` characters with code zero.
    fn zeros(size: usize) -> (res: Vec<AChar>)
        ensures
            res@.len() == size,
            forall|i: int| 0 <= i < size ==> (#[trigger] res@[i]).value == 0,
    {
        let mut v: Vec<AChar> = Vec::new();
        while v.len() < size
            invariant
                v@.len() <= size,
                forall|i: int| 0 <= i < v@.len() ==> (#[trigger] v@[i]).value == 0,
            decreases size - v@.len(),
        {
            v.push(AChar { value: 0x00 });
        }
        v
    }

    /// A string of `size` zero characters that may grow or shrink.
    pub fn new_of_size(size: usize) -> (res: Self)
        ensures
            res.codes() == Seq::new(size as nat, |i: int| 0u8),
            !res.is_fixed(),
    {
        let res = Self { achars: Self::zeros(size), fixed_length: false };
        proof {
            assert(res.codes() =~= Seq::new(size as nat, |i: int| 0u8));
        }
        res
    }

    /// A string of `length` zero characters whose length stays.
    pub fn fixed(length: usize) -> (res: Self)
        ensures
            res.codes() == Seq::new(length as nat, |i: int| 0u8),
            res.is_fixed(),
    {
        let res = Self { achars: Self::zeros(length), fixed_length: true };
        proof {
            assert(res.codes() =~= Seq::new(length as nat, |i: int| 0u8));
        }
        res
    }

    /// The number of characters.
    pub fn len(&self) -> (res: usize)
        ensures
            res == self.codes().len(),
    {
        self.achars.len()
    }

    /// Cuts the string to `size` characters or fills it up to `size` with
    /// zero characters. A string of fixed length refuses and stays as it is.
    pub fn resize(&mut self, size: usize) -> (res: Result<(), ASCIIError>)
        ensures
            final(self).is_fixed() == old(self).is_fixed(),
            old(self).is_fixed() ==> res is Err && res->Err_0.message@ == fixed_length_text()
                && final(self).codes() == old(self).codes(),
            !old(self).is_fixed() ==> res is Ok && final(self).codes() == Seq::new(
                size as nat,
                |i: int| if i < old(self).codes().len() { old(self).codes()[i] } else { 0u8 },
            ),
    {
        if self.fixed_length {
            Err(ASCIIError::fixed_length())
        } else {
            self.achars.truncate(size);
            while self.achars.len() < size
                invariant
                    self.fixed_length == old(self).fixed_length,
                    self.achars@.len() <= size,
                    self.achars@.len() >= old(self).achars@.len() || self.achars@.len() >= size,
                    forall|i: int|
                        0 <= i < self.achars@.len() ==> (#[trigger] self.achars@[i]).value == (if i
                            < old(self).achars@.len() {
                            old(self).achars@[i].value
                        } else {
                            0u8
                        }),
                decreases size - self.achars@.len(),
            {
                self.achars.push(AChar { value: 0x00 });
            }
            proof {
                assert(self.codes() =~= Seq::new(
                    size as nat,
                    |i: int| if i < old(self).codes().len() { old(self).codes()[i] } else { 0u8 },
                ));
            }
            Ok(())
        }
    }

    /// The string with the given codes.
    pub fn from_bytes(value: &[u8]) -> (res: Self)
        ensures
            res.codes() == value@,
            !res.is_fixed(),
    {
        let mut v: Vec<AChar> = Vec::new();
        let mut i: usize = 0;
        while i < value.len()
            invariant
                i <= value@.len(),
                v@.len() == i,
                forall|j: int| 0 <= j < i ==> (#[trigger] v@[j]).value == value@[j],
            decreases value@.len() - i,
        {
            v.push(AChar { value: value[i] });
            i = i + 1;
        }
        let res = Self { achars: v, fixed_length: false };
        proof {
            assert(res.codes() =~= value@);
        }
        res
    }

    /// The string with the given characters.
    pub fn from_achars(value: &Vec<AChar>) -> (res: Self)
        ensures
            res.codes() == Seq::new(value@.len(), |i: int| value@[i].value),
            !res.is_fixed(),
    {
        let mut v: Vec<AChar> = Vec::new();
        let mut i: usize = 0;
        while i < value.len()
            invariant
                i <= value@.len(),
                v@.len() == i,
                forall|j: int| 0 <= j < i ==> (#[trigger] v@[j]).value == value@[j].value,
            decreases value@.len() - i,
        {
            v.push(AChar { value: value[i].value });
            i = i + 1;
        }
        let res = Self { achars: v, fixed_length: false };
        proof {
            assert(res.codes() =~= Seq::new(value@.len(), |i: int| value@[i].value));
        }
        res
    }

    /// The codes of the string.
    pub fn as_bytes(&self) -> (res: Vec<u8>)
        ensures
            res@ == self.codes(),
    {
        let mut v: Vec<u8> = Vec::new();
        let mut i: usize = 0;
        while i < self.achars.len()
            invariant
                i <= self.achars@.len(),
                v@.len() == i,
                forall|j: int| 0 <= j < i ==> #[trigger] v@[j] == self.achars@[j].value,
            decreases self.achars@.len() - i,
        {
            v.push(self.achars[i].value);
            i = i + 1;
        }
        proof {
            assert(v@ =~= self.codes());
        }
        v
    }

    /// Whether two strings hold the same characters.
    pub fn same(&self, other: &AString) -> (res: bool)
        ensures
            res == (self.codes() == other.codes()),
    {
        let a = self.as_bytes();
        let b = other.as_bytes();
        bytes_equal(a.as_slice(), b.as_slice())
    }

    /// The text of the string: each code as the Unicode scalar of that value.
    pub closed spec fn text(&self) -> Seq<char> {
        Seq::new(self.achars@.len(), |i: int| self.achars@[i].value as char)
    }

    /// The string of an ASCII text; any other text is refused.
    pub fn try_from_string(value: &String) -> (res: Result<Self, ASCIIError>)
        ensures
            value.is_ascii() ==> res is Ok && res->Ok_0.codes() == encode_utf8(value@)
                && !res->Ok_0.is_fixed(),
            !value.is_ascii() ==> res is Err && res->Err_0.message@ == not_ascii_text(),
    {
        if !value.is_ascii() {
            Err(ASCIIError::not_ascii())
        } else {
            Ok(Self::from_bytes(value.as_str().as_bytes()))
        }
    }

    /// The text of the string.
    pub fn to_string(&self) -> (res: String)
        ensures
            res@ == self.text(),
    {
        let mut out = String::new();
        let mut i: usize = 0;
        while i < self.achars.len()
            invariant
                i <= self.achars@.len(),
                out@ == self.text().subrange(0, i as int),
            decreases self.achars@.len() - i,
        {
            let c = char_text(self.achars[i].value as char);
            out.append(c.as_str());
            proof {
                assert(out@ =~= self.text().subrange(0, i + 1));
            }
            i = i + 1;
        }
        proof {
            assert(self.text().subrange(0, self.achars@.len() as int) =~= self.text());
        }
        out
    }

    /// Whether the string's text is `other`.
    pub fn eq_str(&self, other: &str) -> (res: bool)
        ensures
            res == (self.text() == other@),
    {
        let mine = self.to_string();
        let theirs = String::from_str(other);
        mine == theirs
    }
}

impl PartialEq<AString> for AString {
    fn eq(&self, other: &AString) -> (res: bool) {
        self.same(other)
    }
}

impl PartialEqSpecImpl<AString> for AString {
    open spec fn obeys_eq_spec() -> bool {
        true
    }

    open spec fn eq_spec(&self, other: &AString) -> bool {
        self.codes() == other.codes()
    }
}

impl PartialEq<&str> for AString {
    fn eq(&self, other: &&str) -> (res: bool) {
        self.eq_str(*other)
    }
}

impl PartialEqSpecImpl<&str> for AString {
    open spec fn obeys_eq_spec() -> bool {
        true
    }

    open spec fn eq_spec(&self, other: &&str) -> bool {
        self.text() == (*other)@
    }
}

impl From<&[u8]> for AString {
    fn from(value: &[u8]) -> (res: Self) {
        Self::from_bytes(value)
    }
}

impl FromSpecImpl<&[u8]> for AString {
    open spec fn obeys_from_spec() -> bool {
        false
    }

    open spec fn from_spec(v: &[u8]) -> Self {
        arbitrary()
    }
}

impl From<&Vec<AChar>> for AString {
    fn from(value: &Vec<AChar>) -> (res: Self) {
        Self::from_achars(value)
    }
}

impl FromSpecImpl<&Vec<AChar>> for AString {
    open spec fn obeys_from_spec() -> bool {
        false
    }

    open spec fn from_spec(v: &Vec<AChar>) -> Self {
        arbitrary()
    }
}

impl TryFrom<&String> for AString {
    type Error = ASCIIError;

    /// The string of an ASCII text, which may grow afterwards, with one
    /// character for each byte of the text; any other text is refused.
    fn try_from(value: &String) -> (res: Result<Self, Self::Error>)
        ensures
            value.is_ascii() ==> res is Ok && res->Ok_0.codes() == encode_utf8(value@)
                && !res->Ok_0.is_fixed(),
            !value.is_ascii() ==> res is Err && res->Err_0.message@ == not_ascii_text(),
    {
        Self::try_from_string(value)
    }
}

impl TryFromSpecImpl<&String> for AString {
    open spec fn obeys_try_from_spec() -> bool {
        false
    }

    open spec fn try_from_spec(v: &String) -> Result<Self, Self::Error> {
        arbitrary()
    }
}

impl From<AString> for String {
    fn from(value: AString) -> (res: Self) {
        value.to_string()
    }
}

impl FromSpecImpl<AString> for String {
    open spec fn obeys_from_spec() -> bool {
        false
    }

    open spec fn from_spec(v: AString) -> Self {
        arbitrary()
    }
}


/// Whether two byte strings are equal.
pub fn bytes_equal(a: &[u8], b: &[u8]) -> (res: bool)
    ensures
        res == (a@ == b@),
{
    if a.len() != b.len() {
        return false;
    }
    let mut i: usize = 0;
    while i < a.len()
        invariant
            i <= a@.len() == b@.len(),
            forall|j: int| 0 <= j < i ==> a@[j] == b@[j],
        decreases a@.len() - i,
    {
        if a[i] != b[i] {
            return false;
        }
        i = i + 1;
    }
    proof {
        assert(a@ =~= b@);
    }
    true
}

} // verus!
