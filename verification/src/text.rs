//! Text forms of numbers and characters, as the error and character
//! renderings use them.

use vstd::prelude::*;

verus! {

/// The digit character for a value below sixteen, letters in upper case.
pub open spec fn digit_char(d: nat) -> char {
    if d < 10 {
        ('0' as u8 + d) as char
    } else {
        ('A' as u8 + (d - 10)) as char
    }
}

/// `v` in upper-case hexadecimal, without prefix or padding.
pub open spec fn upper_hex(v: nat) -> Seq<char>
    decreases v,
{
    if v < 16 {
        seq![digit_char(v)]
    } else {
        upper_hex(v / 16).push(digit_char(v % 16))
    }
}

/// `v` in decimal, without padding.
pub open spec fn decimal(v: nat) -> Seq<char>
    decreases v,
{
    if v < 10 {
        seq![digit_char(v)]
    } else {
        decimal(v / 10).push(digit_char(v % 10))
    }
}

/// `format!` with `{:X}` on a `u8`: the upper-case hexadecimal digits of `v`.
#[verifier::external_body]
pub(crate) fn hex_text(v: u8) -> (res: String)
    ensures
        res@ == upper_hex(v as nat),
{
    format!("{:X}", v)
}

/// `format!` with `{}` on a `usize`: the decimal digits of `v`.
#[verifier::external_body]
pub(crate) fn decimal_text(v: usize) -> (res: String)
    ensures
        res@ == decimal(v as nat),
{
    format!("{}", v)
}

/// `char::to_string`: the text that holds `c` alone.
#[verifier::external_body]
pub(crate) fn char_text(c: char) -> (res: String)
    ensures
        res@ == seq![c],
{
    c.to_string()
}

} // verus!
