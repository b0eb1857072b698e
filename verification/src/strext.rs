//! Small trusted bridges to `std` text operations that vstd leaves
//! unspecified.

use vstd::prelude::*;

verus! {

/// A Unicode scalar value: what a `char` may hold.
pub open spec fn is_unicode_scalar(u: u32) -> bool {
    u < 0xD800 || (0xE000 <= u && u <= 0x10FFFF)
}

/// Relies on `String::push`: appends one character at the end.
#[verifier::external_body]
pub fn push_char(s: &mut String, c: char)
    ensures
        final(s)@ == old(s)@.push(c),
{
    s.push(c);
}

/// Relies on `char::from_u32`: `Some` exactly for Unicode scalar values,
/// and the resulting character has the given code point.
#[verifier::external_body]
pub fn char_from_u32(u: u32) -> (r: Option<char>)
    ensures
        r is Some <==> is_unicode_scalar(u),
        r matches Some(c) ==> c as u32 == u,
{
    char::from_u32(u)
}

/// Relies on `str`'s `PartialEq`: equality of the character sequences.
#[verifier::external_body]
pub fn str_eq(a: &str, b: &str) -> (r: bool)
    ensures
        r == (a@ == b@),
{
    a == b
}

/// Relies on `str::from_utf8`: succeeds exactly on valid UTF-8 and yields
/// the decoded character sequence (the result is copied into a `String`).
#[verifier::external_body]
pub fn string_from_utf8(v: &[u8]) -> (r: Option<String>)
    ensures
        r is Some <==> vstd::utf8::valid_utf8(v@),
        r matches Some(s) ==> s@ == vstd::utf8::decode_utf8(v@),
{
    match core::str::from_utf8(v) {
        Ok(s) => Some(s.to_string()),
        Err(_) => None,
    }
}

} // verus!
