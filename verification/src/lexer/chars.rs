use vstd::prelude::*;

verus! {

/// Whether `c` has the Unicode `Alphabetic` property, as `char::is_alphabetic` decides it.
pub uninterp spec fn alphabetic(c: char) -> bool;

/// Whether `c` is alphabetic or numeric in Unicode's sense, as `char::is_alphanumeric`
/// decides it.
pub uninterp spec fn alphanumeric(c: char) -> bool;

/// Whether `c` has the Unicode `White_Space` property, as `char::is_whitespace` decides it.
pub uninterp spec fn whitespace(c: char) -> bool;

/// `char::is_alphabetic`: the answer depends on the character alone, so it is
/// given the name [`alphabetic`] and nothing more is claimed of it.
#[verifier::external_body]
pub(crate) fn is_alphabetic(c: char) -> (r: bool)
    ensures
        r == alphabetic(c),
{
    c.is_alphabetic()
}

/// `char::is_alphanumeric`: the answer depends on the character alone, so it is
/// given the name [`alphanumeric`] and nothing more is claimed of it.
#[verifier::external_body]
pub(crate) fn is_alphanumeric(c: char) -> (r: bool)
    ensures
        r == alphanumeric(c),
{
    c.is_alphanumeric()
}

/// `char::is_whitespace`: the answer depends on the character alone, so it is
/// given the name [`whitespace`] and nothing more is claimed of it.
#[verifier::external_body]
pub(crate) fn is_whitespace(c: char) -> (r: bool)
    ensures
        r == whitespace(c),
{
    c.is_whitespace()
}

/// Whether `v` is a Unicode scalar value: a code point that is not a surrogate.
pub open spec fn is_scalar(v: int) -> bool {
    0 <= v <= 0xD7FF || 0xE000 <= v <= 0x10FFFF
}

/// `char::from_u32`: the character with code point `v`, which exists exactly when
/// `v` is a Unicode scalar value.
#[verifier::external_body]
pub(crate) fn char_from_code(v: u32) -> (r: Option<char>)
    ensures
        r == (if is_scalar(v as int) {
            Some(v as char)
        } else {
            None
        }),
{
    char::from_u32(v)
}

/// `String::push`: appends one character to the end of the string.
#[verifier::external_body]
pub(crate) fn push_char(text: &mut String, c: char)
    ensures
        final(text)@ == old(text)@.push(c),
{
    text.push(c)
}

/// Whether `c` is one of the ASCII digits `0` to `9`.
pub open spec fn is_digit(c: char) -> bool {
    '0' <= c <= '9'
}

/// The number that the ASCII digit `c` stands for.
pub open spec fn digit_value(c: char) -> int {
    c as int - '0' as int
}

/// The number that the hexadecimal digit `c` stands for, in either case; `None`
/// for any other character.
pub open spec fn hex_value(c: char) -> Option<int> {
    if '0' <= c <= '9' {
        Some(c as int - '0' as int)
    } else if 'a' <= c <= 'f' {
        Some(c as int - 'a' as int + 10)
    } else if 'A' <= c <= 'F' {
        Some(c as int - 'A' as int + 10)
    } else {
        None
    }
}

/// The value of an ASCII digit, if `c` is one.
pub fn digit_of(c: char) -> (r: Option<u8>)
    ensures
        r == (if is_digit(c) {
            Some(digit_value(c) as u8)
        } else {
            None
        }),
{
    if '0' <= c && c <= '9' {
        Some((c as u32 - '0' as u32) as u8)
    } else {
        None
    }
}

/// The value of a hexadecimal digit, if `c` is one.
pub fn hex_digit_of(c: char) -> (r: Option<u8>)
    ensures
        r == match hex_value(c) {
            Some(v) => Some(v as u8),
            None => None,
        },
{
    if '0' <= c && c <= '9' {
        Some((c as u32 - '0' as u32) as u8)
    } else if 'a' <= c && c <= 'f' {
        Some((c as u32 - 'a' as u32 + 10) as u8)
    } else if 'A' <= c && c <= 'F' {
        Some((c as u32 - 'A' as u32 + 10) as u8)
    } else {
        None
    }
}

} // verus!
