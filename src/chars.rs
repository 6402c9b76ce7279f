//! Character classes and small text helpers shared by the parsers.
use vstd::prelude::*;

verus! {

/// The end-of-text marker placed after the last character of every input.
pub const EOT: char = '\u{3}';

pub open spec fn spec_is_alpha(ch: char) -> bool {
    ('a' <= ch && ch <= 'z') || ('A' <= ch && ch <= 'Z')
}

pub open spec fn spec_is_digit(ch: char) -> bool {
    '0' <= ch && ch <= '9'
}

pub open spec fn spec_is_print(ch: char) -> bool {
    ' ' <= ch && ch <= '~'
}

pub open spec fn spec_is_whitespace(ch: char) -> bool {
    ch == ' ' || ch == '\t' || ch == '\r' || ch == '\n'
}

/// ASCII lower-casing; every other character is left alone.
pub open spec fn spec_lower_char(ch: char) -> char {
    if 'A' <= ch && ch <= 'Z' {
        ((ch as u32) + 32) as char
    } else {
        ch
    }
}

/// Returns true if ch is in [a-zA-Z].
pub fn is_alpha(ch: char) -> (r: bool)
    ensures
        r == spec_is_alpha(ch),
{
    ('a' <= ch && ch <= 'z') || ('A' <= ch && ch <= 'Z')
}

/// Returns true if ch is in [0-9].
pub fn is_digit(ch: char) -> (r: bool)
    ensures
        r == spec_is_digit(ch),
{
    '0' <= ch && ch <= '9'
}

/// Returns true if ch is_alpha or is_digit.
pub fn is_alphanum(ch: char) -> (r: bool)
    ensures
        r == (spec_is_alpha(ch) || spec_is_digit(ch)),
{
    is_alpha(ch) || is_digit(ch)
}

/// Returns true if ch is 7-bit ASCII and not a control character.
pub fn is_print(ch: char) -> (r: bool)
    ensures
        r == spec_is_print(ch),
{
    ' ' <= ch && ch <= '~'
}

/// Returns true if ch is ' ', '\t', '\r', or '\n'.
pub fn is_whitespace(ch: char) -> (r: bool)
    ensures
        r == spec_is_whitespace(ch),
{
    ch == ' ' || ch == '\t' || ch == '\r' || ch == '\n'
}

/// Returns ch as lower case (ASCII letters only).
pub fn lower_char(ch: char) -> (r: char)
    ensures
        r == spec_lower_char(ch),
{
    if 'A' <= ch && ch <= 'Z' {
        let code: u32 = (ch as u32) + 32;
        proof {
            assert(0x61 <= code <= 0x7a);
        }
        char_from_ascii(code)
    } else {
        ch
    }
}

/// The character with an ASCII code point.
fn char_from_ascii(code: u32) -> (r: char)
    requires
        code < 0x80,
    ensures
        r == code as char,
{
    (code as u8) as char
}

} // verus!
