//! Character classes used by the grammars: whitespace, letters, digits,
//! and the word characters allowed in footer keys.

use vstd::prelude::*;

verus! {

/// Whitespace as the trimming and separator rules understand it.
pub open spec fn spec_is_space(c: char) -> bool {
    c == ' ' || c == '\t' || c == '\n' || c == '\r' || c == '\u{b}' || c == '\u{c}'
}

/// Whitespace accepted between grammar tokens on a single line.
pub open spec fn spec_is_blank(c: char) -> bool {
    c == ' ' || c == '\t'
}

/// An ASCII letter, as accepted in a summary prefix.
pub open spec fn spec_is_alpha(c: char) -> bool {
    ('a' <= c && c <= 'z') || ('A' <= c && c <= 'Z')
}

/// An ASCII digit, as accepted in a summary prefix.
pub open spec fn spec_is_digit(c: char) -> bool {
    '0' <= c && c <= '9'
}

/// A character allowed in a footer key: word characters and hyphens.
pub open spec fn spec_is_word(c: char) -> bool {
    spec_is_alpha(c) || spec_is_digit(c) || c == '_' || c == '-'
}

/// Executable test for `spec_is_space`.
pub fn is_space_char(c: char) -> (r: bool)
    ensures
        r == spec_is_space(c),
{
    c == ' ' || c == '\t' || c == '\n' || c == '\r' || c == '\u{b}' || c == '\u{c}'
}

/// Executable test for `spec_is_blank`.
pub fn is_blank_char(c: char) -> (r: bool)
    ensures
        r == spec_is_blank(c),
{
    c == ' ' || c == '\t'
}

/// Executable test for `spec_is_alpha`.
pub fn is_alpha_char(c: char) -> (r: bool)
    ensures
        r == spec_is_alpha(c),
{
    ('a' <= c && c <= 'z') || ('A' <= c && c <= 'Z')
}

/// Executable test for `spec_is_digit`.
pub fn is_digit_char(c: char) -> (r: bool)
    ensures
        r == spec_is_digit(c),
{
    '0' <= c && c <= '9'
}

/// Executable test for `spec_is_word`.
pub fn is_word_char(c: char) -> (r: bool)
    ensures
        r == spec_is_word(c),
{
    is_alpha_char(c) || is_digit_char(c) || c == '_' || c == '-'
}

} // verus!
