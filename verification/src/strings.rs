//! Character classification and string building used across the library.

use vstd::prelude::*;

verus! {

/// `String::push` appends one character to the end of the string, as std documents.
pub assume_specification[ String::push ](string: &mut String, ch: char)
    ensures
        final(string)@ == old(string)@.push(ch),
;

/// Whether a character is an ASCII letter.
pub open spec fn is_ascii_alpha(c: char) -> bool {
    ('a' <= c && c <= 'z') || ('A' <= c && c <= 'Z')
}

/// Whether a character is an ASCII lowercase letter.
pub open spec fn is_ascii_lower(c: char) -> bool {
    'a' <= c && c <= 'z'
}

/// Whether a character is an ASCII uppercase letter.
pub open spec fn is_ascii_upper(c: char) -> bool {
    'A' <= c && c <= 'Z'
}

/// The ASCII lowercase form of a character; other characters are unchanged.
pub open spec fn ascii_lower(c: char) -> char {
    if is_ascii_upper(c) { ((c as u32) + 32) as char } else { c }
}

/// The ASCII uppercase form of a character; other characters are unchanged.
pub open spec fn ascii_upper(c: char) -> char {
    if is_ascii_lower(c) { ((c as u32) - 32) as char } else { c }
}

/// Returns whether `c` is an ASCII letter.
pub fn char_is_ascii_alpha(c: char) -> (r: bool)
    ensures
        r == is_ascii_alpha(c),
{
    ('a' <= c && c <= 'z') || ('A' <= c && c <= 'Z')
}

/// Returns the ASCII lowercase form of `c`.
pub fn char_to_ascii_lower(c: char) -> (r: char)
    ensures
        r == ascii_lower(c),
{
    if 'A' <= c && c <= 'Z' {
        let code: u8 = ((c as u32) + 32) as u8;
        code as char
    } else {
        c
    }
}

/// Returns the ASCII uppercase form of `c`.
pub fn char_to_ascii_upper(c: char) -> (r: char)
    ensures
        r == ascii_upper(c),
{
    if 'a' <= c && c <= 'z' {
        let code: u8 = ((c as u32) - 32) as u8;
        code as char
    } else {
        c
    }
}

/// Returns a string of two characters.
pub fn string_of_two(a: char, b: char) -> (r: String)
    ensures
        r@ == seq![a, b],
{
    let mut s = String::new();
    s.push(a);
    s.push(b);
    s
}

/// Changing the case of an ASCII letter gives a letter of that case, which a second change of the
/// same kind leaves as it is.
pub proof fn lemma_ascii_case(c: char)
    requires
        is_ascii_alpha(c),
    ensures
        is_ascii_lower(ascii_lower(c)),
        is_ascii_upper(ascii_upper(c)),
        is_ascii_alpha(ascii_lower(c)),
        is_ascii_alpha(ascii_upper(c)),
        ascii_lower(ascii_lower(c)) == ascii_lower(c),
        ascii_upper(ascii_upper(c)) == ascii_upper(c),
{
}

} // verus!
