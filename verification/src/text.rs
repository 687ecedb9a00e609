//! Characters and strings as the markup engine sees them.
//!
//! Markup is scanned by character index, so every string is first turned into
//! its sequence of characters. The character classes of the grammar are
//! defined here as plain predicates on code points.

use vstd::prelude::*;
use vstd::std_specs::iter::IteratorSpec;
use vstd::string::StringExecFns;

verus! {

/// `String::push` of the standard library: the character is appended at the
/// end of the string and nothing before it changes.
pub assume_specification[ std::string::String::push ](s: &mut std::string::String, c: char)
    ensures
        final(s)@ == old(s)@.push(c),
;

/// `==` on string slices of the standard library: two slices are equal
/// exactly when they hold the same characters in the same order.
pub assume_specification[ <str as PartialEq>::eq ](a: &str, b: &str) -> (r: bool)
    ensures
        r == (a@ == b@),
;

/// An ASCII letter or digit.
pub open spec fn spec_is_ascii_alphanumeric(c: char) -> bool {
    ('a' <= c && c <= 'z') || ('A' <= c && c <= 'Z') || ('0' <= c && c <= '9')
}

#[verifier::when_used_as_spec(spec_is_ascii_alphanumeric)]
pub fn is_ascii_alphanumeric(c: char) -> (r: bool)
    ensures
        r == spec_is_ascii_alphanumeric(c),
{
    ('a' <= c && c <= 'z') || ('A' <= c && c <= 'Z') || ('0' <= c && c <= '9')
}

/// A character that may stand in a tag name: `[A-Za-z0-9_-]`.
pub open spec fn spec_is_name_char(c: char) -> bool {
    spec_is_ascii_alphanumeric(c) || c == '_' || c == '-'
}

#[verifier::when_used_as_spec(spec_is_name_char)]
pub fn is_name_char(c: char) -> (r: bool)
    ensures
        r == spec_is_name_char(c),
{
    is_ascii_alphanumeric(c) || c == '_' || c == '-'
}

/// White space in the sense of Unicode's `White_Space` property.
pub open spec fn spec_is_whitespace(c: char) -> bool {
    ||| ('\u{9}' <= c && c <= '\u{d}')
    ||| c == ' '
    ||| c == '\u{85}'
    ||| c == '\u{a0}'
    ||| c == '\u{1680}'
    ||| ('\u{2000}' <= c && c <= '\u{200a}')
    ||| c == '\u{2028}'
    ||| c == '\u{2029}'
    ||| c == '\u{202f}'
    ||| c == '\u{205f}'
    ||| c == '\u{3000}'
}

#[verifier::when_used_as_spec(spec_is_whitespace)]
pub fn is_whitespace(c: char) -> (r: bool)
    ensures
        r == spec_is_whitespace(c),
{
    ('\u{9}' <= c && c <= '\u{d}') || c == ' ' || c == '\u{85}' || c == '\u{a0}' || c
        == '\u{1680}' || ('\u{2000}' <= c && c <= '\u{200a}') || c == '\u{2028}' || c
        == '\u{2029}' || c == '\u{202f}' || c == '\u{205f}' || c == '\u{3000}'
}

/// The lower-case form of an ASCII letter; every other character is itself.
pub open spec fn spec_to_ascii_lowercase(c: char) -> char {
    if 'A' <= c && c <= 'Z' {
        ((c as u8) + 32) as char
    } else {
        c
    }
}

#[verifier::when_used_as_spec(spec_to_ascii_lowercase)]
pub fn to_ascii_lowercase(c: char) -> (r: char)
    ensures
        r == spec_to_ascii_lowercase(c),
{
    if 'A' <= c && c <= 'Z' {
        ((c as u8) + 32) as char
    } else {
        c
    }
}

/// A sequence of characters with every ASCII letter in lower case.
pub open spec fn lowercase(s: Seq<char>) -> Seq<char> {
    Seq::new(s.len(), |i: int| spec_to_ascii_lowercase(s[i]))
}

/// The value of a hexadecimal digit, if the character is one.
pub open spec fn spec_hex_value(c: char) -> Option<u8> {
    if '0' <= c && c <= '9' {
        Some(((c as u8) - 48) as u8)
    } else if 'a' <= c && c <= 'f' {
        Some(((c as u8) - 87) as u8)
    } else if 'A' <= c && c <= 'F' {
        Some(((c as u8) - 55) as u8)
    } else {
        None
    }
}

#[verifier::when_used_as_spec(spec_hex_value)]
pub fn hex_value(c: char) -> (r: Option<u8>)
    ensures
        r == spec_hex_value(c),
        r matches Some(v) ==> v < 16,
{
    if '0' <= c && c <= '9' {
        Some((c as u8) - 48)
    } else if 'a' <= c && c <= 'f' {
        Some((c as u8) - 87)
    } else if 'A' <= c && c <= 'F' {
        Some((c as u8) - 55)
    } else {
        None
    }
}

/// The views of a sequence of strings, one for one.
pub open spec fn strings_view(v: Seq<String>) -> Seq<Seq<char>> {
    Seq::new(v.len(), |i: int| v[i]@)
}

/// The characters of a string, in order.
pub fn chars_of(s: &str) -> (r: Vec<char>)
    ensures
        r@ == s@,
{
    broadcast use vstd::string::group_string_axioms;

    let mut out: Vec<char> = Vec::new();
    let mut it = s.chars();
    loop
        invariant
            out@ + it.remaining() == s@,
            it.decrease() is Some,
        ensures
            out@ == s@,
        decreases it.decrease()->0,
    {
        match it.next() {
            Some(c) => {
                out.push(c);
            },
            None => {
                break ;
            },
        }
    }
    out
}

/// The string made of the characters `chars[from..to]`.
pub fn string_of(chars: &Vec<char>, from: usize, to: usize) -> (r: String)
    requires
        from <= to <= chars.len(),
    ensures
        r@ == chars@.subrange(from as int, to as int),
{
    let mut out = String::new();
    let mut i: usize = from;
    while i < to
        invariant
            from <= i <= to <= chars.len(),
            out@ == chars@.subrange(from as int, i as int),
        decreases to - i,
    {
        out.push(chars[i]);
        i = i + 1;
    }
    out
}

/// An owned copy of a string slice.
pub fn owned(s: &str) -> (r: String)
    ensures
        r@ == s@,
{
    String::from_str(s)
}

/// Whether two string slices hold the same characters.
pub fn str_eq(a: &str, b: &str) -> (r: bool)
    ensures
        r == (a@ == b@),
{
    *a == *b
}

} // verus!
