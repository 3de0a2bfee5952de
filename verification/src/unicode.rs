//! Uppercase, and bytes read as text.
//!
//! Both rest on the standard library, which is called on trust: each call
//! stands in a private function whose contract says what is taken from it.
//! `str::to_uppercase` gives the uppercase form; what it does to ASCII text
//! is spelled out, and what it does to other text goes by the name
//! [`unicode_uppercase`]. `String::from_utf8_lossy` reads bytes; for valid
//! UTF-8 the result is the text that the bytes encode, and for other bytes
//! it goes by the name [`lossy_text`].

use vstd::prelude::*;
use vstd::utf8::{decode_utf8, is_ascii_chars, valid_utf8};

verus! {

/// The uppercase form of an ASCII letter, and any other character unchanged.
pub open spec fn ascii_upper(c: char) -> char {
    if 'a' <= c <= 'z' {
        (c as u8 - 32) as u8 as char
    } else {
        c
    }
}

/// What `str::to_uppercase` returns for the characters `s`: their Unicode
/// uppercase mapping.
pub uninterp spec fn unicode_uppercase(s: Seq<char>) -> Seq<char>;

/// The uppercase form of `s`. For ASCII text this is the letters `a` to `z`
/// replaced by `A` to `Z`; for other text it is the Unicode mapping.
pub open spec fn uppercase(s: Seq<char>) -> Seq<char> {
    if is_ascii_chars(s) {
        s.map_values(|c: char| ascii_upper(c))
    } else {
        unicode_uppercase(s)
    }
}

/// Text without a lowercase letter, all of it ASCII, is its own uppercase
/// form.
pub proof fn lemma_uppercase_unchanged(s: Seq<char>)
    requires
        is_ascii_chars(s),
        forall|i: int| 0 <= i < s.len() ==> !('a' <= #[trigger] s[i] <= 'z'),
    ensures
        uppercase(s) == s,
{
    assert(s.map_values(|c: char| ascii_upper(c)) =~= s);
}

/// Calls `str::to_uppercase`. Trusted: the result is the Unicode uppercase
/// mapping of the input, a function of its characters alone, and on text
/// that is all ASCII it replaces the letters `a` to `z` by `A` to `Z` and
/// leaves every other character as it is.
#[verifier::external_body]
fn to_uppercase(s: &str) -> (upper: String)
    ensures
        upper@ == unicode_uppercase(s@),
        is_ascii_chars(s@) ==> upper@ == s@.map_values(|c: char| ascii_upper(c)),
{
    s.to_uppercase()
}

/// The uppercase form of `s` as a new string.
pub fn uppercase_string(s: &str) -> (upper: String)
    ensures
        upper@ == uppercase(s@),
{
    to_uppercase(s)
}

/// What `String::from_utf8_lossy` makes of `bytes`: their text, with the
/// replacement character in place of each part that is not UTF-8.
pub uninterp spec fn lossy_text(bytes: Seq<u8>) -> Seq<char>;

/// The text that `bytes` hold: what they encode where they are UTF-8, and
/// the lossy reading otherwise.
pub open spec fn text_of(bytes: Seq<u8>) -> Seq<char> {
    if valid_utf8(bytes) {
        decode_utf8(bytes)
    } else {
        lossy_text(bytes)
    }
}

/// Calls `String::from_utf8_lossy`. Trusted: the result is a function of
/// the bytes alone, and for bytes that are valid UTF-8 it is the text that
/// they encode.
#[verifier::external_body]
fn from_utf8_lossy(bytes: &[u8]) -> (text: String)
    ensures
        text@ == lossy_text(bytes@),
        valid_utf8(bytes@) ==> text@ == decode_utf8(bytes@),
{
    String::from_utf8_lossy(bytes).into_owned()
}

/// Reads bytes as text, whatever they hold.
pub fn decode_text(bytes: &[u8]) -> (text: String)
    ensures
        text@ == text_of(bytes@),
{
    from_utf8_lossy(bytes)
}

} // verus!
