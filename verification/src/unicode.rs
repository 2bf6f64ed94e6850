//! Unicode case mapping and lossy decoding, as the standard library does them.

use vstd::prelude::*;
use vstd::utf8::{decode_utf8, is_ascii_chars, valid_utf8};

use crate::text::folded;

verus! {

/// `s` in lower case.
pub uninterp spec fn lowercase(s: Seq<char>) -> Seq<char>;

/// `s` in upper case.
pub uninterp spec fn uppercase(s: Seq<char>) -> Seq<char>;

/// The text that `bytes` encode in UTF-8, with a replacement character for what is not valid.
pub uninterp spec fn utf8_lossy(bytes: Seq<u8>) -> Seq<char>;

/// The text that `units` encode in UTF-16, with a replacement character for what is not valid.
pub uninterp spec fn utf16_lossy(units: Seq<u16>) -> Seq<char>;

/// An ASCII lower-case letter in upper case; any other character as it is.
pub open spec fn ascii_upper(c: char) -> char {
    if 'a' <= c && c <= 'z' {
        (c as u8 - 32) as u8 as char
    } else {
        c
    }
}

/// `s` with its ASCII letters in upper case.
pub open spec fn raised(s: Seq<char>) -> Seq<char> {
    s.map_values(|c: char| ascii_upper(c))
}

/// `str::to_lowercase`. Its result goes by Unicode tables and is named here; on text that is
/// all ASCII it is the mapping of the ASCII letters alone.
#[verifier::external_body]
pub(crate) fn to_lowercase(s: &str) -> (low: String)
    ensures
        low@ == lowercase(s@),
        is_ascii_chars(s@) ==> low@ == folded(s@),
{
    s.to_lowercase()
}

/// `str::to_uppercase`. Its result goes by Unicode tables and is named here; on text that is
/// all ASCII it is the mapping of the ASCII letters alone.
#[verifier::external_body]
pub(crate) fn to_uppercase(s: &str) -> (up: String)
    ensures
        up@ == uppercase(s@),
        is_ascii_chars(s@) ==> up@ == raised(s@),
{
    s.to_uppercase()
}

/// `String::from_utf8_lossy`. Its result is named; on bytes that are valid UTF-8 it is the text
/// that they encode.
#[verifier::external_body]
pub(crate) fn from_utf8_lossy(bytes: &[u8]) -> (text: String)
    ensures
        text@ == utf8_lossy(bytes@),
        valid_utf8(bytes@) ==> text@ == decode_utf8(bytes@),
{
    String::from_utf8_lossy(bytes).into_owned()
}

/// Whether a UTF-16 unit is half of a surrogate pair.
pub open spec fn is_surrogate(unit: u16) -> bool {
    0xd800 <= unit && unit <= 0xdfff
}

/// `String::from_utf16_lossy`. Its result is named; units outside the surrogate range each
/// decode to the character of their number.
#[verifier::external_body]
pub(crate) fn from_utf16_lossy(units: &[u16]) -> (text: String)
    ensures
        text@ == utf16_lossy(units@),
        (forall|i: int| 0 <= i < units@.len() ==> !is_surrogate(#[trigger] units@[i])) ==> text@
            == units@.map_values(|unit: u16| unit as char),
{
    String::from_utf16_lossy(units)
}

} // verus!
