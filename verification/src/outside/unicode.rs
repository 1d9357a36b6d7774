//! Unicode conversions of the standard library.
use vstd::prelude::*;
use vstd::utf8::*;

verus! {

/// What `str::to_lowercase` makes of a text.
pub uninterp spec fn lowercase(s: Seq<char>) -> Seq<char>;

/// What `String::from_utf8_lossy` makes of a byte string.
pub uninterp spec fn lossy_text(bytes: Seq<u8>) -> Seq<char>;

/// The lower-case letter of an ASCII capital; other characters stay as they are.
pub open spec fn ascii_lower(c: char) -> char {
    if 'A' <= c <= 'Z' {
        (c as u8 + 32) as char
    } else {
        c
    }
}

/// `str::to_lowercase` gives the lower-case form of a text. It depends on the
/// text alone, and on ASCII text it lowers the capital letters.
#[verifier::external_body]
pub(crate) fn lowercase_text(s: &str) -> (r: String)
    ensures
        r@ == lowercase(s@),
        is_ascii_chars(s@) ==> r@ == s@.map_values(|c: char| ascii_lower(c)),
{
    s.to_lowercase()
}

/// `String::from_utf8_lossy` reads bytes as UTF-8, with replacement characters
/// where they are none. The text depends on the bytes alone, and valid UTF-8 is
/// read as what it encodes.
#[verifier::external_body]
pub(crate) fn decode_lossy(bytes: &[u8]) -> (r: String)
    ensures
        r@ == lossy_text(bytes@),
        valid_utf8(bytes@) ==> r@ == decode_utf8(bytes@),
{
    String::from_utf8_lossy(bytes).into_owned()
}

} // verus!
