//! HTTP headers, by the `rama-http` crate.
use rama_http::header::AUTHORIZATION;
use rama_http::HeaderMap;
use rama_http::HeaderValue;
use vstd::prelude::*;
use vstd::utf8::*;

verus! {

/// The value of a header.
#[verifier::external_type_specification]
#[verifier::external_body]
pub struct ExHeaderValue(HeaderValue);

/// A multimap from header names to values.
#[verifier::external_type_specification]
#[verifier::external_body]
#[verifier::reject_recursive_types(T)]
pub struct ExHeaderMap<T>(HeaderMap<T>);

/// The bytes of a header value.
pub uninterp spec fn value_bytes(value: HeaderValue) -> Seq<u8>;

/// The values of each header name, first one first. A name that is there has at
/// least one value.
pub uninterp spec fn header_values(headers: HeaderMap<HeaderValue>) -> Map<
    Seq<char>,
    Seq<Seq<u8>>,
>;

/// The bytes that a header value may hold.
pub open spec fn is_header_byte(b: u8) -> bool {
    (b >= 32 && b != 127) || b == 9
}

/// The bytes of a header value that reads as text.
pub open spec fn is_visible_byte(b: u8) -> bool {
    (32 <= b && b < 127) || b == 9
}

/// Whether a header value may hold these bytes.
pub open spec fn may_hold(bytes: Seq<u8>) -> bool {
    forall|i: int| 0 <= i < bytes.len() ==> is_header_byte(#[trigger] bytes[i])
}

/// Whether a header value of these bytes reads as text.
pub open spec fn reads_as_text(bytes: Seq<u8>) -> bool {
    forall|i: int| 0 <= i < bytes.len() ==> is_visible_byte(#[trigger] bytes[i])
}

/// The first value of a header name.
pub open spec fn first_value(headers: HeaderMap<HeaderValue>, name: Seq<char>) -> Option<Seq<u8>> {
    if header_values(headers).contains_key(name) {
        Some(header_values(headers)[name][0])
    } else {
        None
    }
}

/// How many header names a map is sure to have room for, one more included.
pub const ROOMY_HEADER_NAMES: usize = 6553;

/// `HeaderValue::from_str` accepts a text whose bytes are neither control bytes
/// other than the tab nor the delete byte, and holds those bytes.
#[verifier::external_body]
pub(crate) fn header_value_of(s: &str) -> (r: Option<HeaderValue>)
    ensures
        r is Some <==> may_hold(encode_utf8(s@)),
        r matches Some(value) ==> value_bytes(value) == encode_utf8(s@),
{
    HeaderValue::from_str(s).ok()
}

/// `HeaderValue::to_str` gives the text of a value that holds visible ASCII
/// characters and tabs only, and fails on any other.
#[verifier::external_body]
pub(crate) fn header_value_text(value: &HeaderValue) -> (r: Option<&str>)
    ensures
        r is Some <==> reads_as_text(value_bytes(*value)),
        r matches Some(s) ==> encode_utf8(s@) == value_bytes(*value),
{
    value.to_str().ok()
}

/// `HeaderMap::get` gives the first value of a name, here of `authorization`.
#[verifier::external_body]
pub(crate) fn authorization_value(headers: &HeaderMap<HeaderValue>) -> (r: Option<&HeaderValue>)
    ensures
        match r {
            Some(value) => first_value(*headers, "authorization"@) == Some(value_bytes(*value)),
            None => first_value(*headers, "authorization"@) is None,
        },
{
    headers.get(AUTHORIZATION)
}

/// `HeaderMap::try_insert` makes one value the only one of a name, here of
/// `authorization`, and leaves the other names alone. It refuses, and changes
/// nothing, only where the map cannot grow; with few enough names it always can.
#[verifier::external_body]
pub(crate) fn put_authorization(headers: &mut HeaderMap<HeaderValue>, value: HeaderValue) -> (r:
    bool)
    ensures
        header_values(*final(headers)) == if r {
            header_values(*old(headers)).insert("authorization"@, seq![value_bytes(value)])
        } else {
            header_values(*old(headers))
        },
        header_values(*old(headers)).dom().finite() && header_values(*old(headers)).dom().len()
            <= ROOMY_HEADER_NAMES ==> r,
{
    headers.try_insert(AUTHORIZATION, value).is_ok()
}

} // verus!
