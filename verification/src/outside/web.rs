//! URLs, by the `url` crate, as it is built for Unix: a Windows build makes other
//! paths of `file` URLs, and none of one without a drive.
use crate::path::LocalPath;
use crate::text;
use vstd::prelude::*;
use vstd::utf8::*;

verus! {

/// A parsed URL.
#[verifier::external_type_specification]
#[verifier::external_body]
pub struct ExUrl(url::Url);

/// The serialization that a URL holds. URLs are equal just when it is.
pub uninterp spec fn url_serialization(parsed: url::Url) -> Seq<char>;

/// What `url::Url::parse` makes of a text: the serialization of the URL, or nothing.
pub uninterp spec fn url_parse(input: Seq<char>) -> Option<Seq<char>>;

/// What `url::Url::to_file_path` makes of the URL with a serialization: the
/// bytes of a path, or nothing.
pub uninterp spec fn url_file_path(serialization: Seq<char>) -> Option<Seq<u8>>;

/// The characters that stand for themselves in the path of a URL, but for the dot.
pub open spec fn is_plain_char(c: char) -> bool {
    text::is_ascii_letter(c) || '0' <= c <= '9' || c == '-' || c == '_'
}

/// An absolute path of such characters, slashes, and dots that stand behind such
/// a character. It neither starts with two slashes nor has a segment of dots only.
pub open spec fn is_plain_path(path: Seq<char>) -> bool {
    &&& path.len() > 0
    &&& path[0] == '/'
    &&& path.len() > 1 ==> path[1] != '/'
    &&& forall|i: int|
        0 <= i < path.len() ==> is_plain_char(#[trigger] path[i]) || path[i] == '/' || (path[i] == '.'
            && i > 0 && is_plain_char(path[i - 1]))
}

/// The `file` URL of a path that needs no encoding.
pub open spec fn plain_file_url(path: Seq<char>) -> Seq<char> {
    "file://"@ + path
}

/// `url::Url::parse` reads a text as an absolute URL. The outcome depends on the
/// text alone. A text that starts with a slash or a backslash is no absolute URL,
/// and where one starts with a letter and a colon, the scheme is a single lower-case
/// letter. The `file` URL of a plain path serializes as it is written.
#[verifier::external_body]
pub(crate) fn parse_url(input: &str) -> (r: Option<url::Url>)
    ensures
        match r {
            Some(parsed) => url_parse(input@) == Some(url_serialization(parsed)),
            None => url_parse(input@) is None,
        },
        input@.len() > 0 && (input@[0] == '/' || input@[0] == '\\') ==> r is None,
        r is Some && input@.len() >= 2 && text::is_ascii_letter(input@[0]) && input@[1] == ':' ==> (
        url_serialization(r->0).len() >= 2 && text::is_ascii_lower(url_serialization(r->0)[0])
            && url_serialization(r->0)[1] == ':'),
        forall|path: Seq<char>|
            input@ == #[trigger] plain_file_url(path) && is_plain_path(path) ==> r is Some
                && url_serialization(r->0) == input@,
{
    url::Url::parse(input).ok()
}

/// `url::Url::scheme` gives the part of the serialization before its first colon.
#[verifier::external_body]
pub(crate) fn url_scheme(parsed: &url::Url) -> (r: &str)
    ensures
        r@ == url_serialization(*parsed).take(
            text::find(url_serialization(*parsed), ':') as int,
        ),
{
    parsed.scheme()
}

/// `url::Url::to_file_path` gives the local path of a `file` URL. The outcome
/// depends on the serialization alone. For a plain path it is that path. Both are
/// said of a Unix build; on Windows a plain path names no drive and gives nothing.
#[verifier::external_body]
pub(crate) fn url_to_path(parsed: &url::Url) -> (r: Option<LocalPath>)
    ensures
        match r {
            Some(path) => url_file_path(url_serialization(*parsed)) == Some(path@),
            None => url_file_path(url_serialization(*parsed)) is None,
        },
        forall|path: Seq<char>|
            url_serialization(*parsed) == #[trigger] plain_file_url(path) && is_plain_path(path)
                ==> r is Some && r->0@ == encode_utf8(path),
{
    let path = parsed.to_file_path().ok()?;
    Some(LocalPath { bytes: path.into_os_string().into_encoded_bytes() })
}

} // verus!
