//! Pasted text that may be a path: a `file` URL, a Windows path, or one shell word.
use crate::outside::shell;
use crate::outside::web;
use crate::paste::windows_path;
use crate::path::LocalPath;
use crate::text;
use vstd::prelude::*;
use vstd::utf8::*;

verus! {

/// A text without the quotes around it, double ones or else single ones.
pub open spec fn unquoted(s: Seq<char>) -> Seq<char> {
    if s.len() >= 2 && s[0] == '"' && s.last() == '"' {
        s.subrange(1, s.len() - 1)
    } else if s.len() >= 2 && s[0] == '\'' && s.last() == '\'' {
        s.subrange(1, s.len() - 1)
    } else {
        s
    }
}

/// Whether a text is a `file` URL, and the local path of one.
pub open spec fn file_url(body: Seq<char>) -> Option<Option<Seq<u8>>> {
    match web::url_parse(body) {
        Some(serialization) => if serialization.take(text::find(serialization, ':') as int)
            == "file"@ {
            Some(web::url_file_path(serialization))
        } else {
            None
        },
        None => None,
    }
}

/// Whether a text is no URL, or one of another scheme than `file`.
pub open spec fn is_no_file_url(body: Seq<char>) -> bool {
    match web::url_parse(body) {
        Some(serialization) => !"file:"@.is_prefix_of(serialization) && serialization != "file"@,
        None => true,
    }
}

/// A text of another scheme is no `file` URL, and one of that scheme is.
pub proof fn law_file_urls_go_by_their_scheme(body: Seq<char>)
    ensures
        is_no_file_url(body) ==> file_url(body) is None,
        web::url_parse(body) is Some && "file:"@.is_prefix_of(web::url_parse(body)->0)
            ==> file_url(body) == Some(web::url_file_path(web::url_parse(body)->0)),
{
    reveal_strlit("file:");
    reveal_strlit("file");
    if let Some(whole) = web::url_parse(body) {
        text::lemma_find(whole, ':');
        let at = text::find(whole, ':') as int;
        if whole.take(at) == "file"@ {
            assert(whole.take(at).len() == at);
            assert("file"@.len() == 4);
            if at < whole.len() {
                assert(whole.take(5) =~= "file:"@) by {
                    assert forall|i: int| 0 <= i < 4 implies whole[i] == "file:"@[i] by {
                        assert(whole.take(at)[i] == "file"@[i]);
                    }
                }
            } else {
                assert(whole.take(at) =~= whole);
            }
        }
        if "file:"@.is_prefix_of(whole) {
            assert(whole.take(5) == "file:"@);
            assert forall|i: int| 0 <= i < 5 implies whole[i] == "file:"@[i] by {
                assert(whole.take(5)[i] == whole[i]);
            }
            text::lemma_find_is(whole, ':', 4);
            assert(whole.take(4) =~= "file"@);
        }
    }
}

/// A path text, in its Windows reading where it has one.
pub open spec fn path_text(s: Seq<char>, wsl: bool) -> Seq<char> {
    match windows_path::windows_path(s, wsl) {
        Some(p) => p,
        None => s,
    }
}

/// The path in a text, given the text without quotes, what it is as a `file`
/// URL, and the shell words of the text with its quotes. A `file` URL comes
/// first, then a Windows path, then a single word.
pub open spec fn chosen_path(
    body: Seq<char>,
    wsl: bool,
    url: Option<Option<Seq<u8>>>,
    words: Seq<Seq<char>>,
) -> Option<Seq<u8>> {
    match url {
        Some(path) => path,
        None => match windows_path::windows_path(body, wsl) {
            Some(p) => Some(encode_utf8(p)),
            None => if words.len() == 1 {
                Some(encode_utf8(path_text(words[0], wsl)))
            } else {
                None
            },
        },
    }
}

/// The path in a pasted text.
pub open spec fn pasted_path(pasted: Seq<char>, wsl: bool) -> Option<Seq<u8>> {
    let trimmed = text::trimmed(pasted);
    chosen_path(
        unquoted(trimmed),
        wsl,
        file_url(unquoted(trimmed)),
        shell::shell_words(trimmed),
    )
}

/// The bytes of a path that may be missing.
pub open spec fn path_bytes(path: Option<LocalPath>) -> Option<Seq<u8>> {
    match path {
        Some(p) => Some(p@),
        None => None,
    }
}

/// The readings of a text as a `file` URL, by their bytes.
pub open spec fn url_bytes(url: Option<Option<LocalPath>>) -> Option<Option<Seq<u8>>> {
    match url {
        Some(path) => Some(path_bytes(path)),
        None => None,
    }
}

/// The text without the quotes around it.
fn unquote(s: &str) -> (r: &str)
    ensures
        r@ == unquoted(s@),
{
    let cs: Vec<char> = text::chars_of(s);
    let n: usize = cs.len();
    if n >= 2 && ((cs[0] == '"' && cs[n - 1] == '"') || (cs[0] == '\'' && cs[n - 1] == '\'')) {
        s.substring_char(1, n - 1)
    } else {
        s
    }
}

/// Reads a text as a `file` URL.
fn read_file_url(body: &str) -> (r: Option<Option<LocalPath>>)
    ensures
        url_bytes(r) == file_url(body@),
        body@.len() > 0 && (body@[0] == '/' || body@[0] == '\\') ==> r is None,
        windows_path::has_drive(body@) ==> r is None,
        forall|path: Seq<char>|
            body@ == #[trigger] web::plain_file_url(path) && web::is_plain_path(path)
                ==> url_bytes(r) == Some(Some(encode_utf8(path))),
{
    match web::parse_url(body) {
        Some(parsed) => {
            let scheme: &str = web::url_scheme(&parsed);
            proof {
                let whole = web::url_serialization(parsed);
                assert forall|path: Seq<char>|
                    whole == #[trigger] web::plain_file_url(path) implies scheme@ == "file"@ by {
                    reveal_strlit("file");
                    reveal_strlit("file://");
                    text::lemma_find_is(whole, ':', 4);
                    assert(whole.take(4) =~= "file"@);
                }
                if windows_path::has_drive(body@) {
                    text::lemma_find_is(whole, ':', 1);
                    reveal_strlit("file");
                    assert(whole.take(1).len() == 1);
                }
            }
            if text::same_text(scheme, "file") {
                Some(web::url_to_path(&parsed))
            } else {
                None
            }
        },
        None => None,
    }
}

/// The path in a text, from its readings.
pub fn choose_pasted_path(
    body: &str,
    wsl: bool,
    url: Option<Option<LocalPath>>,
    words: &Vec<String>,
) -> (r: Option<LocalPath>)
    ensures
        path_bytes(r) == chosen_path(body@, wsl, url_bytes(url), text::texts(words@)),
{
    if let Some(path) = url {
        return path;
    }
    if let Some(p) = windows_path::normalize_windows_path(body, wsl) {
        return Some(LocalPath::from_text(p.as_str()));
    }
    if words.len() == 1 {
        let word: &str = words[0].as_str();
        assert(text::texts(words@)[0] == word@);
        match windows_path::normalize_windows_path(word, wsl) {
            Some(p) => Some(LocalPath::from_text(p.as_str())),
            None => Some(LocalPath::from_text(word)),
        }
    } else {
        None
    }
}

proof fn lemma_escaped_ends(s: Seq<char>)
    requires
        s.len() > 0,
        s[0] == '/',
    ensures
        shell::shell_escaped(s).len() > 0,
        shell::shell_escaped(s)[0] == '/',
        shell::shell_escaped(s).last() == s.last(),
    decreases s.len(),
{
    let front = s.drop_last();
    if front.len() > 0 {
        lemma_escaped_ends(front);
    } else {
        assert(front =~= Seq::<char>::empty());
        assert(s.last() == '/');
        assert(shell::shell_escaped(front) =~= Seq::<char>::empty());
    }
}

/// An escaped text does not start with a quote.
proof fn lemma_escaped_start(s: Seq<char>)
    requires
        s.len() > 0,
    ensures
        shell::shell_escaped(s).len() > 0,
        shell::shell_escaped(s)[0] != '"',
        shell::shell_escaped(s)[0] != '\'',
    decreases s.len(),
{
    let front = s.drop_last();
    if front.len() > 0 {
        lemma_escaped_start(front);
        assert(shell::shell_escaped(s)[0] == shell::shell_escaped(front)[0]);
    } else {
        assert(shell::shell_escaped(front) =~= Seq::<char>::empty());
    }
}

/// The path in a pasted text, if it is one: the path of a `file` URL, a Windows
/// path, or the only word of the text as a shell reads it. A text whose special
/// characters are escaped comes back without the escapes, one in quotes without
/// them, and the path in a `file` URL that needs no encoding as it is. A Windows
/// path comes back as such, in quotes or not.
pub fn normalize_pasted_path(pasted: &str, wsl: bool) -> (r: Option<LocalPath>)
    ensures
        path_bytes(r) == pasted_path(pasted@, wsl),
        forall|s: Seq<char>|
            text::trimmed(pasted@) == #[trigger] shell::shell_escaped(s) && s.len() > 0
                && !s.contains('\n') && is_no_file_url(text::trimmed(pasted@))
                && windows_path::windows_path(text::trimmed(pasted@), wsl) is None
                && windows_path::windows_path(s, wsl) is None ==> path_bytes(r) == Some(
                encode_utf8(s),
            ),
        forall|s: Seq<char>|
            text::trimmed(pasted@) == #[trigger] shell::shell_escaped(s) && s.len() > 0 && s[0]
                == '/' && !s.contains('\n') ==> path_bytes(r) == Some(encode_utf8(s)),
        forall|s: Seq<char>, quote: char|
            text::trimmed(pasted@) == #[trigger] shell::quoted(s, quote) && shell::fits_quotes(
                s,
                quote,
            ) && is_no_file_url(s) && windows_path::windows_path(s, wsl) is None ==> path_bytes(r)
                == Some(encode_utf8(s)),
        forall|s: Seq<char>, quote: char|
            text::trimmed(pasted@) == #[trigger] shell::quoted(s, quote) && shell::fits_quotes(
                s,
                quote,
            ) && s.len() > 0 && s[0] == '/' ==> path_bytes(r) == Some(encode_utf8(s)),
        forall|path: Seq<char>|
            unquoted(text::trimmed(pasted@)) == #[trigger] web::plain_file_url(path)
                && web::is_plain_path(path) ==> path_bytes(r) == Some(encode_utf8(path)),
        windows_path::windows_path(unquoted(text::trimmed(pasted@)), wsl) matches Some(p)
            ==> path_bytes(r) == Some(encode_utf8(p)),
{
    let trimmed: &str = text::trim(pasted);
    let body: &str = unquote(trimmed);
    let url: Option<Option<LocalPath>> = read_file_url(body);
    let words: Vec<String> = shell::split_shell_words(trimmed);
    let r: Option<LocalPath> = choose_pasted_path(body, wsl, url, &words);
    proof {
        assert forall|s: Seq<char>|
            trimmed@ == #[trigger] shell::shell_escaped(s) && s.len() > 0 && s[0] == '/'
                && !s.contains('\n') implies path_bytes(r) == Some(encode_utf8(s)) by {
            lemma_escaped_ends(s);
            assert(body@ == trimmed@);
            assert(text::texts(words@) == seq![s]);
        }
        assert forall|s: Seq<char>|
            trimmed@ == #[trigger] shell::shell_escaped(s) && s.len() > 0 && !s.contains('\n')
                && is_no_file_url(trimmed@) && windows_path::windows_path(trimmed@, wsl) is None
                && windows_path::windows_path(s, wsl) is None implies path_bytes(r) == Some(
            encode_utf8(s),
        ) by {
            lemma_escaped_start(s);
            assert(body@ == trimmed@);
            law_file_urls_go_by_their_scheme(body@);
            assert(text::texts(words@) == seq![s]);
        }
        assert forall|s: Seq<char>, quote: char|
            trimmed@ == #[trigger] shell::quoted(s, quote) && shell::fits_quotes(s, quote)
                && is_no_file_url(s) && windows_path::windows_path(s, wsl) is None implies path_bytes(
        r) == Some(encode_utf8(s)) by {
            assert(trimmed@[0] == quote && trimmed@.last() == quote);
            assert(body@ =~= s);
            law_file_urls_go_by_their_scheme(body@);
            assert(text::texts(words@) == seq![s]);
        }
        assert forall|s: Seq<char>, quote: char|
            trimmed@ == #[trigger] shell::quoted(s, quote) && shell::fits_quotes(s, quote)
                && s.len() > 0 && s[0] == '/' implies path_bytes(r) == Some(encode_utf8(s)) by {
            assert(trimmed@[0] == quote && trimmed@.last() == quote);
            assert(body@ =~= s);
            assert(text::texts(words@) == seq![s]);
        }
    }
    r
}

/// A text whose special characters are escaped comes back as it was, from the root
/// or not, where the shell reads the escapes and neither form is a `file` URL or a
/// Windows path.
pub proof fn law_escaped_texts_come_back(s: Seq<char>, wsl: bool)
    requires
        s.len() > 0,
        text::trimmed(shell::shell_escaped(s)) == shell::shell_escaped(s),
        shell::shell_words(shell::shell_escaped(s)) == seq![s],
        is_no_file_url(shell::shell_escaped(s)),
        windows_path::windows_path(shell::shell_escaped(s), wsl) is None,
        windows_path::windows_path(s, wsl) is None,
    ensures
        pasted_path(shell::shell_escaped(s), wsl) == Some(encode_utf8(s)),
{
    lemma_escaped_start(s);
    law_file_urls_go_by_their_scheme(shell::shell_escaped(s));
}

} // verus!
