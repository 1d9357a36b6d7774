//! POSIX shell words, by the `shlex` crate.
use crate::text;
use vstd::prelude::*;

verus! {

/// The words that `shlex::Shlex` yields for a text, in order, up to the first error.
pub uninterp spec fn shell_words(input: Seq<char>) -> Seq<Seq<char>>;

/// The characters that a shell does not take for themselves outside quotes.
pub open spec fn is_shell_special(c: char) -> bool {
    c == ' ' || c == '\t' || c == '"' || c == '\'' || c == '\\' || c == '#'
}

/// A text with a backslash before each special character.
pub open spec fn shell_escaped(s: Seq<char>) -> Seq<char>
    decreases s.len(),
{
    if s.len() == 0 {
        s
    } else if is_shell_special(s.last()) {
        shell_escaped(s.drop_last()).push('\\').push(s.last())
    } else {
        shell_escaped(s.drop_last()).push(s.last())
    }
}

/// A text between two quotes.
pub open spec fn quoted(s: Seq<char>, quote: char) -> Seq<char> {
    seq![quote] + s + seq![quote]
}

/// Whether a text stands for itself between two quotes.
pub open spec fn fits_quotes(s: Seq<char>, quote: char) -> bool {
    ||| quote == '\'' && !s.contains('\'')
    ||| quote == '"' && !s.contains('"') && !s.contains('\\')
}

/// `shlex::Shlex` splits a text into words as a POSIX shell does. The words
/// depend on the text alone. A text that is not empty, has no newline and has a
/// backslash before each special character is one word, without those backslashes.
/// So is a text between quotes that it fits, without the quotes.
#[verifier::external_body]
pub(crate) fn split_shell_words(input: &str) -> (r: Vec<String>)
    ensures
        text::texts(r@) == shell_words(input@),
        forall|s: Seq<char>|
            input@ == #[trigger] shell_escaped(s) && s.len() > 0 && !s.contains('\n')
                ==> text::texts(r@) == seq![s],
        forall|s: Seq<char>, quote: char|
            input@ == #[trigger] quoted(s, quote) && fits_quotes(s, quote) ==> text::texts(r@)
                == seq![s],
{
    shlex::Shlex::new(input).collect()
}

} // verus!
