//! The identifiers that tie a feedback report to a generated app: which
//! argument fields carry them and which texts they accept.
use crate::text;
use vstd::prelude::*;

verus! {

/// The argument fields that carry an identifier, each with its prefix.
pub open spec fn id_prefix(field: Seq<char>) -> Option<Seq<char>> {
    if field == "project_id"@ {
        Some("appgprj_"@)
    } else if field == "deployment_id"@ {
        Some("appgdep_"@)
    } else if field == "version_id"@ {
        Some("appgver_"@)
    } else {
        None
    }
}

/// A prefix followed by one to sixty-four hexadecimal digits.
pub open spec fn prefixed_hex_id(value: Seq<char>, prefix: Seq<char>) -> bool {
    &&& prefix.is_prefix_of(value)
    &&& 1 <= value.len() - prefix.len() <= 64
    &&& forall|i: int| prefix.len() <= i < value.len() ==> text::is_hex_digit(#[trigger] value[i])
}

/// The project and the version of a version identifier that names both.
pub open spec fn compound_version(value: Seq<char>) -> Option<(Seq<char>, Seq<char>)> {
    match text::split_once(value, '~') {
        Some((project, version)) => if prefixed_hex_id(project, "appgprj_"@) && prefixed_hex_id(
            version,
            "appgver_"@,
        ) {
            Some((project, version))
        } else {
            None
        },
        None => None,
    }
}

/// Whether a text is an identifier of the given field.
pub open spec fn accepted_id(field: Seq<char>, prefix: Seq<char>, value: Seq<char>) -> bool {
    ||| field == "version_id"@ && compound_version(value) is Some
    ||| prefixed_hex_id(value, prefix)
}

/// The three fields are told apart by their names.
pub proof fn lemma_fields_differ()
    ensures
        "project_id"@ != "deployment_id"@,
        "project_id"@ != "version_id"@,
        "deployment_id"@ != "version_id"@,
{
    reveal_strlit("project_id");
    reveal_strlit("deployment_id");
    reveal_strlit("version_id");
    assert("project_id"@[0] != "deployment_id"@[0]);
    assert("project_id"@[0] != "version_id"@[0]);
    assert("deployment_id"@[0] != "version_id"@[0]);
}

/// A version identifier that names its project is no plain identifier.
pub proof fn law_compound_version_is_no_plain_id(value: Seq<char>, prefix: Seq<char>)
    requires
        compound_version(value) is Some,
        prefix == "appgprj_"@ || prefix == "appgver_"@ || prefix == "appgdep_"@,
    ensures
        !prefixed_hex_id(value, prefix),
{
    reveal_strlit("appgprj_");
    reveal_strlit("appgver_");
    reveal_strlit("appgdep_");
    text::lemma_find(value, '~');
    let at = text::find(value, '~') as int;
    let project = value.take(at);
    assert(project.len() >= "appgprj_"@.len());
    assert(value[at] == '~');
}

/// Whether a text is a prefix followed by one to sixty-four hexadecimal digits.
pub fn valid_prefixed_hex_id(value: &str, prefix: &str) -> (r: bool)
    ensures
        r == prefixed_hex_id(value@, prefix@),
{
    if !text::starts_with(value, prefix) {
        return false;
    }
    let cs: Vec<char> = text::chars_of(value);
    let p: usize = prefix.unicode_len();
    let n: usize = cs.len();
    if n == p || n - p > 64 {
        return false;
    }
    let mut i: usize = p;
    while i < n
        invariant
            cs@ == value@,
            n == cs@.len(),
            p <= i <= n,
            p == prefix@.len(),
            forall|k: int| p <= k < i ==> text::is_hex_digit(#[trigger] value@[k]),
        decreases n - i,
    {
        let c: char = cs[i];
        if !(('0' <= c && c <= '9') || ('a' <= c && c <= 'f') || ('A' <= c && c <= 'F')) {
            assert(!text::is_hex_digit(value@[i as int]));
            return false;
        }
        i += 1;
    }
    true
}

/// The project and the version of a version identifier that names both.
pub fn split_compound_appgen_version_id(value: &str) -> (r: Option<(&str, &str)>)
    ensures
        match r {
            Some((project, version)) => compound_version(value@) == Some((project@, version@)),
            None => compound_version(value@) is None,
        },
{
    match text::split_at_char(value, '~') {
        Some((project, version)) => {
            if valid_prefixed_hex_id(project, "appgprj_") && valid_prefixed_hex_id(
                version,
                "appgver_",
            ) {
                Some((project, version))
            } else {
                None
            }
        },
        None => None,
    }
}

/// Whether a text is an identifier of the given field.
pub fn valid_appgen_id(field: &str, prefix: &str, value: &str) -> (r: bool)
    ensures
        r == accepted_id(field@, prefix@, value@),
{
    if text::same_text(field, "version_id") && split_compound_appgen_version_id(value).is_some() {
        return true;
    }
    valid_prefixed_hex_id(value, prefix)
}

} // verus!
