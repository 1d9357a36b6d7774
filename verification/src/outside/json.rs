//! JSON lists of text pairs, by the `serde_json` crate.
use vstd::prelude::*;

verus! {

/// The texts of a list of pairs.
pub open spec fn pair_texts(list: Seq<(String, String)>) -> Seq<(Seq<char>, Seq<char>)> {
    list.map_values(|p: (String, String)| (p.0@, p.1@))
}

/// The JSON text that `serde_json::to_string` writes for a list of text pairs.
pub uninterp spec fn pairs_json(pairs: Seq<(Seq<char>, Seq<char>)>) -> Seq<char>;

/// The list of text pairs that `serde_json::from_str` reads in a JSON text.
pub uninterp spec fn json_pairs(json: Seq<char>) -> Option<Seq<(Seq<char>, Seq<char>)>>;

/// `serde_json::to_string` writes a list of text pairs. It fails only where a
/// value refuses to be written or a map has a key that is no text, and neither
/// is so here. What it writes reads back as the same list.
#[verifier::external_body]
pub(crate) fn write_pairs(pairs: &Vec<(String, String)>) -> (r: Option<String>)
    ensures
        r is Some,
        r->0@ == pairs_json(pair_texts(pairs@)),
        json_pairs(r->0@) == Some(pair_texts(pairs@)),
{
    serde_json::to_string(pairs).ok()
}

/// `serde_json::from_str` reads a list of text pairs, or nothing where the text
/// is no JSON or another value. The outcome depends on the text alone.
#[verifier::external_body]
pub(crate) fn read_pairs(json: &str) -> (r: Option<Vec<(String, String)>>)
    ensures
        match r {
            Some(pairs) => json_pairs(json@) == Some(pair_texts(pairs@)),
            None => json_pairs(json@) is None,
        },
{
    serde_json::from_str::<Vec<(String, String)>>(json).ok()
}

} // verus!
