//! What stand-ins look like, told from the values that they stand in for.
use crate::broker::credentials;
use crate::broker::credentials::CredentialKind;
use crate::broker::dummy;
use crate::outside::digest;
use crate::text;
use vstd::prelude::*;
use vstd::utf8::*;

verus! {

/// The prefix of a GitHub token is the one of the known ones that it starts with;
/// the fine-grained one is looked for first. A value with none of them gets that of
/// a personal token.
pub proof fn law_github_prefixes(value: Seq<char>)
    ensures
        "github_pat_"@.is_prefix_of(value) ==> dummy::github_prefix(value) == "github_pat_"@,
        "ghp_"@.is_prefix_of(value) ==> dummy::github_prefix(value) == "ghp_"@,
        "gho_"@.is_prefix_of(value) ==> dummy::github_prefix(value) == "gho_"@,
        "ghu_"@.is_prefix_of(value) ==> dummy::github_prefix(value) == "ghu_"@,
        "ghs_"@.is_prefix_of(value) ==> dummy::github_prefix(value) == "ghs_"@,
        "ghr_"@.is_prefix_of(value) ==> dummy::github_prefix(value) == "ghr_"@,
        !"github_pat_"@.is_prefix_of(value) && !"gho_"@.is_prefix_of(value)
            && !"ghu_"@.is_prefix_of(value) && !"ghs_"@.is_prefix_of(value)
            && !"ghr_"@.is_prefix_of(value) ==> dummy::github_prefix(value) == "ghp_"@,
{
    reveal_strlit("github_pat_");
    reveal_strlit("ghp_");
    reveal_strlit("gho_");
    reveal_strlit("ghu_");
    reveal_strlit("ghs_");
    reveal_strlit("ghr_");
    let all = dummy::github_prefixes();
    assert(all.skip(1).skip(1) =~= all.skip(2));
    assert(all.skip(2).skip(1) =~= all.skip(3));
    assert(all.skip(3).skip(1) =~= all.skip(4));
    assert(all.skip(4).skip(1) =~= all.skip(5));
    assert(all.skip(5).skip(1) =~= Seq::<Seq<char>>::empty());
    reveal_with_fuel(dummy::first_prefix, 7);
    if "github_pat_"@.is_prefix_of(value) {
        assert(value[2] == "github_pat_"@[2]);
        assert(value.len() >= 11);
    }
    if "ghp_"@.is_prefix_of(value) {
        assert(value[2] == "ghp_"@[2] && value[1] == "ghp_"@[1]);
    }
    if "gho_"@.is_prefix_of(value) {
        assert(value[2] == "gho_"@[2] && value[1] == "gho_"@[1]);
    }
    if "ghu_"@.is_prefix_of(value) {
        assert(value[2] == "ghu_"@[2] && value[1] == "ghu_"@[1]);
    }
    if "ghs_"@.is_prefix_of(value) {
        assert(value[2] == "ghs_"@[2] && value[1] == "ghs_"@[1]);
    }
    if "ghr_"@.is_prefix_of(value) {
        assert(value[2] == "ghr_"@[2] && value[1] == "ghr_"@[1]);
    }
}

/// The prefix of an OpenAI key reaches up to its second dash. A key with one dash,
/// and any other value, gets the shortest one.
pub proof fn law_openai_prefixes(value: Seq<char>, part: Seq<char>, rest: Seq<char>)
    requires
        !part.contains('-'),
    ensures
        dummy::openai_prefix("sk-"@ + part + seq!['-'] + rest) == "sk-"@ + part + seq!['-'],
        dummy::openai_prefix("sk-"@ + part) == "sk-"@,
        !"sk-"@.is_prefix_of(value) ==> dummy::openai_prefix(value) == "sk-"@,
{
    reveal_strlit("sk-");
    let long = "sk-"@ + part + seq!['-'] + rest;
    assert(long.take(3) =~= "sk-"@);
    assert(long.skip(3) =~= part + seq!['-'] + rest);
    assert forall|i: int| 0 <= i < part.len() implies long.skip(3)[i] != '-' by {
        assert(long.skip(3)[i] == part[i]);
        assert(part.contains(part[i]));
    }
    text::lemma_find_is(long.skip(3), '-', part.len() as int);
    assert(long.take(part.len() as int + 4) =~= "sk-"@ + part + seq!['-']);
    let short = "sk-"@ + part;
    assert(short.take(3) =~= "sk-"@);
    assert(short.skip(3) =~= part);
    assert forall|i: int| 0 <= i < part.len() implies part[i] != '-' by {
        assert(part.contains(part[i]));
    }
    text::lemma_find_is(part, '-', part.len() as int);
}

/// The length of a stand-in in bytes, its prefix counted as it is encoded: that of
/// the value, but not below the minimum, and with sixteen behind the prefix.
pub proof fn law_stand_in_length(
    value: Seq<char>,
    prefix: Seq<char>,
    minimum: nat,
    seed: Seq<char>,
    id: nat,
)
    requires
        encode_utf8(prefix).len() + 16 <= usize::MAX,
    ensures
        ({
            let start = encode_utf8(prefix).len();
            let tail = dummy::shaped_dummy(value, prefix, minimum, seed, id).len() - prefix.len();
            let len = start + tail;
            let given = encode_utf8(value).len();
            &&& len >= given && len >= minimum && len >= start + 16
            &&& len == given || len == minimum || len == start + 16
        }),
{
}

/// Each character of a stand-in behind its prefix, by the byte of the value at the
/// same place: punctuation stays; a digit gives a digit, a capital a capital, a
/// small letter a small letter, and places behind the value get small letters. Which
/// one it is goes by the digest of the seed and the number, and by how far it stands
/// behind the prefix.
pub proof fn law_stand_in_characters(
    value: Seq<char>,
    prefix: Seq<char>,
    minimum: nat,
    seed: Seq<char>,
    id: nat,
    offset: int,
)
    requires
        encode_utf8(prefix).len() + 16 <= usize::MAX,
        0 <= offset,
        prefix.len() + offset < dummy::shaped_dummy(value, prefix, minimum, seed, id).len(),
    ensures
        ({
            let stand_in = dummy::shaped_dummy(value, prefix, minimum, seed, id);
            let hash = digest::sha256(encode_utf8(seed + ":"@ + text::decimal(id)));
            let entropy = (hash[offset % 32] + offset) % 256;
            let bytes = encode_utf8(value);
            let at = encode_utf8(prefix).len() + offset;
            let c = stand_in[prefix.len() + offset];
            &&& stand_in.take(prefix.len() as int) == prefix
            &&& at >= bytes.len() ==> c as int == 'a' as int + entropy % 26
            &&& at < bytes.len() && 'a' as int <= bytes[at] <= 'z' as int ==> c as int == 'a' as int
                + entropy % 26
            &&& at < bytes.len() && 'A' as int <= bytes[at] <= 'Z' as int ==> c as int == 'A' as int
                + entropy % 26
            &&& at < bytes.len() && '0' as int <= bytes[at] <= '9' as int ==> c as int == '0' as int
                + entropy % 10
            &&& at < bytes.len() && !('a' as int <= bytes[at] <= 'z' as int) && !('A' as int
                <= bytes[at] <= 'Z' as int) && !('0' as int <= bytes[at] <= '9' as int) ==> c as int
                == bytes[at]
        }),
{
    let bytes = encode_utf8(value);
    let stand_in = dummy::shaped_dummy(value, prefix, minimum, seed, id);
    let hash = dummy::seed_hash(seed, id);
    let at = encode_utf8(prefix).len() + offset;
    assert(stand_in.take(prefix.len() as int) =~= prefix);
    assert(stand_in[prefix.len() + offset] == dummy::shaped_byte(
        dummy::template_at(bytes, at),
        dummy::entropy_at(hash, offset),
    ) as char);
    assert((hash[offset % 32] + offset % 256) % 256 == (hash[offset % 32] + offset) % 256);
}

/// The stand-ins of GitHub tokens and OpenAI keys: behind the prefix of their kind,
/// of at least forty and fifty-one characters, by seeds of their own.
pub proof fn law_kinds_of_stand_ins(id: nat, value: Seq<char>)
    ensures
        credentials::kind_dummy(CredentialKind::GitHub, id, value) == dummy::shaped_dummy(
            value,
            dummy::github_prefix(value),
            40,
            "github"@,
            id,
        ),
        credentials::kind_dummy(CredentialKind::OpenAiApiKey, id, value) == dummy::shaped_dummy(
            value,
            dummy::openai_prefix(value),
            51,
            "openai"@,
            id,
        ),
{
}

} // verus!
