//! Stand-ins for credentials: texts of the same shape that hold no secret.
use crate::outside::digest;
use crate::text;
use vstd::prelude::*;
use vstd::utf8::*;

verus! {

/// The least length of a GitHub stand-in.
pub const GITHUB_TOKEN_MIN_LEN: usize = 40;

/// The least length of an OpenAI stand-in.
pub const OPENAI_API_KEY_MIN_LEN: usize = 51;

/// The known starts of GitHub tokens.
pub open spec fn github_prefixes() -> Seq<Seq<char>> {
    seq!["github_pat_"@, "ghp_"@, "gho_"@, "ghu_"@, "ghs_"@, "ghr_"@]
}

/// The first of some texts that a value starts with.
pub open spec fn first_prefix(prefixes: Seq<Seq<char>>, value: Seq<char>) -> Option<Seq<char>>
    decreases prefixes.len(),
{
    if prefixes.len() == 0 {
        None
    } else if prefixes[0].is_prefix_of(value) {
        Some(prefixes[0])
    } else {
        first_prefix(prefixes.skip(1), value)
    }
}

/// The start of a GitHub token, or that of a personal one where it is unknown.
pub open spec fn github_prefix(value: Seq<char>) -> Seq<char> {
    match first_prefix(github_prefixes(), value) {
        Some(prefix) => prefix,
        None => "ghp_"@,
    }
}

/// The start of an OpenAI key: up to its second dash, where it has one.
pub open spec fn openai_prefix(value: Seq<char>) -> Seq<char> {
    if "sk-"@.is_prefix_of(value) && text::find(value.skip(3), '-') < value.skip(3).len() {
        value.take(text::find(value.skip(3), '-') as int + 4)
    } else {
        "sk-"@
    }
}

pub open spec fn is_digit_byte(b: u8) -> bool {
    48 <= b <= 57
}

pub open spec fn is_upper_byte(b: u8) -> bool {
    65 <= b <= 90
}

pub open spec fn is_lower_byte(b: u8) -> bool {
    97 <= b <= 122
}

pub open spec fn is_alphanumeric_byte(b: u8) -> bool {
    is_digit_byte(b) || is_upper_byte(b) || is_lower_byte(b)
}

/// The byte that stands in for the template byte at a place: punctuation stays,
/// a digit gives a digit, a capital a capital, and all else a small letter.
pub open spec fn shaped_byte(template: Option<u8>, entropy: u8) -> u8 {
    match template {
        Some(b) => if !is_alphanumeric_byte(b) {
            b
        } else if is_digit_byte(b) {
            (48 + entropy % 10) as u8
        } else if is_upper_byte(b) {
            (65 + entropy % 26) as u8
        } else {
            (97 + entropy % 26) as u8
        },
        None => (97 + entropy % 26) as u8,
    }
}

/// The byte of a digest that varies the place at an offset.
pub open spec fn entropy_at(hash: Seq<u8>, offset: int) -> u8 {
    ((hash[offset % 32] + offset % 256) % 256) as u8
}

/// The byte of a template at a place, if it reaches so far.
pub open spec fn template_at(template: Seq<u8>, at: int) -> Option<u8> {
    if at < template.len() {
        Some(template[at])
    } else {
        None
    }
}

/// The length of a stand-in: that of the value, but not below a minimum, and
/// with at least sixteen bytes behind the prefix.
pub open spec fn shaped_len(value_len: nat, prefix_len: nat, minimum: nat) -> nat {
    let padded = if prefix_len + 16 <= usize::MAX {
        prefix_len + 16
    } else {
        usize::MAX as nat
    };
    let floor = if minimum > padded {
        minimum
    } else {
        padded
    };
    if value_len > floor {
        value_len
    } else {
        floor
    }
}

/// The digest that varies the stand-in of a credential.
pub open spec fn seed_hash(seed: Seq<char>, id: nat) -> Seq<u8> {
    digest::sha256(encode_utf8(seed + ":"@ + text::decimal(id)))
}

/// The part of a stand-in behind its prefix.
pub open spec fn shaped_tail(value: Seq<u8>, prefix_len: nat, target_len: nat, hash: Seq<u8>) -> Seq<
    char,
> {
    Seq::new(
        (target_len - prefix_len) as nat,
        |o: int|
            shaped_byte(template_at(value, prefix_len + o), entropy_at(hash, o)) as char,
    )
}

/// A stand-in for a value: the prefix, and behind it bytes of the shape of the value's.
pub open spec fn shaped_by(value: Seq<char>, prefix: Seq<char>, minimum: nat, hash: Seq<u8>) -> Seq<
    char,
> {
    let bytes = encode_utf8(value);
    let prefix_len = encode_utf8(prefix).len();
    prefix + shaped_tail(
        bytes,
        prefix_len,
        shaped_len(bytes.len(), prefix_len, minimum),
        hash,
    )
}

/// The stand-in for a value that a seed and a number give.
pub open spec fn shaped_dummy(
    value: Seq<char>,
    prefix: Seq<char>,
    minimum: nat,
    seed: Seq<char>,
    id: nat,
) -> Seq<char> {
    shaped_by(value, prefix, minimum, seed_hash(seed, id))
}

/// The start of a GitHub token.
pub fn github_token_prefix(value: &str) -> (r: &'static str)
    ensures
        r@ == github_prefix(value@),
{
    let prefixes: Vec<&'static str> = vec!["github_pat_", "ghp_", "gho_", "ghu_", "ghs_", "ghr_"];
    let ghost all = github_prefixes();
    let n: usize = prefixes.len();
    let mut i: usize = 0;
    proof {
        assert(prefixes@.map_values(|s: &'static str| s@) =~= all);
        assert(all.skip(0) =~= all);
    }
    while i < n
        invariant
            n == prefixes@.len(),
            n == all.len(),
            i <= n,
            all == github_prefixes(),
            prefixes@.map_values(|s: &'static str| s@) == all,
            first_prefix(all, value@) == first_prefix(all.skip(i as int), value@),
        decreases n - i,
    {
        proof {
            assert(prefixes@.map_values(|s: &'static str| s@)[i as int] == prefixes@[i as int]@);
            assert(all.skip(i as int)[0] == prefixes@[i as int]@);
            assert(all.skip(i as int).skip(1) =~= all.skip(i + 1));
        }
        if text::starts_with(value, prefixes[i]) {
            return prefixes[i];
        }
        i += 1;
    }
    "ghp_"
}

/// The start of an OpenAI key.
pub fn openai_api_key_prefix(value: &str) -> (r: &str)
    ensures
        r@ == openai_prefix(value@),
{
    match text::strip_prefix(value, "sk-") {
        None => "sk-",
        Some(rest) => {
            let cs: Vec<char> = text::chars_of(rest);
            let at: usize = text::find_char(cs.as_slice(), '-');
            proof {
                reveal_strlit("sk-");
                text::lemma_find(rest@, '-');
            }
            let n: usize = value.unicode_len();
            if at < cs.len() {
                value.substring_char(0, at + 4)
            } else {
                "sk-"
            }
        },
    }
}

/// A stand-in for a value, varied by a digest.
pub fn shape_with_digest(real_value: &str, prefix: &str, minimum_len: usize, hash: &Vec<u8>) -> (r:
    String)
    requires
        hash@.len() == 32,
    ensures
        r@ == shaped_by(real_value@, prefix@, minimum_len as nat, hash@),
{
    let template: &[u8] = real_value.as_bytes();
    let start: usize = prefix.as_bytes().len();
    let padded: usize = if start <= usize::MAX - 16 {
        start + 16
    } else {
        usize::MAX
    };
    let mut target: usize = template.len();
    if target < minimum_len {
        target = minimum_len;
    }
    if target < padded {
        target = padded;
    }
    let mut dummy: String = prefix.to_string();
    let ghost tail = shaped_tail(template@, start as nat, target as nat, hash@);
    assert(target as nat == shaped_len(template@.len(), start as nat, minimum_len as nat));
    assert(prefix@ + tail.take(0) =~= prefix@);
    let mut index: usize = start;
    while index < target
        invariant
            start <= index <= target,
            hash@.len() == 32,
            template@ == encode_utf8(real_value@),
            tail == shaped_tail(template@, start as nat, target as nat, hash@),
            dummy@ == prefix@ + tail.take(index - start),
        decreases target - index,
    {
        let offset: usize = index - start;
        let entropy: u8 = hash[offset % 32].wrapping_add((offset % 256) as u8);
        assert(entropy == entropy_at(hash@, offset as int));
        let byte: u8 = if index < template.len() {
            let t: u8 = template[index];
            if !((48 <= t && t <= 57) || (65 <= t && t <= 90) || (97 <= t && t <= 122)) {
                t
            } else if 48 <= t && t <= 57 {
                48 + entropy % 10
            } else if 65 <= t && t <= 90 {
                65 + entropy % 26
            } else {
                97 + entropy % 26
            }
        } else {
            97 + entropy % 26
        };
        proof {
            assert(byte == shaped_byte(
                template_at(template@, start + offset),
                entropy_at(hash@, offset as int),
            ));
            assert(tail.take(offset + 1) =~= tail.take(offset as int).push(byte as char));
        }
        dummy.push(byte as char);
        assert(dummy@ =~= prefix@ + tail.take(offset + 1));
        index += 1;
    }
    assert(tail.take(target - start) =~= tail);
    dummy
}

/// A stand-in for a value, varied by a seed and a number.
pub fn shaped_dummy_value(
    real_value: &str,
    prefix: &str,
    minimum_len: usize,
    seed: &str,
    credential_id: usize,
) -> (r: String)
    ensures
        r@ == shaped_dummy(real_value@, prefix@, minimum_len as nat, seed@, credential_id as nat),
{
    let mut label: String = seed.to_string();
    label.append(":");
    label.append(text::decimal_text(credential_id as u64).as_str());
    let hash: Vec<u8> = digest::sha256_digest(label.as_str().as_bytes());
    shape_with_digest(real_value, prefix, minimum_len, &hash)
}

/// A stand-in starts with its prefix, and at least sixteen characters follow it,
/// as long as the prefix leaves room for them.
pub proof fn law_dummy_starts_with_prefix(
    value: Seq<char>,
    prefix: Seq<char>,
    minimum: nat,
    seed: Seq<char>,
    id: nat,
)
    requires
        encode_utf8(prefix).len() + 16 <= usize::MAX,
    ensures
        prefix.is_prefix_of(shaped_dummy(value, prefix, minimum, seed, id)),
        shaped_dummy(value, prefix, minimum, seed, id).len() >= prefix.len() + 16,
{
    let dummy = shaped_dummy(value, prefix, minimum, seed, id);
    assert(dummy.take(prefix.len() as int) =~= prefix);
}

/// Behind an ASCII prefix, a stand-in keeps the length of an ASCII value that is
/// long enough, its punctuation, and where it has digits, capitals and small letters.
pub proof fn law_dummy_has_the_shape_of_the_value(
    value: Seq<char>,
    prefix: Seq<char>,
    minimum: nat,
    seed: Seq<char>,
    id: nat,
    i: int,
)
    requires
        is_ascii_chars(value),
        is_ascii_chars(prefix),
        minimum <= value.len(),
        prefix.len() + 16 <= value.len() <= usize::MAX,
        prefix.len() <= i < value.len(),
    ensures
        ({
            let dummy = shaped_dummy(value, prefix, minimum, seed, id);
            &&& dummy.len() == value.len()
            &&& !is_alphanumeric_byte(value[i] as u8) ==> dummy[i] == value[i]
            &&& is_digit_byte(value[i] as u8) ==> is_digit_byte(dummy[i] as u8)
            &&& is_upper_byte(value[i] as u8) ==> is_upper_byte(dummy[i] as u8)
            &&& is_lower_byte(value[i] as u8) ==> is_lower_byte(dummy[i] as u8)
        }),
{
    is_ascii_chars_encode_utf8(value);
    is_ascii_chars_encode_utf8(prefix);
    is_ascii_chars_nat_bound(value);
    let bytes = encode_utf8(value);
    let dummy = shaped_dummy(value, prefix, minimum, seed, id);
    let hash = seed_hash(seed, id);
    let o = i - prefix.len();
    assert(bytes[i] == value[i] as u8);
    assert(dummy[i] == shaped_byte(template_at(bytes, i), entropy_at(hash, o)) as char);
}

/// The stand-in of an ASCII value behind an ASCII prefix is ASCII.
pub proof fn law_dummy_of_ascii_is_ascii(
    value: Seq<char>,
    prefix: Seq<char>,
    minimum: nat,
    seed: Seq<char>,
    id: nat,
)
    requires
        is_ascii_chars(value),
        is_ascii_chars(prefix),
    ensures
        is_ascii_chars(shaped_dummy(value, prefix, minimum, seed, id)),
{
    is_ascii_chars_encode_utf8(value);
    is_ascii_chars_nat_bound(value);
    is_ascii_chars_nat_bound(prefix);
    let bytes = encode_utf8(value);
    let dummy = shaped_dummy(value, prefix, minimum, seed, id);
    let hash = seed_hash(seed, id);
    let prefix_len = encode_utf8(prefix).len();
    assert forall|i: int| 0 <= i < dummy.len() implies (#[trigger] dummy[i] as nat) < 128 by {
        if i < prefix.len() {
            assert(dummy[i] == prefix[i]);
        } else {
            let o = i - prefix.len();
            let t = template_at(bytes, prefix_len + o);
            assert(dummy[i] == shaped_byte(t, entropy_at(hash, o)) as char);
            if t is Some {
                assert(bytes[prefix_len + o] == value[prefix_len + o] as u8);
            }
        }
    }
}

} // verus!
