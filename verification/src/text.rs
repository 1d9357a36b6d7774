//! Text as sequences of characters: trimming, splitting, searching, decimal
//! numerals, and the byte order of strings.
use vstd::prelude::*;
use vstd::utf8::*;

verus! {

/// `String::push` appends one character.
pub assume_specification[ String::push ](s: &mut String, ch: char)
    ensures
        final(s)@ == old(s)@.push(ch),
;

/// The characters with the Unicode property White_Space.
pub open spec fn is_space(c: char) -> bool {
    ||| '\u{9}' <= c <= '\u{d}'
    ||| c == '\u{20}'
    ||| c == '\u{85}'
    ||| c == '\u{a0}'
    ||| c == '\u{1680}'
    ||| '\u{2000}' <= c <= '\u{200a}'
    ||| c == '\u{2028}'
    ||| c == '\u{2029}'
    ||| c == '\u{202f}'
    ||| c == '\u{205f}'
    ||| c == '\u{3000}'
}

/// Text without its leading white space.
pub open spec fn trim_start(s: Seq<char>) -> Seq<char>
    decreases s.len(),
{
    if s.len() > 0 && is_space(s[0]) {
        trim_start(s.skip(1))
    } else {
        s
    }
}

/// Text without its trailing white space.
pub open spec fn trim_end(s: Seq<char>) -> Seq<char>
    decreases s.len(),
{
    if s.len() > 0 && is_space(s.last()) {
        trim_end(s.drop_last())
    } else {
        s
    }
}

/// Text without leading and trailing white space.
pub open spec fn trimmed(s: Seq<char>) -> Seq<char> {
    trim_end(trim_start(s))
}

/// What stands behind the last separator.
pub open spec fn last_piece<T>(s: Seq<T>, sep: spec_fn(T) -> bool) -> Seq<T>
    decreases s.len(),
{
    if s.len() == 0 || sep(s.last()) {
        Seq::empty()
    } else {
        last_piece(s.drop_last(), sep).push(s.last())
    }
}

/// The pieces that a separator closes, in order.
pub open spec fn closed_pieces<T>(s: Seq<T>, sep: spec_fn(T) -> bool) -> Seq<Seq<T>>
    decreases s.len(),
{
    if s.len() == 0 {
        Seq::empty()
    } else if sep(s.last()) {
        closed_pieces(s.drop_last(), sep).push(last_piece(s.drop_last(), sep))
    } else {
        closed_pieces(s.drop_last(), sep)
    }
}

/// The pieces between separators, empty ones included.
pub open spec fn pieces<T>(s: Seq<T>, sep: spec_fn(T) -> bool) -> Seq<Seq<T>> {
    closed_pieces(s, sep).push(last_piece(s, sep))
}

/// The pieces between separators that are not empty.
pub open spec fn nonempty_pieces<T>(s: Seq<T>, sep: spec_fn(T) -> bool) -> Seq<Seq<T>> {
    pieces(s, sep).filter(|piece: Seq<T>| piece.len() > 0)
}

/// Tells one character.
pub open spec fn is_char(sep: char) -> spec_fn(char) -> bool {
    |c: char| c == sep
}

/// The words of a text: its maximal runs of characters that are not white space.
pub open spec fn words(s: Seq<char>) -> Seq<Seq<char>> {
    nonempty_pieces(s, |c: char| is_space(c))
}

/// Texts one after the other, with `sep` between neighbours.
pub open spec fn joined(list: Seq<Seq<char>>, sep: Seq<char>) -> Seq<char>
    decreases list.len(),
{
    if list.len() == 0 {
        Seq::empty()
    } else if list.len() == 1 {
        list[0]
    } else {
        joined(list.drop_last(), sep) + sep + list.last()
    }
}

/// Whether `part` stands in `whole` at position `at`.
pub open spec fn stands_at<T>(whole: Seq<T>, part: Seq<T>, at: int) -> bool {
    0 <= at && at + part.len() <= whole.len() && whole.subrange(at, at + part.len()) == part
}

/// Whether `part` stands anywhere in `whole`.
pub open spec fn occurs_in<T>(part: Seq<T>, whole: Seq<T>) -> bool {
    exists|at: int| stands_at(whole, part, at)
}

/// The position of the first `c`, or the length where there is none.
pub open spec fn find<T>(s: Seq<T>, c: T) -> nat
    decreases s.len(),
{
    if s.len() == 0 || s[0] == c {
        0
    } else {
        1 + find(s.skip(1), c)
    }
}

/// The parts of a text before and behind the first `c`.
pub open spec fn split_once(s: Seq<char>, c: char) -> Option<(Seq<char>, Seq<char>)> {
    if find(s, c) < s.len() {
        Some((s.take(find(s, c) as int), s.skip(find(s, c) as int + 1)))
    } else {
        None
    }
}

pub open spec fn is_ascii_upper(c: char) -> bool {
    'A' <= c <= 'Z'
}

pub open spec fn is_ascii_lower(c: char) -> bool {
    'a' <= c <= 'z'
}

pub open spec fn is_ascii_letter(c: char) -> bool {
    is_ascii_upper(c) || is_ascii_lower(c)
}

pub open spec fn is_hex_digit(c: char) -> bool {
    '0' <= c <= '9' || 'a' <= c <= 'f' || 'A' <= c <= 'F'
}

/// The decimal digit of a number below ten.
pub open spec fn digit(n: nat) -> char {
    (('0' as nat) + n) as char
}

/// The decimal numeral of a number.
pub open spec fn decimal(n: nat) -> Seq<char>
    decreases n,
{
    if n < 10 {
        seq![digit(n)]
    } else {
        decimal(n / 10).push(digit(n % 10))
    }
}

/// The order in which strings compare: byte by byte, a proper prefix first.
pub open spec fn bytes_before(a: Seq<u8>, b: Seq<u8>) -> bool
    decreases a.len(),
{
    if b.len() == 0 {
        false
    } else if a.len() == 0 {
        true
    } else if a[0] != b[0] {
        a[0] < b[0]
    } else {
        bytes_before(a.skip(1), b.skip(1))
    }
}

/// The order of two texts.
pub open spec fn text_before(a: Seq<char>, b: Seq<char>) -> bool {
    bytes_before(encode_utf8(a), encode_utf8(b))
}

/// The texts of a list of strings.
pub open spec fn texts(list: Seq<String>) -> Seq<Seq<char>> {
    list.map_values(|s: String| s@)
}

pub proof fn lemma_find<T>(s: Seq<T>, c: T)
    ensures
        find(s, c) <= s.len(),
        find(s, c) < s.len() ==> s[find(s, c) as int] == c,
        forall|i: int| 0 <= i < find(s, c) ==> s[i] != c,
    decreases s.len(),
{
    if s.len() > 0 && s[0] != c {
        lemma_find(s.skip(1), c);
        assert forall|i: int| 0 <= i < find(s, c) implies s[i] != c by {
            if i > 0 {
                assert(s[i] == s.skip(1)[i - 1]);
            }
        }
    }
}

/// A position with `c` and no `c` before it is the one that `find` gives.
pub proof fn lemma_find_is<T>(s: Seq<T>, c: T, at: int)
    requires
        0 <= at <= s.len(),
        at < s.len() ==> s[at] == c,
        forall|i: int| 0 <= i < at ==> s[i] != c,
    ensures
        find(s, c) == at,
{
    lemma_find(s, c);
    if find(s, c) < at {
        assert(s[find(s, c) as int] != c);
    }
}

pub proof fn lemma_before_irreflexive(a: Seq<u8>)
    ensures
        !bytes_before(a, a),
    decreases a.len(),
{
    if a.len() > 0 {
        lemma_before_irreflexive(a.skip(1));
    }
}

pub proof fn lemma_before_transitive(a: Seq<u8>, b: Seq<u8>, c: Seq<u8>)
    requires
        bytes_before(a, b),
        bytes_before(b, c),
    ensures
        bytes_before(a, c),
    decreases a.len(),
{
    if a.len() > 0 && a[0] == b[0] && b[0] == c[0] {
        lemma_before_transitive(a.skip(1), b.skip(1), c.skip(1));
    }
}

pub proof fn lemma_before_total(a: Seq<u8>, b: Seq<u8>)
    ensures
        a == b || bytes_before(a, b) || bytes_before(b, a),
    decreases a.len(),
{
    if a.len() == 0 || b.len() == 0 {
        if a.len() == b.len() {
            assert(a =~= b);
        }
    } else if a[0] == b[0] {
        lemma_before_total(a.skip(1), b.skip(1));
        if a.skip(1) == b.skip(1) {
            assert forall|i: int| 0 <= i < a.len() implies a[i] == b[i] by {
                if i > 0 {
                    assert(a[i] == a.skip(1)[i - 1]);
                    assert(b[i] == b.skip(1)[i - 1]);
                }
            }
            assert(a.skip(1).len() == b.skip(1).len());
            assert(a =~= b);
        }
    }
}

/// Texts with the same bytes are the same.
pub proof fn lemma_bytes_determine_text(a: Seq<char>, b: Seq<char>)
    requires
        encode_utf8(a) == encode_utf8(b),
    ensures
        a == b,
{
    encode_utf8_decode_utf8(a);
    encode_utf8_decode_utf8(b);
}

/// The order of texts is strict and total.
pub proof fn lemma_text_order(a: Seq<char>, b: Seq<char>)
    ensures
        !(text_before(a, b) && text_before(b, a)),
        !text_before(a, a),
        a == b || text_before(a, b) || text_before(b, a),
{
    lemma_before_total(encode_utf8(a), encode_utf8(b));
    lemma_before_irreflexive(encode_utf8(a));
    if text_before(a, b) && text_before(b, a) {
        lemma_before_transitive(encode_utf8(a), encode_utf8(b), encode_utf8(a));
    }
    if encode_utf8(a) == encode_utf8(b) {
        lemma_bytes_determine_text(a, b);
    }
}

pub proof fn lemma_text_before_transitive(a: Seq<char>, b: Seq<char>, c: Seq<char>)
    requires
        text_before(a, b),
        text_before(b, c),
    ensures
        text_before(a, c),
{
    lemma_before_transitive(encode_utf8(a), encode_utf8(b), encode_utf8(c));
}

/// The characters of a string.
pub fn chars_of(s: &str) -> (r: Vec<char>)
    ensures
        r@ == s@,
{
    let mut out: Vec<char> = Vec::new();
    for c in it: s.chars()
        invariant
            out@ == s@.take(it.index()),
            it.seq() == s@,
    {
        out.push(c);
        assert(s@.take(it.index() + 1) == s@.take(it.index()).push(c));
    }
    assert(s@.take(s@.len() as int) == s@);
    out
}

pub fn char_is_space(c: char) -> (r: bool)
    ensures
        r == is_space(c),
{
    ('\u{9}' <= c && c <= '\u{d}') || c == '\u{20}' || c == '\u{85}' || c == '\u{a0}' || c
        == '\u{1680}' || ('\u{2000}' <= c && c <= '\u{200a}') || c == '\u{2028}' || c == '\u{2029}'
        || c == '\u{202f}' || c == '\u{205f}' || c == '\u{3000}'
}

/// The text without leading and trailing white space.
pub fn trim(s: &str) -> (r: &str)
    ensures
        r@ == trimmed(s@),
{
    let cs: Vec<char> = chars_of(s);
    let n: usize = cs.len();
    let mut i: usize = 0;
    assert(s@.skip(0) =~= s@);
    while i < n && char_is_space(cs[i])
        invariant
            i <= n,
            n == s@.len(),
            cs@ == s@,
            trim_start(s@) == trim_start(s@.skip(i as int)),
        decreases n - i,
    {
        assert(s@.skip(i as int)[0] == s@[i as int]);
        assert(s@.skip(i as int).skip(1) =~= s@.skip(i + 1));
        i += 1;
    }
    let ghost body = s@.skip(i as int);
    assert(trim_start(s@) == body) by {
        if i < n {
            assert(body[0] == s@[i as int]);
        }
    }
    let mut j: usize = n;
    assert(s@.subrange(i as int, n as int) =~= body);
    while j > i && char_is_space(cs[j - 1])
        invariant
            i <= j <= n,
            n == s@.len(),
            cs@ == s@,
            trim_end(body) == trim_end(s@.subrange(i as int, j as int)),
        decreases j,
    {
        let ghost part = s@.subrange(i as int, j as int);
        assert(part.last() == s@[j - 1]);
        assert(part.drop_last() =~= s@.subrange(i as int, j - 1));
        j -= 1;
    }
    proof {
        if j > i {
            assert(s@.subrange(i as int, j as int).last() == s@[j - 1]);
        }
    }
    s.substring_char(i, j)
}

/// Whether two strings hold the same text.
pub fn same_text(a: &str, b: &str) -> (r: bool)
    ensures
        r == (a@ == b@),
{
    let x: &[u8] = a.as_bytes();
    let y: &[u8] = b.as_bytes();
    if x.len() != y.len() {
        return false;
    }
    let n: usize = x.len();
    let mut i: usize = 0;
    while i < n
        invariant
            i <= n,
            n == x@.len(),
            n == y@.len(),
            x@ == encode_utf8(a@),
            y@ == encode_utf8(b@),
            forall|k: int| 0 <= k < i ==> x@[k] == y@[k],
        decreases n - i,
    {
        if x[i] != y[i] {
            return false;
        }
        i += 1;
    }
    proof {
        assert(x@ =~= y@);
        lemma_bytes_determine_text(a@, b@);
    }
    true
}

/// Whether one string comes before another in byte order.
pub fn comes_before(a: &str, b: &str) -> (r: bool)
    ensures
        r == text_before(a@, b@),
{
    let x: &[u8] = a.as_bytes();
    let y: &[u8] = b.as_bytes();
    let mut i: usize = 0;
    proof {
        assert(x@.skip(0) =~= x@);
        assert(y@.skip(0) =~= y@);
    }
    while i < x.len() && i < y.len()
        invariant
            i <= x@.len(),
            i <= y@.len(),
            x@ == encode_utf8(a@),
            y@ == encode_utf8(b@),
            bytes_before(x@, y@) == bytes_before(x@.skip(i as int), y@.skip(i as int)),
        decreases x@.len() - i,
    {
        proof {
            assert(x@.skip(i as int)[0] == x@[i as int]);
            assert(y@.skip(i as int)[0] == y@[i as int]);
            assert(x@.skip(i as int).skip(1) =~= x@.skip(i + 1));
            assert(y@.skip(i as int).skip(1) =~= y@.skip(i + 1));
        }
        if x[i] != y[i] {
            return x[i] < y[i];
        }
        i += 1;
    }
    i < y.len()
}

/// Whether `part` stands in `whole` at `at`.
pub fn matches_at(whole: &[char], part: &[char], at: usize) -> (r: bool)
    ensures
        r == stands_at(whole@, part@, at as int),
{
    if at > whole.len() || part.len() > whole.len() - at {
        return false;
    }
    let n: usize = part.len();
    let m: usize = whole.len();
    let mut i: usize = 0;
    while i < n
        invariant
            i <= n,
            n == part@.len(),
            m == whole@.len(),
            at + n <= m,
            forall|k: int| 0 <= k < i ==> whole@[at + k] == part@[k],
        decreases n - i,
    {
        if whole[at + i] != part[i] {
            assert(whole@.subrange(at as int, at + n)[i as int] != part@[i as int]);
            return false;
        }
        i += 1;
    }
    assert(whole@.subrange(at as int, at + n) =~= part@);
    true
}

/// Whether `part` occurs in `whole`.
pub fn contains_text(whole: &str, part: &str) -> (r: bool)
    ensures
        r == occurs_in(part@, whole@),
{
    let w: Vec<char> = chars_of(whole);
    let p: Vec<char> = chars_of(part);
    let mut at: usize = 0;
    while at <= w.len() && p.len() <= w.len() - at
        invariant
            w@ == whole@,
            p@ == part@,
            at <= w@.len() + 1,
            forall|k: int| 0 <= k < at ==> !stands_at(whole@, part@, k),
        decreases w@.len() + 1 - at,
    {
        if matches_at(w.as_slice(), p.as_slice(), at) {
            return true;
        }
        if at == w.len() {
            return false;
        }
        at += 1;
    }
    false
}

/// Whether a string starts with another.
pub fn starts_with(s: &str, prefix: &str) -> (r: bool)
    ensures
        r == prefix@.is_prefix_of(s@),
{
    let w: Vec<char> = chars_of(s);
    let p: Vec<char> = chars_of(prefix);
    let r: bool = matches_at(w.as_slice(), p.as_slice(), 0);
    proof {
        if prefix@.len() <= s@.len() {
            assert(s@.subrange(0, prefix@.len() as int) =~= s@.take(prefix@.len() as int));
        }
    }
    r
}

/// Whether a string ends with another.
pub fn ends_with(s: &str, suffix: &str) -> (r: bool)
    ensures
        r == suffix@.is_suffix_of(s@),
{
    let w: Vec<char> = chars_of(s);
    let p: Vec<char> = chars_of(suffix);
    if p.len() > w.len() {
        return false;
    }
    matches_at(w.as_slice(), p.as_slice(), w.len() - p.len())
}

/// What follows a prefix that the text has.
pub fn strip_prefix<'a>(s: &'a str, prefix: &str) -> (r: Option<&'a str>)
    ensures
        r is Some <==> prefix@.is_prefix_of(s@),
        r matches Some(rest) ==> rest@ == s@.skip(prefix@.len() as int),
{
    if !starts_with(s, prefix) {
        return None;
    }
    let p: usize = prefix.unicode_len();
    let n: usize = s.unicode_len();
    Some(s.substring_char(p, n))
}

/// The position of the first `c`, or the length.
pub fn find_char(s: &[char], c: char) -> (r: usize)
    ensures
        r == find(s@, c),
{
    let n: usize = s.len();
    let mut i: usize = 0;
    while i < n
        invariant
            i <= n,
            n == s@.len(),
            forall|k: int| 0 <= k < i ==> s@[k] != c,
        decreases n - i,
    {
        if s[i] == c {
            proof {
                lemma_find_is(s@, c, i as int);
            }
            return i;
        }
        i += 1;
    }
    proof {
        lemma_find_is(s@, c, i as int);
    }
    i
}

/// The parts before and behind the first `c`.
pub fn split_at_char(s: &str, c: char) -> (r: Option<(&str, &str)>)
    ensures
        match r {
            Some((a, b)) => split_once(s@, c) == Some((a@, b@)),
            None => split_once(s@, c) is None,
        },
{
    let cs: Vec<char> = chars_of(s);
    let at: usize = find_char(cs.as_slice(), c);
    proof {
        lemma_find(s@, c);
    }
    if at < cs.len() {
        Some((s.substring_char(0, at), s.substring_char(at + 1, cs.len())))
    } else {
        None
    }
}

/// The string of a list of characters.
pub fn string_of(cs: &[char]) -> (r: String)
    ensures
        r@ == cs@,
{
    let mut out: String = String::new();
    let mut i: usize = 0;
    while i < cs.len()
        invariant
            i <= cs@.len(),
            out@ == cs@.take(i as int),
        decreases cs@.len() - i,
    {
        out.push(cs[i]);
        assert(cs@.take(i + 1) =~= cs@.take(i as int).push(cs@[i as int]));
        i += 1;
    }
    assert(cs@.take(cs@.len() as int) =~= cs@);
    out
}

/// The words of a text.
pub fn split_words(s: &str) -> (r: Vec<String>)
    ensures
        texts(r@) == words(s@),
{
    let cs: Vec<char> = chars_of(s);
    let ghost sep = |c: char| is_space(c);
    let ghost full = |piece: Seq<char>| piece.len() > 0;
    let mut out: Vec<String> = Vec::new();
    let mut current: String = String::new();
    let mut i: usize = 0;
    while i < cs.len()
        invariant
            cs@ == s@,
            i <= cs@.len(),
            sep == (|c: char| is_space(c)),
            full == (|piece: Seq<char>| piece.len() > 0),
            current@ == last_piece(s@.take(i as int), sep),
            texts(out@) == closed_pieces(s@.take(i as int), sep).filter(full),
        decreases cs@.len() - i,
    {
        let c: char = cs[i];
        let ghost before = s@.take(i as int);
        let ghost after = s@.take(i + 1);
        proof {
            assert(after.drop_last() =~= before);
            assert(after.last() == c);
            lemma_filter_push(closed_pieces(before, sep), current@, full);
        }
        if char_is_space(c) {
            if !current.as_str().is_empty() {
                let ghost grown = texts(out@).push(current@);
                out.push(current);
                assert(texts(out@) =~= grown);
            }
            current = String::new();
        } else {
            current.push(c);
        }
        i += 1;
    }
    proof {
        assert(s@.take(i as int) =~= s@);
        lemma_filter_push(closed_pieces(s@, sep), current@, full);
    }
    if !current.as_str().is_empty() {
        let ghost grown = texts(out@).push(current@);
        out.push(current);
        assert(texts(out@) =~= grown);
    }
    out
}

/// The pieces of a text between occurrences of a character.
pub fn split_at_all(s: &str, sep: char) -> (r: Vec<String>)
    ensures
        texts(r@) == pieces(s@, is_char(sep)),
{
    let cs: Vec<char> = chars_of(s);
    let mut out: Vec<String> = Vec::new();
    let mut current: String = String::new();
    let mut i: usize = 0;
    assert(texts(out@) =~= Seq::<Seq<char>>::empty());
    while i < cs.len()
        invariant
            cs@ == s@,
            i <= cs@.len(),
            current@ == last_piece(s@.take(i as int), is_char(sep)),
            texts(out@) == closed_pieces(s@.take(i as int), is_char(sep)),
        decreases cs@.len() - i,
    {
        let c: char = cs[i];
        assert(s@.take(i + 1).drop_last() =~= s@.take(i as int));
        if c == sep {
            let ghost grown = texts(out@).push(current@);
            out.push(current);
            assert(texts(out@) =~= grown);
            current = String::new();
        } else {
            current.push(c);
        }
        i += 1;
    }
    assert(s@.take(i as int) =~= s@);
    let ghost grown = texts(out@).push(current@);
    out.push(current);
    assert(texts(out@) =~= grown);
    out
}

/// Filtering a grown sequence keeps or drops the last item.
pub proof fn lemma_filter_push<T>(s: Seq<T>, x: T, keep: spec_fn(T) -> bool)
    ensures
        s.push(x).filter(keep) == if keep(x) {
            s.filter(keep).push(x)
        } else {
            s.filter(keep)
        },
{
    reveal(Seq::filter);
    assert(s.push(x).drop_last() =~= s);
}

/// What stands behind the last separator holds none.
pub proof fn lemma_last_piece_without<T>(s: Seq<T>, sep: spec_fn(T) -> bool)
    ensures
        forall|i: int| 0 <= i < last_piece(s, sep).len() ==> !sep(#[trigger] last_piece(s, sep)[i]),
    decreases s.len(),
{
    if s.len() > 0 && !sep(s.last()) {
        let front = last_piece(s.drop_last(), sep);
        lemma_last_piece_without(s.drop_last(), sep);
        assert forall|i: int| 0 <= i < last_piece(s, sep).len() implies !sep(
            #[trigger] last_piece(s, sep)[i],
        ) by {
            if i < front.len() {
                assert(last_piece(s, sep)[i] == front[i]);
            }
        }
    }
}

/// A piece that a separator closes holds none.
pub proof fn lemma_closed_piece_without<T>(s: Seq<T>, sep: spec_fn(T) -> bool, k: int)
    requires
        0 <= k < closed_pieces(s, sep).len(),
    ensures
        forall|i: int| 0 <= i < closed_pieces(s, sep)[k].len() ==> !sep(
            #[trigger] closed_pieces(s, sep)[k][i],
        ),
    decreases s.len(),
{
    let front = s.drop_last();
    lemma_last_piece_without(front, sep);
    if k < closed_pieces(front, sep).len() {
        lemma_closed_piece_without(front, sep, k);
        assert(closed_pieces(s, sep)[k] == closed_pieces(front, sep)[k]);
    } else {
        assert(closed_pieces(s, sep)[k] == last_piece(front, sep));
    }
}

/// What holds of all items holds of those that a filter keeps.
pub proof fn lemma_filter_all<T>(s: Seq<T>, keep: spec_fn(T) -> bool, good: spec_fn(T) -> bool)
    requires
        forall|i: int| 0 <= i < s.len() ==> good(#[trigger] s[i]),
    ensures
        forall|i: int|
            0 <= i < s.filter(keep).len() ==> good(#[trigger] s.filter(keep)[i]) && keep(
                s.filter(keep)[i],
            ),
    decreases s.len(),
{
    reveal(Seq::filter);
    if s.len() > 0 {
        let front = s.drop_last();
        let kept = front.filter(keep);
        assert forall|i: int| 0 <= i < front.len() implies good(#[trigger] front[i]) by {
            assert(front[i] == s[i]);
        }
        lemma_filter_all(front, keep, good);
        assert(good(s[s.len() - 1]));
        assert(front.push(s.last()) =~= s);
        lemma_filter_push(front, s.last(), keep);
        assert forall|i: int| 0 <= i < s.filter(keep).len() implies good(
            #[trigger] s.filter(keep)[i],
        ) && keep(s.filter(keep)[i]) by {
            if i < kept.len() {
                assert(s.filter(keep)[i] == kept[i]);
            }
        }
    }
}

/// Texts joined with a separator.
pub fn join_texts(list: &[String], sep: &str) -> (r: String)
    ensures
        r@ == joined(texts(list@), sep@),
{
    let mut out: String = String::new();
    let mut i: usize = 0;
    while i < list.len()
        invariant
            i <= list@.len(),
            out@ == joined(texts(list@).take(i as int), sep@),
        decreases list@.len() - i,
    {
        let ghost next = texts(list@).take(i + 1);
        proof {
            assert(next.drop_last() =~= texts(list@).take(i as int));
            assert(next.last() == list@[i as int]@);
        }
        if i > 0 {
            out.append(sep);
        } else {
            assert(next =~= seq![list@[0]@]);
            assert(out@ + list@[0]@ =~= list@[0]@);
        }
        out.append(list[i].as_str());
        i += 1;
    }
    assert(texts(list@).take(i as int) =~= texts(list@));
    out
}

/// The decimal digit of a number below ten.
fn digit_char(n: u64) -> (r: char)
    requires
        n < 10,
    ensures
        r == digit(n as nat),
{
    ('0' as u8 + n as u8) as char
}

/// The decimal numeral of a number.
pub fn decimal_text(n: u64) -> (r: String)
    ensures
        r@ == decimal(n as nat),
    decreases n,
{
    if n < 10 {
        let mut out: String = String::new();
        out.push(digit_char(n));
        assert(out@ =~= seq![digit(n as nat)]);
        out
    } else {
        let mut out: String = decimal_text(n / 10);
        out.push(digit_char(n % 10));
        out
    }
}

} // verus!
