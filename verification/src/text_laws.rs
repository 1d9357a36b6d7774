//! What the operations on texts mean, told by how texts are put together.
use crate::text;
use vstd::prelude::*;
use vstd::utf8::*;

verus! {

/// The characters that are white space, by their code points.
pub proof fn law_white_space(c: char)
    ensures
        text::is_space(c) <==> (9 <= c as u32 <= 13 || c as u32 == 0x20 || c as u32 == 0x85
            || c as u32 == 0xa0 || c as u32 == 0x1680 || 0x2000 <= c as u32 <= 0x200a || c as u32
            == 0x2028 || c as u32 == 0x2029 || c as u32 == 0x202f || c as u32 == 0x205f || c as u32
            == 0x3000),
{
}

/// Whether a text is white space throughout.
pub open spec fn blank(s: Seq<char>) -> bool {
    forall|i: int| 0 <= i < s.len() ==> text::is_space(#[trigger] s[i])
}

/// Trimming takes off the white space around a text, all of it and nothing else:
/// what is left is empty or starts and ends with another character.
pub proof fn law_trimming(before: Seq<char>, core: Seq<char>, behind: Seq<char>)
    requires
        blank(before),
        blank(behind),
        core.len() > 0 ==> !text::is_space(core[0]) && !text::is_space(core.last()),
    ensures
        text::trimmed(before + core + behind) == core,
{
    lemma_trim_start(before, core + behind);
    assert(before + core + behind =~= before + (core + behind));
    if core.len() == 0 {
        assert(core + behind =~= behind);
        lemma_trim_start(behind, Seq::empty());
        assert(behind + Seq::<char>::empty() =~= behind);
        assert(text::trim_start(Seq::<char>::empty()) == Seq::<char>::empty());
        assert(core =~= Seq::<char>::empty());
    } else {
        assert((core + behind)[0] == core[0]);
        lemma_trim_end(core, behind);
    }
}

proof fn lemma_trim_start(before: Seq<char>, rest: Seq<char>)
    requires
        blank(before),
    ensures
        text::trim_start(before + rest) == text::trim_start(rest),
    decreases before.len(),
{
    if before.len() > 0 {
        let whole = before + rest;
        assert(whole[0] == before[0]);
        assert(text::is_space(before[0]));
        assert forall|i: int| 0 <= i < before.skip(1).len() implies text::is_space(
            #[trigger] before.skip(1)[i],
        ) by {
            assert(before.skip(1)[i] == before[i + 1]);
        }
        assert(whole.skip(1) =~= before.skip(1) + rest);
        lemma_trim_start(before.skip(1), rest);
    } else {
        assert(before + rest =~= rest);
    }
}

proof fn lemma_trim_end(core: Seq<char>, behind: Seq<char>)
    requires
        blank(behind),
        core.len() > 0,
        !text::is_space(core.last()),
    ensures
        text::trim_end(core + behind) == core,
    decreases behind.len(),
{
    let whole = core + behind;
    if behind.len() > 0 {
        assert(whole.last() == behind[behind.len() - 1]);
        assert(text::is_space(behind[behind.len() - 1]));
        assert forall|i: int| 0 <= i < behind.drop_last().len() implies text::is_space(
            #[trigger] behind.drop_last()[i],
        ) by {
            assert(behind.drop_last()[i] == behind[i]);
        }
        assert(whole.drop_last() =~= core + behind.drop_last());
        lemma_trim_end(core, behind.drop_last());
    } else {
        assert(whole =~= core);
    }
}

/// Whether none of a list of items is a separator.
pub open spec fn unbroken<T>(s: Seq<T>, sep: spec_fn(T) -> bool) -> bool {
    forall|i: int| 0 <= i < s.len() ==> !sep(#[trigger] s[i])
}

/// Pieces are what stands between separators: one separator and what follows it
/// make one more piece, and without a separator there is one piece, the whole.
pub proof fn law_pieces<T>(s: Seq<T>, mark: T, piece: Seq<T>, sep: spec_fn(T) -> bool)
    requires
        sep(mark),
        unbroken(piece, sep),
    ensures
        text::pieces(s.push(mark) + piece, sep) == text::pieces(s, sep).push(piece),
        text::pieces(piece, sep) == seq![piece],
{
    lemma_tail_piece(s.push(mark), piece, sep);
    assert(s.push(mark).drop_last() =~= s);
    assert(s.push(mark).last() == mark);
    assert(text::closed_pieces(s.push(mark), sep) == text::pieces(s, sep));
    assert(text::last_piece(s.push(mark), sep) =~= Seq::<T>::empty());
    assert(Seq::<T>::empty() + piece =~= piece);
    lemma_tail_piece(Seq::empty(), piece, sep);
    assert(text::last_piece(Seq::<T>::empty(), sep) =~= Seq::<T>::empty());
    assert(text::pieces(piece, sep) =~= seq![piece]);
}

/// Behind some items, items that are no separators lengthen the last piece.
pub proof fn lemma_tail_piece<T>(s: Seq<T>, more: Seq<T>, sep: spec_fn(T) -> bool)
    requires
        unbroken(more, sep),
    ensures
        text::closed_pieces(s + more, sep) == text::closed_pieces(s, sep),
        text::last_piece(s + more, sep) == text::last_piece(s, sep) + more,
    decreases more.len(),
{
    if more.len() == 0 {
        assert(s + more =~= s);
        assert(text::last_piece(s, sep) + more =~= text::last_piece(s, sep));
    } else {
        let front = more.drop_last();
        assert forall|i: int| 0 <= i < front.len() implies !sep(#[trigger] front[i]) by {
            assert(front[i] == more[i]);
        }
        lemma_tail_piece(s, front, sep);
        assert((s + more).drop_last() =~= s + front);
        assert((s + more).last() == more[more.len() - 1]);
        assert(text::last_piece(s, sep) + more =~= (text::last_piece(s, sep) + front).push(
            more.last(),
        ));
    }
}

/// The pieces that are not empty, likewise.
pub proof fn law_nonempty_pieces<T>(s: Seq<T>, mark: T, piece: Seq<T>, sep: spec_fn(T) -> bool)
    requires
        sep(mark),
        unbroken(piece, sep),
    ensures
        piece.len() > 0 ==> text::nonempty_pieces(s.push(mark) + piece, sep)
            == text::nonempty_pieces(s, sep).push(piece),
        text::nonempty_pieces(s.push(mark), sep) == text::nonempty_pieces(s, sep),
        piece.len() > 0 ==> text::nonempty_pieces(piece, sep) == seq![piece],
        text::nonempty_pieces(Seq::<T>::empty(), sep) == Seq::<Seq<T>>::empty(),
{
    let full = |p: Seq<T>| p.len() > 0;
    let none = Seq::<T>::empty();
    law_pieces(s, mark, piece, sep);
    law_pieces(s, mark, none, sep);
    assert(s.push(mark) + none =~= s.push(mark));
    text::lemma_filter_push(text::pieces(s, sep), piece, full);
    text::lemma_filter_push(text::pieces(s, sep), none, full);
    text::lemma_filter_push(Seq::<Seq<T>>::empty(), piece, full);
    text::lemma_filter_push(Seq::<Seq<T>>::empty(), none, full);
    reveal(Seq::filter);
    assert(seq![piece] =~= Seq::<Seq<T>>::empty().push(piece));
    assert(seq![none] =~= Seq::<Seq<T>>::empty().push(none));
}

/// The words of a text are its runs of characters that are not white space, in
/// order: white space and a run behind a text make one more word, white space by
/// itself makes none.
pub proof fn law_words(s: Seq<char>, space: char, word: Seq<char>)
    requires
        text::is_space(space),
        word.len() > 0,
        forall|i: int| 0 <= i < word.len() ==> !text::is_space(#[trigger] word[i]),
    ensures
        text::words(s.push(space) + word) == text::words(s).push(word),
        text::words(s.push(space)) == text::words(s),
        text::words(word) == seq![word],
        text::words(Seq::empty()) == Seq::<Seq<char>>::empty(),
{
    let sep = |c: char| text::is_space(c);
    assert(unbroken(word, sep));
    law_nonempty_pieces(s, space, word, sep);
}

/// A text occurs in another where that one is it with something around it.
pub proof fn law_occurrence(part: Seq<char>, whole: Seq<char>)
    ensures
        text::occurs_in(part, whole) <==> exists|before: Seq<char>, behind: Seq<char>|
            whole == #[trigger] (before + part + behind),
{
    if text::occurs_in(part, whole) {
        let at = choose|at: int| text::stands_at(whole, part, at);
        let before = whole.take(at);
        let behind = whole.skip(at + part.len());
        assert(whole.subrange(at, at + part.len()) == part);
        assert forall|i: int| 0 <= i < whole.len() implies whole[i] == (before + part
            + behind)[i] by {
            if at <= i < at + part.len() {
                assert(part[i - at] == whole.subrange(at, at + part.len())[i - at]);
            }
        }
        assert(whole =~= before + part + behind);
    }
    if exists|before: Seq<char>, behind: Seq<char>| whole == #[trigger] (before + part + behind) {
        let (before, behind) = choose|before: Seq<char>, behind: Seq<char>|
            whole == #[trigger] (before + part + behind);
        let at = before.len() as int;
        assert(whole.subrange(at, at + part.len()) =~= part);
        assert(text::stands_at(whole, part, at));
    }
}

/// The number that decimal digits spell.
pub open spec fn spelled_number(digits: Seq<char>) -> int
    decreases digits.len(),
{
    if digits.len() == 0 {
        0
    } else {
        spelled_number(digits.drop_last()) * 10 + (digits.last() as int - '0' as int)
    }
}

/// A decimal numeral spells its number, in digits, without a needless zero at its
/// start.
pub proof fn law_decimal_numerals(n: nat)
    ensures
        spelled_number(text::decimal(n)) == n,
        text::decimal(n).len() > 0,
        n > 0 ==> text::decimal(n)[0] != '0',
        n == 0 ==> text::decimal(n) == seq!['0'],
        forall|i: int| 0 <= i < text::decimal(n).len() ==> '0' <= #[trigger] text::decimal(n)[i]
            <= '9',
    decreases n,
{
    let all = text::decimal(n);
    if n < 10 {
        assert(all.drop_last() =~= Seq::<char>::empty());
        assert(all.last() == text::digit(n));
        assert(spelled_number(all.drop_last()) == 0);
    } else {
        law_decimal_numerals(n / 10);
        assert(all.drop_last() =~= text::decimal(n / 10));
        assert(all.last() == text::digit(n % 10));
        assert(all[0] == text::decimal(n / 10)[0]);
        assert forall|i: int| 0 <= i < all.len() implies '0' <= #[trigger] all[i] <= '9' by {
            if i < all.len() - 1 {
                assert(all[i] == text::decimal(n / 10)[i]);
            }
        }
    }
}

/// The order of ASCII texts: at the first place where they differ the lesser
/// character decides, and the start of a text comes before it.
pub proof fn law_order_of_texts(
    common: Seq<char>,
    a: char,
    rest_a: Seq<char>,
    b: char,
    rest_b: Seq<char>,
)
    requires
        is_ascii_chars(common.push(a) + rest_a),
        is_ascii_chars(common.push(b) + rest_b),
        a < b,
    ensures
        text::text_before(common.push(a) + rest_a, common.push(b) + rest_b),
        text::text_before(common, common.push(a) + rest_a),
        !text::text_before(common.push(b) + rest_b, common.push(a) + rest_a),
        !text::text_before(common, common),
{
    let x = common.push(a) + rest_a;
    let y = common.push(b) + rest_b;
    assert forall|i: int| 0 <= i < common.len() implies '\0' <= #[trigger] common[i] <= '\u{7f}' by {
        assert(x[i] == common[i]);
    }
    is_ascii_chars_encode_utf8(x);
    is_ascii_chars_encode_utf8(y);
    is_ascii_chars_encode_utf8(common);
    is_ascii_chars_nat_bound(x);
    is_ascii_chars_nat_bound(y);
    let bx = encode_utf8(x);
    let by = encode_utf8(y);
    let bc = encode_utf8(common);
    let n = common.len() as int;
    assert(x[n] == a && y[n] == b);
    assert forall|i: int| 0 <= i < n implies bx[i] == bc[i] && by[i] == bc[i] by {
        assert(x[i] == common[i] && y[i] == common[i]);
    }
    lemma_first_difference(bx, by, n);
    lemma_start_comes_before(bc, bx);
    text::lemma_text_order(y, x);
    text::lemma_text_order(common, common);
    if text::text_before(y, x) {
        text::lemma_text_before_transitive(x, y, x);
        text::lemma_before_irreflexive(encode_utf8(x));
    }
    text::lemma_before_irreflexive(encode_utf8(common));
}

proof fn lemma_first_difference(x: Seq<u8>, y: Seq<u8>, n: int)
    requires
        0 <= n < x.len(),
        n < y.len(),
        forall|i: int| 0 <= i < n ==> x[i] == y[i],
        x[n] < y[n],
    ensures
        text::bytes_before(x, y),
    decreases n,
{
    if n > 0 {
        assert(x[0] == y[0]);
        assert forall|i: int| 0 <= i < n - 1 implies x.skip(1)[i] == y.skip(1)[i] by {
            assert(x[i + 1] == y[i + 1]);
        }
        lemma_first_difference(x.skip(1), y.skip(1), n - 1);
    }
}

proof fn lemma_start_comes_before(start: Seq<u8>, whole: Seq<u8>)
    requires
        start.len() < whole.len(),
        forall|i: int| 0 <= i < start.len() ==> start[i] == whole[i],
    ensures
        text::bytes_before(start, whole),
    decreases start.len(),
{
    if start.len() > 0 {
        assert(start[0] == whole[0]);
        assert forall|i: int| 0 <= i < start.skip(1).len() implies start.skip(1)[i] == whole.skip(
            1,
        )[i] by {
            assert(start[i + 1] == whole[i + 1]);
        }
        lemma_start_comes_before(start.skip(1), whole.skip(1));
    }
}

} // verus!
