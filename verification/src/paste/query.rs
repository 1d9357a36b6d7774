//! Pasted text as a single-line search query.
use crate::text;
use vstd::prelude::*;

verus! {

/// The words of a text with single spaces between them.
pub open spec fn collapsed(pasted: Seq<char>) -> Seq<char> {
    text::joined(text::words(pasted), " "@)
}

/// The query in a pasted text; there is none where the text has no word.
pub open spec fn search_query(pasted: Seq<char>) -> Option<Seq<char>> {
    if text::words(pasted).len() == 0 {
        None
    } else {
        Some(collapsed(pasted))
    }
}

proof fn lemma_joined_nonempty(list: Seq<Seq<char>>, sep: Seq<char>)
    requires
        list.len() > 0,
        forall|i: int| 0 <= i < list.len() ==> (#[trigger] list[i]).len() > 0,
    ensures
        text::joined(list, sep).len() > 0,
{
    if list.len() > 1 {
        assert(list[list.len() - 1].len() > 0);
    }
}

pub proof fn lemma_words_are_words(s: Seq<char>)
    ensures
        forall|i: int|
            #![trigger text::words(s)[i]]
            0 <= i < text::words(s).len() ==> text::words(s)[i].len() > 0 && forall|j: int|
                0 <= j < text::words(s)[i].len() ==> !text::is_space(
                    #[trigger] text::words(s)[i][j],
                ),
{
    let sep = |c: char| text::is_space(c);
    let all = text::pieces(s, sep);
    let keep = |piece: Seq<char>| piece.len() > 0;
    let good = |piece: Seq<char>| forall|j: int| 0 <= j < piece.len() ==> !sep(#[trigger] piece[j]);
    assert forall|k: int| 0 <= k < all.len() implies good(#[trigger] all[k]) by {
        let closed = text::closed_pieces(s, sep);
        if k < closed.len() {
            text::lemma_closed_piece_without(s, sep, k);
            assert(all[k] == closed[k]);
        } else {
            text::lemma_last_piece_without(s, sep);
        }
    }
    text::lemma_filter_all(all, keep, good);
    assert forall|i: int| #![trigger text::words(s)[i]] 0 <= i < text::words(s).len() implies text::words(
        s,
    )[i].len() > 0 && forall|j: int|
        0 <= j < text::words(s)[i].len() ==> !text::is_space(#[trigger] text::words(s)[i][j]) by {
        let word = all.filter(keep)[i];
        assert(good(word) && keep(word));
        assert forall|j: int| 0 <= j < word.len() implies !text::is_space(#[trigger] word[j]) by {
            assert(!sep(word[j]));
        }
    }
}

/// The search query in a pasted text.
pub fn normalize_pasted_search_query(pasted: &str) -> (r: Option<String>)
    ensures
        match r {
            Some(q) => search_query(pasted@) == Some(q@),
            None => search_query(pasted@) is None,
        },
{
    let words: Vec<String> = text::split_words(pasted);
    let query: String = text::join_texts(words.as_slice(), " ");
    proof {
        lemma_words_are_words(pasted@);
        if words@.len() > 0 {
            lemma_joined_nonempty(text::words(pasted@), " "@);
        }
        assert(text::texts(words@).len() == words@.len());
    }
    if query.as_str().is_empty() {
        None
    } else {
        Some(query)
    }
}

proof fn lemma_pieces_of_longer_text(s: Seq<char>, w: Seq<char>, sep: spec_fn(char) -> bool)
    requires
        forall|j: int| 0 <= j < w.len() ==> !sep(#[trigger] w[j]),
    ensures
        text::last_piece(s + w, sep) == text::last_piece(s, sep) + w,
        text::closed_pieces(s + w, sep) == text::closed_pieces(s, sep),
    decreases w.len(),
{
    if w.len() == 0 {
        assert(s + w =~= s);
        assert(text::last_piece(s, sep) + w =~= text::last_piece(s, sep));
    } else {
        let front = w.drop_last();
        assert forall|j: int| 0 <= j < front.len() implies !sep(#[trigger] front[j]) by {
            assert(front[j] == w[j]);
        }
        lemma_pieces_of_longer_text(s, front, sep);
        assert((s + w).drop_last() =~= s + front);
        assert((s + w).last() == w[w.len() - 1]);
        assert((text::last_piece(s, sep) + front).push(w.last()) =~= text::last_piece(s, sep) + w);
    }
}

/// Texts that are not empty and have no white space are the words of their join.
pub proof fn lemma_words_of_join(list: Seq<Seq<char>>)
    requires
        forall|i: int|
            #![trigger list[i]]
            0 <= i < list.len() ==> list[i].len() > 0 && forall|j: int|
                0 <= j < list[i].len() ==> !text::is_space(#[trigger] list[i][j]),
    ensures
        text::words(text::joined(list, " "@)) == list,
    decreases list.len(),
{
    reveal_strlit(" ");
    let sep = |c: char| text::is_space(c);
    let full = |piece: Seq<char>| piece.len() > 0;
    let whole = text::joined(list, " "@);
    if list.len() == 0 {
        reveal(Seq::filter);
        assert(text::pieces(whole, sep) =~= seq![Seq::<char>::empty()]);
        text::lemma_filter_push(Seq::<Seq<char>>::empty(), Seq::<char>::empty(), full);
        assert(seq![Seq::<char>::empty()] =~= Seq::<Seq<char>>::empty().push(Seq::empty()));
        assert(text::words(whole) =~= list);
    } else {
        let front = list.drop_last();
        let w = list.last();
        assert(list[list.len() - 1] == w);
        assert forall|i: int| #![trigger front[i]] 0 <= i < front.len() implies front[i].len() > 0
            && forall|j: int| 0 <= j < front[i].len() ==> !text::is_space(#[trigger] front[i][j]) by {
            assert(front[i] == list[i]);
        }
        assert forall|j: int| 0 <= j < w.len() implies !sep(#[trigger] w[j]) by {
            assert(!text::is_space(list[list.len() - 1][j]));
        }
        if list.len() == 1 {
            let none = Seq::<char>::empty();
            lemma_pieces_of_longer_text(none, w, sep);
            assert(none + w =~= w);
            assert(whole == w);
            reveal(Seq::filter);
            text::lemma_filter_push(Seq::<Seq<char>>::empty(), w, full);
            assert(text::words(whole) =~= list);
        } else {
            lemma_words_of_join(front);
            let head = text::joined(front, " "@);
            let spaced = head + " "@;
            assert(spaced =~= head.push(' '));
            assert(spaced.drop_last() =~= head);
            lemma_pieces_of_longer_text(spaced, w, sep);
            assert(text::last_piece(spaced, sep) + w =~= w);
            assert(text::closed_pieces(spaced, sep) == text::pieces(head, sep));
            text::lemma_filter_push(text::pieces(head, sep), w, full);
            assert(text::words(whole) =~= list);
        }
    }
}

/// Collapsing keeps the words of a text, so that a query is its own query.
pub proof fn law_collapsing_keeps_words(pasted: Seq<char>)
    ensures
        text::words(collapsed(pasted)) == text::words(pasted),
        collapsed(collapsed(pasted)) == collapsed(pasted),
        search_query(collapsed(pasted)) == search_query(pasted),
{
    lemma_words_are_words(pasted);
    lemma_words_of_join(text::words(pasted));
}

/// White space at `i` is a single space inside the text.
pub open spec fn single_inner_space(s: Seq<char>, i: int) -> bool {
    &&& s[i] == ' '
    &&& 0 < i < s.len() - 1
    &&& !text::is_space(s[i - 1])
    &&& !text::is_space(s[i + 1])
}

proof fn lemma_join_spacing(list: Seq<Seq<char>>)
    requires
        list.len() > 0,
        forall|i: int|
            #![trigger list[i]]
            0 <= i < list.len() ==> list[i].len() > 0 && forall|j: int|
                0 <= j < list[i].len() ==> !text::is_space(#[trigger] list[i][j]),
    ensures
        ({
            let s = text::joined(list, " "@);
            &&& s.len() > 0
            &&& !text::is_space(s[0])
            &&& !text::is_space(s.last())
            &&& forall|i: int|
                0 <= i < s.len() && #[trigger] text::is_space(s[i]) ==> single_inner_space(s, i)
        }),
    decreases list.len(),
{
    reveal_strlit(" ");
    let s = text::joined(list, " "@);
    let w = list.last();
    assert(list[list.len() - 1] == w);
    assert(forall|j: int| 0 <= j < w.len() ==> !text::is_space(#[trigger] w[j]));
    assert(!text::is_space(w[0]));
    assert(!text::is_space(w[w.len() - 1]));
    if list.len() > 1 {
        let front = list.drop_last();
        assert forall|i: int| #![trigger front[i]] 0 <= i < front.len() implies front[i].len() > 0
            && forall|j: int| 0 <= j < front[i].len() ==> !text::is_space(#[trigger] front[i][j]) by {
            assert(front[i] == list[i]);
        }
        lemma_join_spacing(front);
        let head = text::joined(front, " "@);
        let n = head.len() as int;
        assert forall|i: int| 0 <= i < s.len() && #[trigger] text::is_space(
            s[i],
        ) implies single_inner_space(s, i) by {
            if i < n {
                assert(s[i] == head[i]);
                assert(single_inner_space(head, i));
                assert(s[i - 1] == head[i - 1]);
                assert(s[i + 1] == head[i + 1]);
            } else if i == n {
                assert(s[i - 1] == head.last());
                assert(s[i + 1] == w[0]);
            } else {
                assert(s[i] == w[i - n - 1]);
            }
        }
        assert(s[0] == head[0]);
        assert(s.last() == w.last());
    }
}

/// A query has white space only as single spaces between its words.
pub proof fn law_query_spacing(pasted: Seq<char>, i: int)
    requires
        search_query(pasted) is Some,
        0 <= i < search_query(pasted)->0.len(),
        text::is_space(search_query(pasted)->0[i]),
    ensures
        single_inner_space(search_query(pasted)->0, i),
{
    lemma_words_are_words(pasted);
    lemma_join_spacing(text::words(pasted));
}

} // verus!
