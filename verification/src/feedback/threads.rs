//! Which threads of a conversation tree go into a feedback report. A thread id
//! is given by its text; ids made later have greater texts.
use crate::text;
use vstd::prelude::*;
use vstd::relations::*;
use vstd::seq_lib::*;

verus! {

/// How many threads of a tree a report takes at most.
pub const MAX_FEEDBACK_TREE_THREADS: usize = 8;

/// The order of thread ids by their texts.
pub open spec fn id_order() -> spec_fn(Seq<char>, Seq<char>) -> bool {
    |a: Seq<char>, b: Seq<char>| a == b || text::text_before(a, b)
}

/// The same ids, oldest first.
pub open spec fn in_order(ids: Seq<Seq<char>>) -> Seq<Seq<char>> {
    ids.sort_by(id_order())
}

/// The last `k` items, or all where there are fewer.
pub open spec fn last_items<T>(s: Seq<T>, k: int) -> Seq<T> {
    if s.len() <= k {
        s
    } else {
        s.skip(s.len() - k)
    }
}

/// Tells the ids other than the root.
pub open spec fn other_than(root: Seq<char>) -> spec_fn(Seq<char>) -> bool {
    |id: Seq<char>| id != root
}

/// The descendants in a listing of a tree, oldest first.
pub open spec fn descendants(root: Seq<char>, listed: Seq<Seq<char>>) -> Seq<Seq<char>> {
    in_order(listed.filter(other_than(root)))
}

/// The threads that a report takes: the root, and behind it its descendants,
/// only the most recent ones where the tree is too large.
pub open spec fn feedback_threads(root: Seq<char>, listed: Seq<Seq<char>>) -> Seq<Seq<char>> {
    seq![root] + if listed.len() > MAX_FEEDBACK_TREE_THREADS {
        last_items(descendants(root, listed), MAX_FEEDBACK_TREE_THREADS - 1)
    } else {
        descendants(root, listed)
    }
}

/// The listing that stands in for one that failed: the root, and the stored
/// descendants as far as they could be read.
pub open spec fn stored_listing(
    root: Seq<char>,
    open: Option<Seq<Seq<char>>>,
    closed: Option<Seq<Seq<char>>>,
) -> Seq<Seq<char>> {
    seq![root] + (match open {
        Some(ids) => ids,
        None => Seq::empty(),
    }) + (match closed {
        Some(ids) => ids,
        None => Seq::empty(),
    })
}

/// The texts of a list that may be missing.
pub open spec fn optional_texts(list: Option<Vec<String>>) -> Option<Seq<Seq<char>>> {
    match list {
        Some(ids) => Some(text::texts(ids@)),
        None => None,
    }
}

pub proof fn lemma_id_order_total()
    ensures
        total_ordering(id_order()),
{
    let leq = id_order();
    assert forall|a: Seq<char>, b: Seq<char>| #[trigger] leq(a, b) && #[trigger] leq(b, a) implies a
        == b by {
        text::lemma_text_order(a, b);
    }
    assert forall|a: Seq<char>, b: Seq<char>, c: Seq<char>| #[trigger] leq(a, b) && #[trigger] leq(
        b,
        c,
    ) implies leq(a, c) by {
        if a != b && b != c {
            text::lemma_text_before_transitive(a, b, c);
        }
    }
    assert forall|a: Seq<char>, b: Seq<char>| #[trigger] leq(a, b) || #[trigger] leq(b, a) by {
        text::lemma_text_order(a, b);
    }
}

proof fn lemma_texts_insert(list: Seq<String>, at: int, id: String)
    requires
        0 <= at <= list.len(),
    ensures
        text::texts(list.insert(at, id)) == text::texts(list).insert(at, id@),
{
    assert(text::texts(list.insert(at, id)) =~= text::texts(list).insert(at, id@));
}

proof fn lemma_texts_push(list: Seq<String>, id: String)
    ensures
        text::texts(list.push(id)) == text::texts(list).push(id@),
{
    assert(text::texts(list.push(id)) =~= text::texts(list).push(id@));
}

/// The ids, oldest first.
fn sort_ids(ids: Vec<String>) -> (r: Vec<String>)
    ensures
        text::texts(r@) == in_order(text::texts(ids@)),
{
    broadcast use group_to_multiset_ensures;

    let ghost leq = id_order();
    let mut out: Vec<String> = Vec::new();
    let n: usize = ids.len();
    let mut i: usize = 0;
    proof {
        assert(text::texts(out@) =~= Seq::<Seq<char>>::empty());
        assert(text::texts(ids@).take(0) =~= Seq::<Seq<char>>::empty());
    }
    while i < n
        invariant
            n == ids@.len(),
            i <= n,
            leq == id_order(),
            sorted_by(text::texts(out@), leq),
            text::texts(out@).to_multiset() == text::texts(ids@).take(i as int).to_multiset(),
        decreases n - i,
    {
        let ghost id = ids@[i as int]@;
        let ghost sorted = text::texts(out@);
        let mut at: usize = 0;
        while at < out.len() && text::comes_before(out[at].as_str(), ids[i].as_str())
            invariant
                n == ids@.len(),
                i < n,
                at <= out@.len(),
                sorted == text::texts(out@),
                id == ids@[i as int]@,
                forall|k: int| 0 <= k < at ==> text::text_before(#[trigger] sorted[k], id),
            decreases out@.len() - at,
        {
            at += 1;
        }
        proof {
            let grown = sorted.insert(at as int, id);
            lemma_id_order_total();
            assert forall|a: int, b: int| 0 <= a < b < grown.len() implies #[trigger] leq(
                grown[a],
                grown[b],
            ) by {
                let x = if a < at { a } else { a - 1 };
                let y = if b < at { b } else { b - 1 };
                if a != at && b != at {
                    assert(leq(sorted[x], sorted[y]));
                } else if a == at {
                    text::lemma_text_order(sorted[at as int], id);
                    assert(leq(id, sorted[at as int]));
                    if y > at {
                        assert(leq(sorted[at as int], sorted[y]));
                    }
                }
            }
            lemma_texts_insert(out@, at as int, ids@[i as int]);
            to_multiset_insert(sorted, at as int, id);
            to_multiset_build(text::texts(ids@).take(i as int), id);
            assert(text::texts(ids@).take(i + 1) =~= text::texts(ids@).take(i as int).push(id));
            assert(grown.to_multiset() == text::texts(ids@).take(i + 1).to_multiset());
        }
        out.insert(at, ids[i].clone());
        i += 1;
    }
    proof {
        let all = text::texts(ids@);
        assert(all.take(i as int) =~= all);
        lemma_id_order_total();
        all.lemma_sort_by_ensures(leq);
        lemma_sorted_unique(text::texts(out@), all.sort_by(leq), leq);
    }
    out
}

/// The threads of a tree that a report takes.
pub fn select_feedback_threads(root: &str, listed: &Vec<String>) -> (r: Vec<String>)
    ensures
        text::texts(r@) == feedback_threads(root@, text::texts(listed@)),
{
    let n: usize = listed.len();
    let ghost others = other_than(root@);
    let mut rest: Vec<String> = Vec::new();
    let mut i: usize = 0;
    proof {
        reveal(Seq::filter);
        assert(text::texts(rest@) =~= Seq::<Seq<char>>::empty());
        assert(text::texts(listed@).take(0) =~= Seq::<Seq<char>>::empty());
    }
    while i < n
        invariant
            n == listed@.len(),
            i <= n,
            others == other_than(root@),
            text::texts(rest@) == text::texts(listed@).take(i as int).filter(others),
        decreases n - i,
    {
        proof {
            let id = listed@[i as int];
            assert(text::texts(listed@).take(i + 1) =~= text::texts(listed@).take(i as int).push(
                id@,
            ));
            text::lemma_filter_push(text::texts(listed@).take(i as int), id@, others);
            lemma_texts_push(rest@, id);
        }
        if !text::same_text(listed[i].as_str(), root) {
            rest.push(listed[i].clone());
        }
        i += 1;
    }
    assert(text::texts(listed@).take(i as int) =~= text::texts(listed@));
    let mut ordered: Vec<String> = sort_ids(rest);
    if n > MAX_FEEDBACK_TREE_THREADS {
        let keep: usize = MAX_FEEDBACK_TREE_THREADS - 1;
        if ordered.len() > keep {
            let split: usize = ordered.len() - keep;
            let ghost all = ordered@;
            ordered = ordered.split_off(split);
            assert(text::texts(ordered@) =~= text::texts(all).skip(split as int));
        }
    }
    let mut out: Vec<String> = Vec::new();
    out.push(root.to_string());
    let ghost tail = ordered@;
    let ghost first = out@;
    out.append(&mut ordered);
    assert(text::texts(out@) =~= seq![root@] + text::texts(tail));
    out
}

/// The listing that stands in for one that failed.
pub fn fallback_listing(root: &str, open: Option<Vec<String>>, closed: Option<Vec<String>>) -> (r:
    Vec<String>)
    ensures
        text::texts(r@) == stored_listing(root@, optional_texts(open), optional_texts(closed)),
{
    let mut out: Vec<String> = Vec::new();
    out.push(root.to_string());
    assert(text::texts(out@) =~= seq![root@]);
    if let Some(mut ids) = open {
        let ghost have = out@;
        let ghost more = ids@;
        out.append(&mut ids);
        assert(text::texts(out@) =~= text::texts(have) + text::texts(more));
    } else {
        assert(text::texts(out@) =~= text::texts(out@) + Seq::<Seq<char>>::empty());
    }
    if let Some(mut ids) = closed {
        let ghost have = out@;
        let ghost more = ids@;
        out.append(&mut ids);
        assert(text::texts(out@) =~= text::texts(have) + text::texts(more));
    } else {
        assert(text::texts(out@) =~= text::texts(out@) + Seq::<Seq<char>>::empty());
    }
    out
}

proof fn lemma_descendants(root: Seq<char>, listed: Seq<Seq<char>>)
    ensures
        descendants(root, listed).len() <= listed.len(),
        listed.contains(root) ==> descendants(root, listed).len() < listed.len(),
        sorted_by(descendants(root, listed), id_order()),
        forall|id: Seq<char>|
            descendants(root, listed).contains(id) <==> listed.contains(id) && id != root,
{
    broadcast use group_to_multiset_ensures;

    let others = other_than(root);
    let kept = listed.filter(others);
    let leq = id_order();
    lemma_id_order_total();
    kept.lemma_sort_by_ensures(leq);
    listed.lemma_filter_len(others);
    assert(kept.to_multiset().len() == kept.len());
    assert(kept.sort_by(leq).to_multiset().len() == kept.sort_by(leq).len());
    assert forall|id: Seq<char>|
        descendants(root, listed).contains(id) <==> listed.contains(id) && id != root by {
        lemma_filter_members(listed, others, id);
        assert(kept.contains(id) <==> kept.to_multiset().count(id) > 0);
        assert(kept.sort_by(leq).contains(id) <==> kept.sort_by(leq).to_multiset().count(id) > 0);
    }
    if listed.contains(root) {
        lemma_filter_shorter(listed, others, root);
    }
}

proof fn lemma_filter_members<T>(s: Seq<T>, keep: spec_fn(T) -> bool, x: T)
    ensures
        s.filter(keep).contains(x) <==> s.contains(x) && keep(x),
    decreases s.len(),
{
    reveal(Seq::filter);
    if s.len() > 0 {
        let front = s.drop_last();
        lemma_filter_members(front, keep, x);
        assert(s =~= front.push(s.last()));
        text::lemma_filter_push(front, s.last(), keep);
        assert(s.contains(x) <==> front.contains(x) || s.last() == x) by {
            if front.contains(x) {
                let i = choose|i: int| 0 <= i < front.len() && front[i] == x;
                assert(s[i] == x);
            }
            if s.last() == x {
                assert(s[s.len() - 1] == x);
            }
        }
        let kept = front.filter(keep);
        assert(kept.push(s.last()).contains(x) <==> kept.contains(x) || s.last() == x) by {
            if kept.contains(x) {
                let i = choose|i: int| 0 <= i < kept.len() && kept[i] == x;
                assert(kept.push(s.last())[i] == x);
            }
            if s.last() == x {
                assert(kept.push(s.last())[kept.len() as int] == x);
            }
        }
    }
}

proof fn lemma_filter_shorter<T>(s: Seq<T>, keep: spec_fn(T) -> bool, x: T)
    requires
        s.contains(x),
        !keep(x),
    ensures
        s.filter(keep).len() < s.len(),
    decreases s.len(),
{
    reveal(Seq::filter);
    s.drop_last().lemma_filter_len(keep);
    if s.last() != x {
        let i = choose|i: int| 0 <= i < s.len() && s[i] == x;
        assert(s.drop_last()[i] == x);
        lemma_filter_shorter(s.drop_last(), keep, x);
    }
}

/// A report takes the root first, and the root once only.
pub proof fn law_root_comes_first_and_once(root: Seq<char>, listed: Seq<Seq<char>>)
    ensures
        feedback_threads(root, listed)[0] == root,
        forall|i: int|
            0 < i < feedback_threads(root, listed).len() ==> feedback_threads(root, listed)[i]
                != root,
{
    lemma_descendants(root, listed);
    let all = descendants(root, listed);
    let taken = feedback_threads(root, listed);
    assert forall|i: int| 0 < i < taken.len() implies taken[i] != root by {
        let j = if listed.len() > MAX_FEEDBACK_TREE_THREADS && all.len()
            > MAX_FEEDBACK_TREE_THREADS - 1 {
            all.len() - (MAX_FEEDBACK_TREE_THREADS - 1) + i - 1
        } else {
            i - 1
        };
        assert(taken[i] == all[j]);
        assert(all.contains(all[j]));
    }
}

/// A report never takes more threads than the bound, whatever the size of the
/// tree. A listing of just as many threads as the bound has the root among them.
pub proof fn law_thread_count_is_bounded(root: Seq<char>, listed: Seq<Seq<char>>)
    requires
        listed.len() == MAX_FEEDBACK_TREE_THREADS ==> listed.contains(root),
    ensures
        feedback_threads(root, listed).len() <= MAX_FEEDBACK_TREE_THREADS,
{
    lemma_descendants(root, listed);
}

/// Every thread of a report but the root is a listed descendant, and in a tree
/// within the bound every listed descendant is taken.
pub proof fn law_threads_are_listed(root: Seq<char>, listed: Seq<Seq<char>>, id: Seq<char>)
    ensures
        feedback_threads(root, listed).contains(id) && id != root ==> listed.contains(id),
        listed.len() <= MAX_FEEDBACK_TREE_THREADS && listed.contains(id) ==> feedback_threads(
            root,
            listed,
        ).contains(id),
{
    lemma_descendants(root, listed);
    let all = descendants(root, listed);
    let taken = feedback_threads(root, listed);
    if taken.contains(id) && id != root {
        let i = choose|i: int| 0 <= i < taken.len() && taken[i] == id;
        let j = if listed.len() > MAX_FEEDBACK_TREE_THREADS && all.len()
            > MAX_FEEDBACK_TREE_THREADS - 1 {
            all.len() - (MAX_FEEDBACK_TREE_THREADS - 1) + i - 1
        } else {
            i - 1
        };
        assert(taken[i] == all[j]);
        assert(all.contains(id));
    }
    if listed.len() <= MAX_FEEDBACK_TREE_THREADS && listed.contains(id) {
        if id == root {
            assert(taken[0] == id);
        } else {
            assert(all.contains(id));
            let j = choose|j: int| 0 <= j < all.len() && all[j] == id;
            assert(taken[j + 1] == id);
        }
    }
}

/// The descendants of a report stand oldest first, and none that was left out is
/// more recent than one that was taken.
pub proof fn law_most_recent_descendants_are_kept(root: Seq<char>, listed: Seq<Seq<char>>)
    ensures
        ({
            let taken = feedback_threads(root, listed);
            let all = descendants(root, listed);
            &&& sorted_by(taken.skip(1), id_order())
            &&& taken.skip(1) == all.skip(all.len() - (taken.len() - 1))
            &&& forall|i: int, j: int|
                0 <= i < all.len() - (taken.len() - 1) && 1 <= j < taken.len() ==> #[trigger]
                id_order()(all[i], taken[j])
        }),
{
    lemma_descendants(root, listed);
    let taken = feedback_threads(root, listed);
    let all = descendants(root, listed);
    let cut = all.len() - (taken.len() - 1);
    assert(taken.skip(1) =~= all.skip(cut));
    assert forall|i: int, j: int| 0 <= i < cut && 1 <= j < taken.len() implies #[trigger] id_order()(
        all[i],
        taken[j],
    ) by {
        assert(taken[j] == all[cut + j - 1]);
    }
    assert forall|i: int, j: int| 0 <= i < j < taken.skip(1).len() implies #[trigger] id_order()(
        taken.skip(1)[i],
        taken.skip(1)[j],
    ) by {
        assert(taken.skip(1)[i] == all[cut + i]);
        assert(taken.skip(1)[j] == all[cut + j]);
    }
}

/// How often an id is listed: once more where one more of it is listed.
pub proof fn law_listing_counts(listed: Seq<Seq<char>>, id: Seq<char>, other: Seq<char>)
    ensures
        listed.push(id).to_multiset().count(id) == listed.to_multiset().count(id) + 1,
        other != id ==> listed.push(id).to_multiset().count(other) == listed.to_multiset().count(
            other,
        ),
{
    broadcast use group_to_multiset_ensures;

}

proof fn lemma_filter_counts(s: Seq<Seq<char>>, root: Seq<char>)
    ensures
        forall|id: Seq<char>|
            id != root ==> #[trigger] s.filter(other_than(root)).to_multiset().count(id)
                == s.to_multiset().count(id),
        s.filter(other_than(root)).len() == s.len() - s.to_multiset().count(root),
    decreases s.len(),
{
    broadcast use group_to_multiset_ensures;

    reveal(Seq::filter);
    if s.len() > 0 {
        let front = s.drop_last();
        let others = other_than(root);
        lemma_filter_counts(front, root);
        assert(s =~= front.push(s.last()));
        text::lemma_filter_push(front, s.last(), others);
        assert forall|id: Seq<char>| id != root implies #[trigger] s.filter(
            others,
        ).to_multiset().count(id) == s.to_multiset().count(id) by {
            assert(front.filter(others).to_multiset().count(id) == front.to_multiset().count(id));
        }
    } else {
        assert(s =~= Seq::<Seq<char>>::empty());
        assert(s.filter(other_than(root)) =~= Seq::<Seq<char>>::empty());
    }
}

proof fn lemma_last_items_counts(s: Seq<Seq<char>>, k: int)
    requires
        0 <= k,
    ensures
        forall|id: Seq<char>|
            #[trigger] last_items(s, k).to_multiset().count(id) <= s.to_multiset().count(id),
        forall|id: Seq<char>|
            #[trigger] last_items(s, k).to_multiset().count(id) < s.to_multiset().count(id)
                ==> exists|i: int| 0 <= i < s.len() - k && #[trigger] s[i] == id,
{
    broadcast use group_to_multiset_ensures;

    if s.len() > k {
        let cut = s.len() - k;
        assert(s =~= s.take(cut) + s.skip(cut));
        lemma_multiset_commutative(s.take(cut), s.skip(cut));
        assert forall|id: Seq<char>|
            #[trigger] last_items(s, k).to_multiset().count(id) < s.to_multiset().count(
                id,
            ) implies exists|i: int| 0 <= i < s.len() - k && #[trigger] s[i] == id by {
            assert(s.take(cut).to_multiset().count(id) > 0);
            assert(s.take(cut).contains(id));
            let i = choose|i: int| 0 <= i < cut && s.take(cut)[i] == id;
            assert(s[i] == id);
        }
    }
}

/// The threads of a report, by what was listed. Behind the root stand other threads,
/// oldest first. Where eight at most were listed, these are the listed ones, each as
/// often as it was listed; of more they are seven, or all where there are fewer, and
/// one that was left out is not more recent than any that was taken.
pub proof fn law_report_takes_the_latest_threads(root: Seq<char>, listed: Seq<Seq<char>>)
    ensures
        ({
            let taken = feedback_threads(root, listed);
            let others = listed.len() - listed.to_multiset().count(root);
            let rest = taken.skip(1).to_multiset();
            &&& taken.len() >= 1 && taken[0] == root
            &&& listed.len() <= 8 ==> taken.len() == 1 + others
            &&& listed.len() > 8 ==> taken.len() == 1 + (if others < 7 {
                others
            } else {
                7
            })
            &&& rest.count(root) == 0
            &&& forall|id: Seq<char>|
                id != root ==> #[trigger] rest.count(id) <= listed.to_multiset().count(id)
            &&& forall|id: Seq<char>|
                listed.len() <= 8 && id != root ==> #[trigger] rest.count(id)
                    == listed.to_multiset().count(id)
            &&& forall|i: int, j: int|
                1 <= i < j < taken.len() ==> taken[i] == taken[j] || #[trigger] text::text_before(
                    taken[i],
                    taken[j],
                )
            &&& forall|id: Seq<char>, j: int|
                id != root && #[trigger] rest.count(id) < listed.to_multiset().count(id) && 1 <= j
                    < taken.len() ==> id == #[trigger] taken[j] || text::text_before(id, taken[j])
        }),
{
    broadcast use group_to_multiset_ensures;

    let taken = feedback_threads(root, listed);
    let kept = listed.filter(other_than(root));
    let all = descendants(root, listed);
    let leq = id_order();
    lemma_descendants(root, listed);
    lemma_filter_counts(listed, root);
    lemma_id_order_total();
    kept.lemma_sort_by_ensures(leq);
    assert(kept.to_multiset().len() == kept.len());
    assert(all.to_multiset().len() == all.len());
    lemma_last_items_counts(all, 7);
    law_root_comes_first_and_once(root, listed);
    let tail = if listed.len() > 8 {
        last_items(all, 7)
    } else {
        all
    };
    assert(taken.skip(1) =~= tail);
    let cut = all.len() - tail.len();
    assert forall|k: int| 0 <= k < tail.len() implies tail[k] == all[cut + k] by {}
    if tail.to_multiset().count(root) > 0 {
        assert(tail.contains(root));
        let i = choose|i: int| 0 <= i < tail.len() && tail[i] == root;
        assert(taken[i + 1] == root);
    }
    assert forall|i: int, j: int| 1 <= i < j < taken.len() implies taken[i] == taken[j]
        || #[trigger] text::text_before(taken[i], taken[j]) by {
        assert(taken[i] == all[cut + i - 1]);
        assert(taken[j] == all[cut + j - 1]);
        assert(leq(all[cut + i - 1], all[cut + j - 1]));
    }
    assert forall|id: Seq<char>, j: int|
        id != root && #[trigger] tail.to_multiset().count(id) < listed.to_multiset().count(id) && 1
            <= j < taken.len() implies id == #[trigger] taken[j] || text::text_before(
        id,
        taken[j],
    ) by {
        assert(kept.to_multiset().count(id) == listed.to_multiset().count(id));
        assert(tail.to_multiset().count(id) < all.to_multiset().count(id));
        let i = choose|i: int| 0 <= i < all.len() - 7 && #[trigger] all[i] == id;
        assert(taken[j] == all[cut + j - 1]);
        assert(leq(all[i], all[cut + j - 1]));
    }
}

} // verus!
