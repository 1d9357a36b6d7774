//! A map from text to text that lists its entries in key order.
use crate::text;
use vstd::prelude::*;

verus! {

/// Whether the keys of a list of entries strictly increase.
pub open spec fn sorted_keys(entries: Seq<(String, String)>) -> bool {
    forall|i: int, j: int|
        0 <= i < j < entries.len() ==> text::text_before(#[trigger] entries[i].0@, #[trigger] entries[j].0@)
}

/// Whether a list holds exactly the entries of a map, in key order.
pub open spec fn lists(entries: Seq<(String, String)>, map: Map<Seq<char>, Seq<char>>) -> bool {
    &&& sorted_keys(entries)
    &&& forall|i: int|
        0 <= i < entries.len() ==> map.contains_key(#[trigger] entries[i].0@)
            && map[entries[i].0@] == entries[i].1@
    &&& forall|k: Seq<char>| #[trigger]
        map.contains_key(k) ==> exists|i: int| 0 <= i < entries.len() && #[trigger] entries[i].0@ == k
}

/// A map from text to text. No key occurs twice, and the entries stand in the
/// byte order of their keys.
pub struct TextMap {
    entries: Vec<(String, String)>,
}

spec fn has_key(entries: Seq<(String, String)>, k: Seq<char>) -> bool {
    exists|i: int| 0 <= i < entries.len() && #[trigger] entries[i].0@ == k
}

spec fn key_index(entries: Seq<(String, String)>, k: Seq<char>) -> int {
    choose|i: int| 0 <= i < entries.len() && #[trigger] entries[i].0@ == k
}

spec fn map_of(entries: Seq<(String, String)>) -> Map<Seq<char>, Seq<char>> {
    Map::new(|k: Seq<char>| has_key(entries, k), |k: Seq<char>| entries[key_index(entries, k)].1@)
}

impl View for TextMap {
    type V = Map<Seq<char>, Seq<char>>;

    closed spec fn view(&self) -> Map<Seq<char>, Seq<char>> {
        map_of(self.entries@)
    }
}

/// In a sorted list a key stands at one place only.
proof fn lemma_key_once(entries: Seq<(String, String)>, i: int, j: int)
    requires
        sorted_keys(entries),
        0 <= i < entries.len(),
        0 <= j < entries.len(),
        entries[i].0@ == entries[j].0@,
    ensures
        i == j,
{
    text::lemma_text_order(entries[i].0@, entries[j].0@);
    if i < j {
        assert(text::text_before(entries[i].0@, entries[j].0@));
    }
    if j < i {
        assert(text::text_before(entries[j].0@, entries[i].0@));
    }
}

proof fn lemma_map_lists(entries: Seq<(String, String)>)
    requires
        sorted_keys(entries),
    ensures
        lists(entries, map_of(entries)),
{
    let map = map_of(entries);
    assert forall|i: int| 0 <= i < entries.len() implies map.contains_key(
        #[trigger] entries[i].0@,
    ) && map[entries[i].0@] == entries[i].1@ by {
        assert(has_key(entries, entries[i].0@));
        lemma_key_once(entries, i, key_index(entries, entries[i].0@));
    }
    assert forall|k: Seq<char>| #[trigger] map.contains_key(k) implies exists|i: int|
        0 <= i < entries.len() && #[trigger] entries[i].0@ == k by {
        assert(has_key(entries, k));
    }
}

/// A list determines the map whose entries it holds.
proof fn lemma_lists_determine(
    entries: Seq<(String, String)>,
    a: Map<Seq<char>, Seq<char>>,
    b: Map<Seq<char>, Seq<char>>,
)
    requires
        lists(entries, a),
        lists(entries, b),
    ensures
        a == b,
{
    assert forall|k: Seq<char>| a.contains_key(k) == b.contains_key(k) by {
        if a.contains_key(k) {
            let i = choose|i: int| 0 <= i < entries.len() && #[trigger] entries[i].0@ == k;
            assert(b.contains_key(entries[i].0@));
        }
        if b.contains_key(k) {
            let i = choose|i: int| 0 <= i < entries.len() && #[trigger] entries[i].0@ == k;
            assert(a.contains_key(entries[i].0@));
        }
    }
    assert forall|k: Seq<char>| a.contains_key(k) implies a[k] == b[k] by {
        let i = choose|i: int| 0 <= i < entries.len() && #[trigger] entries[i].0@ == k;
        assert(a[entries[i].0@] == b[entries[i].0@]);
    }
    assert(a =~= b);
}

impl TextMap {
    #[verifier::type_invariant]
    spec fn wf(self) -> bool {
        sorted_keys(self.entries@)
    }

    /// A map without entries.
    pub fn new() -> (r: Self)
        ensures
            r@ == Map::<Seq<char>, Seq<char>>::empty(),
    {
        let r = TextMap { entries: Vec::new() };
        assert(r@ =~= Map::<Seq<char>, Seq<char>>::empty());
        r
    }

    /// The place of a key: whether it is there, and how many keys come before it.
    fn locate(&self, key: &str) -> (r: (bool, usize))
        ensures
            r.1 <= self.entries@.len(),
            r.0 ==> r.1 < self.entries@.len() && self.entries@[r.1 as int].0@ == key@,
            r.0 == self@.contains_key(key@),
            forall|i: int|
                0 <= i < r.1 ==> text::text_before(#[trigger] self.entries@[i].0@, key@),
            !r.0 ==> forall|i: int|
                r.1 <= i < self.entries@.len() ==> text::text_before(key@, #[trigger] self.entries@[i].0@),
    {
        proof {
            use_type_invariant(self);
            lemma_map_lists(self.entries@);
        }
        let n: usize = self.entries.len();
        let mut i: usize = 0;
        while i < n
            invariant
                n == self.entries@.len(),
                i <= n,
                sorted_keys(self.entries@),
                lists(self.entries@, self@),
                forall|k: int| 0 <= k < i ==> text::text_before(#[trigger] self.entries@[k].0@, key@),
            decreases n - i,
        {
            if !text::comes_before(self.entries[i].0.as_str(), key) {
                let found: bool = text::same_text(self.entries[i].0.as_str(), key);
                proof {
                    text::lemma_text_order(self.entries@[i as int].0@, key@);
                    if !found {
                        assert forall|k: int| i <= k < self.entries@.len() implies text::text_before(
                            key@,
                            #[trigger] self.entries@[k].0@,
                        ) by {
                            if k > i {
                                text::lemma_text_before_transitive(
                                    key@,
                                    self.entries@[i as int].0@,
                                    self.entries@[k].0@,
                                );
                            }
                        }
                        if self@.contains_key(key@) {
                            let k = choose|k: int|
                                0 <= k < self.entries@.len() && #[trigger] self.entries@[k].0@
                                    == key@;
                            text::lemma_text_order(key@, key@);
                        }
                    }
                }
                return (found, i);
            }
            i += 1;
        }
        proof {
            if self@.contains_key(key@) {
                let k = choose|k: int|
                    0 <= k < self.entries@.len() && #[trigger] self.entries@[k].0@ == key@;
                text::lemma_text_order(key@, key@);
            }
        }
        (false, n)
    }

    /// Whether the map has a key.
    pub fn contains_key(&self, key: &str) -> (r: bool)
        ensures
            r == self@.contains_key(key@),
    {
        self.locate(key).0
    }

    /// The text that a key maps to.
    pub fn get(&self, key: &str) -> (r: Option<&str>)
        ensures
            match r {
                Some(v) => self@.contains_key(key@) && v@ == self@[key@],
                None => !self@.contains_key(key@),
            },
    {
        proof {
            use_type_invariant(self);
            lemma_map_lists(self.entries@);
        }
        let (found, at): (bool, usize) = self.locate(key);
        if found {
            Some(self.entries[at].1.as_str())
        } else {
            None
        }
    }

    /// Maps a key to a text, in place of what it mapped to before.
    pub fn insert(&mut self, key: String, value: String)
        ensures
            final(self)@ == old(self)@.insert(key@, value@),
    {
        proof {
            use_type_invariant(&*self);
            lemma_map_lists(self.entries@);
        }
        let (found, at): (bool, usize) = self.locate(key.as_str());
        let ghost before = self.entries@;
        let ghost want = self@.insert(key@, value@);
        let mut list: Vec<(String, String)> = Vec::new();
        std::mem::swap(&mut list, &mut self.entries);
        if found {
            list.set(at, (key, value));
            proof {
                let after = list@;
                assert forall|i: int, j: int| 0 <= i < j < after.len() implies text::text_before(
                    #[trigger] after[i].0@,
                    #[trigger] after[j].0@,
                ) by {
                    assert(after[i].0@ == before[i].0@ && after[j].0@ == before[j].0@);
                }
                assert forall|i: int| 0 <= i < after.len() implies want.contains_key(
                    #[trigger] after[i].0@,
                ) && want[after[i].0@] == after[i].1@ by {
                    if i != at {
                        if after[i].0@ == key@ {
                            lemma_key_once(before, i, at as int);
                        }
                        assert(before[i] == after[i]);
                    }
                }
                assert forall|k: Seq<char>| #[trigger] want.contains_key(k) implies exists|i: int|
                    0 <= i < after.len() && #[trigger] after[i].0@ == k by {
                    if k == key@ {
                        assert(after[at as int].0@ == k);
                    } else {
                        let i = choose|i: int|
                            0 <= i < before.len() && #[trigger] before[i].0@ == k;
                        assert(after[i].0@ == k);
                    }
                }
            }
        } else {
            list.insert(at, (key, value));
            proof {
                let after = list@;
                assert forall|i: int, j: int| 0 <= i < j < after.len() implies text::text_before(
                    #[trigger] after[i].0@,
                    #[trigger] after[j].0@,
                ) by {
                    if i < at {
                        assert(after[i] == before[i]);
                    }
                    if i > at {
                        assert(after[i] == before[i - 1]);
                    }
                    if j < at {
                        assert(after[j] == before[j]);
                    }
                    if j > at {
                        assert(after[j] == before[j - 1]);
                    }
                }
                assert forall|i: int| 0 <= i < after.len() implies want.contains_key(
                    #[trigger] after[i].0@,
                ) && want[after[i].0@] == after[i].1@ by {
                    text::lemma_text_order(key@, key@);
                    if i < at {
                        assert(after[i] == before[i]);
                        assert(before[i].0@ != key@);
                    }
                    if i > at {
                        assert(after[i] == before[i - 1]);
                        assert(before[i - 1].0@ != key@);
                    }
                }
                assert forall|k: Seq<char>| #[trigger] want.contains_key(k) implies exists|i: int|
                    0 <= i < after.len() && #[trigger] after[i].0@ == k by {
                    if k == key@ {
                        assert(after[at as int].0@ == k);
                    } else {
                        let i = choose|i: int|
                            0 <= i < before.len() && #[trigger] before[i].0@ == k;
                        if i < at {
                            assert(after[i].0@ == k);
                        } else {
                            assert(after[i + 1].0@ == k);
                        }
                    }
                }
            }
        }
        proof {
            lemma_map_lists(list@);
            lemma_lists_determine(list@, map_of(list@), want);
        }
        self.entries = list;
    }

    /// Takes a key out of the map and gives back what it mapped to.
    pub fn remove(&mut self, key: &str) -> (r: Option<String>)
        ensures
            final(self)@ == old(self)@.remove(key@),
            match r {
                Some(v) => old(self)@.contains_key(key@) && v@ == old(self)@[key@],
                None => !old(self)@.contains_key(key@),
            },
    {
        proof {
            use_type_invariant(&*self);
            lemma_map_lists(self.entries@);
        }
        let (found, at): (bool, usize) = self.locate(key);
        if !found {
            assert(self@.remove(key@) =~= self@);
            return None;
        }
        let ghost before = self.entries@;
        let ghost want = self@.remove(key@);
        let mut list: Vec<(String, String)> = Vec::new();
        std::mem::swap(&mut list, &mut self.entries);
        let taken: (String, String) = list.remove(at);
        proof {
            let after = list@;
            assert forall|i: int, j: int| 0 <= i < j < after.len() implies text::text_before(
                #[trigger] after[i].0@,
                #[trigger] after[j].0@,
            ) by {
                let x = if i < at { i } else { i + 1 };
                let y = if j < at { j } else { j + 1 };
                assert(after[i] == before[x] && after[j] == before[y]);
            }
            assert forall|i: int| 0 <= i < after.len() implies want.contains_key(
                #[trigger] after[i].0@,
            ) && want[after[i].0@] == after[i].1@ by {
                let x = if i < at { i } else { i + 1 };
                assert(after[i] == before[x]);
                if before[x].0@ == key@ {
                    lemma_key_once(before, x, at as int);
                }
            }
            assert forall|k: Seq<char>| #[trigger] want.contains_key(k) implies exists|i: int|
                0 <= i < after.len() && #[trigger] after[i].0@ == k by {
                let i = choose|i: int| 0 <= i < before.len() && #[trigger] before[i].0@ == k;
                if i < at {
                    assert(after[i].0@ == k);
                } else {
                    assert(after[i - 1].0@ == k);
                }
            }
            lemma_map_lists(list@);
            lemma_lists_determine(list@, map_of(list@), want);
        }
        self.entries = list;
        Some(taken.1)
    }

    /// Whether the map has no entry.
    pub fn is_empty(&self) -> (r: bool)
        ensures
            r == (self@ == Map::<Seq<char>, Seq<char>>::empty()),
    {
        let r: bool = self.entries.len() == 0;
        proof {
            use_type_invariant(self);
            lemma_map_lists(self.entries@);
            if r {
                assert(self@ =~= Map::<Seq<char>, Seq<char>>::empty());
            } else {
                assert(self@.contains_key(self.entries@[0].0@));
            }
        }
        r
    }

    /// The entries in key order.
    pub fn entries(&self) -> (r: &Vec<(String, String)>)
        ensures
            lists(r@, self@),
    {
        proof {
            use_type_invariant(self);
            lemma_map_lists(self.entries@);
        }
        &self.entries
    }

    /// Adds every entry of another map; where both have a key, the other's text stands.
    pub fn extend(&mut self, other: &TextMap)
        ensures
            final(self)@ == old(self)@.union_prefer_right(other@),
    {
        let list: &Vec<(String, String)> = other.entries();
        let n: usize = list.len();
        let mut i: usize = 0;
        let ghost start = self@;
        while i < n
            invariant
                n == list@.len(),
                i <= n,
                lists(list@, other@),
                forall|k: Seq<char>| #[trigger]
                    self@.contains_key(k) <==> start.contains_key(k) || has_key(
                        list@.take(i as int),
                        k,
                    ),
                forall|k: Seq<char>| #[trigger]
                    self@.contains_key(k) ==> self@[k] == if has_key(list@.take(i as int), k) {
                        other@[k]
                    } else {
                        start[k]
                    },
            decreases n - i,
        {
            let ghost had = list@.take(i as int);
            let ghost has = list@.take(i + 1);
            let ghost key = list@[i as int].0@;
            proof {
                assert forall|k: Seq<char>| has_key(has, k) <==> has_key(had, k) || k == key by {
                    if has_key(had, k) {
                        let j = choose|j: int| 0 <= j < had.len() && #[trigger] had[j].0@ == k;
                        assert(has[j].0@ == k);
                    }
                    assert(has[i as int].0@ == key);
                    if has_key(has, k) && k != key {
                        let j = choose|j: int| 0 <= j < has.len() && #[trigger] has[j].0@ == k;
                        assert(had[j].0@ == k);
                    }
                }
            }
            self.insert(list[i].0.clone(), list[i].1.clone());
            i += 1;
        }
        proof {
            assert(list@.take(n as int) =~= list@);
            assert forall|k: Seq<char>| has_key(list@, k) == other@.contains_key(k) by {
                if has_key(list@, k) {
                    let j = choose|j: int| 0 <= j < list@.len() && #[trigger] list@[j].0@ == k;
                    assert(other@.contains_key(list@[j].0@));
                }
            }
            assert(self@ =~= start.union_prefer_right(other@));
        }
    }

    /// Adds every entry of another map whose key is not there yet.
    pub fn extend_missing(&mut self, other: &TextMap)
        ensures
            final(self)@ == other@.union_prefer_right(old(self)@),
    {
        let mut merged: TextMap = TextMap::new();
        merged.extend(other);
        assert(merged@ =~= other@);
        merged.extend(self);
        *self = merged;
    }
}

} // verus!
