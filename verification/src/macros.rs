//! The table of text macros: a map from the word typed to the text that takes
//! its place, kept in the order of its keys.
use crate::text::{
    before, chars_of, lemma_before_irreflexive, lemma_before_transitive, rank, Rank,
};
use vstd::prelude::*;

verus! {

/// A listing of a table: pairs of key and value.
pub type Listing = Seq<(Seq<char>, Seq<char>)>;

/// The keys of the listing grow strictly from each entry to the next.
pub open spec fn sorted(s: Listing) -> bool {
    forall|i: int, j: int| 0 <= i < j < s.len() ==> before(#[trigger] s[i].0, #[trigger] s[j].0)
}

/// Some entry of the listing has the key `k`.
pub open spec fn has_key(s: Listing, k: Seq<char>) -> bool {
    exists|i: int| 0 <= i < s.len() && (#[trigger] s[i]).0 == k
}

/// The index of an entry with the key `k`.
pub open spec fn index_of_key(s: Listing, k: Seq<char>) -> int {
    choose|i: int| 0 <= i < s.len() && (#[trigger] s[i]).0 == k
}

/// The map that a listing stands for.
pub open spec fn map_of(s: Listing) -> Map<Seq<char>, Seq<char>> {
    Map::new(|k: Seq<char>| has_key(s, k), |k: Seq<char>| s[index_of_key(s, k)].1)
}

/// The views of the entries of a table.
pub open spec fn pairs_of(entries: Seq<(String, String)>) -> Listing {
    Seq::new(entries.len(), |i: int| (entries[i].0@, entries[i].1@))
}

/// In a sorted listing the entry at `i` is the only one with its key, so the
/// map holds its value under that key.
pub proof fn lemma_map_holds(s: Listing, i: int)
    requires
        sorted(s),
        0 <= i < s.len(),
    ensures
        has_key(s, s[i].0),
        index_of_key(s, s[i].0) == i,
        map_of(s).contains_key(s[i].0),
        map_of(s)[s[i].0] == s[i].1,
{
    let k = s[i].0;
    assert(has_key(s, k));
    let j = index_of_key(s, k);
    lemma_before_irreflexive(k);
    if j < i {
        assert(before(s[j].0, s[i].0));
    } else if i < j {
        assert(before(s[i].0, s[j].0));
    }
}

/// A key that falls between the entries before `p` and the entry at `p` is
/// not in the listing.
pub proof fn lemma_map_lacks(s: Listing, k: Seq<char>, p: int)
    requires
        sorted(s),
        0 <= p <= s.len(),
        forall|i: int| 0 <= i < p ==> before(#[trigger] s[i].0, k),
        p == s.len() || before(k, s[p].0),
    ensures
        !has_key(s, k),
        !map_of(s).contains_key(k),
{
    lemma_before_irreflexive(k);
    assert forall|i: int| 0 <= i < s.len() implies (#[trigger] s[i]).0 != k by {
        if i < p {
            assert(before(s[i].0, k));
        } else if i == p {
        } else {
            assert(before(s[p].0, s[i].0));
            if s[i].0 == k {
                lemma_before_transitive(k, s[p].0, k);
            }
        }
    }
}

/// Putting a new key at its place keeps the listing sorted and adds the entry
/// to the map.
pub proof fn lemma_insert(s: Listing, p: int, k: Seq<char>, v: Seq<char>)
    requires
        sorted(s),
        0 <= p <= s.len(),
        forall|i: int| 0 <= i < p ==> before(#[trigger] s[i].0, k),
        p == s.len() || before(k, s[p].0),
    ensures
        sorted(s.insert(p, (k, v))),
        map_of(s.insert(p, (k, v))) == map_of(s).insert(k, v),
{
    let t = s.insert(p, (k, v));
    assert forall|i: int, j: int| 0 <= i < j < t.len() implies before(
        #[trigger] t[i].0,
        #[trigger] t[j].0,
    ) by {
        if j < p {
            assert(before(s[i].0, s[j].0));
        } else if j == p {
            assert(before(s[i].0, k));
        } else if i < p {
            assert(before(s[i].0, s[j - 1].0));
        } else if i == p {
            if j - 1 > p {
                assert(before(s[p].0, s[j - 1].0));
                lemma_before_transitive(k, s[p].0, s[j - 1].0);
            }
        } else {
            assert(before(s[i - 1].0, s[j - 1].0));
        }
    }
    lemma_map_lacks(s, k, p);
    assert forall|key: Seq<char>| #[trigger]
        map_of(t).contains_key(key) == map_of(s).insert(k, v).contains_key(key) by {
        if has_key(t, key) {
            let i = index_of_key(t, key);
            if i < p {
                assert(s[i].0 == key);
            } else if i > p {
                assert(s[i - 1].0 == key);
            }
        }
        if key == k {
            assert(t[p].0 == key);
        } else if has_key(s, key) {
            let i = index_of_key(s, key);
            if i < p {
                assert(t[i].0 == key);
            } else {
                assert(t[i + 1].0 == key);
            }
        }
    }
    assert forall|key: Seq<char>| #[trigger] map_of(t).contains_key(key) implies map_of(t)[key]
        == map_of(s).insert(k, v)[key] by {
        let i = index_of_key(t, key);
        lemma_map_holds(t, i);
        if i < p {
            lemma_map_holds(s, i);
        } else if i > p {
            lemma_map_holds(s, i - 1);
        }
    }
    assert(map_of(t) =~= map_of(s).insert(k, v));
}

/// Giving the entry at `p` a new value keeps the listing sorted and changes
/// the map at that key only.
pub proof fn lemma_update(s: Listing, p: int, v: Seq<char>)
    requires
        sorted(s),
        0 <= p < s.len(),
    ensures
        sorted(s.update(p, (s[p].0, v))),
        map_of(s.update(p, (s[p].0, v))) == map_of(s).insert(s[p].0, v),
{
    let k = s[p].0;
    let t = s.update(p, (k, v));
    assert forall|i: int, j: int| 0 <= i < j < t.len() implies before(
        #[trigger] t[i].0,
        #[trigger] t[j].0,
    ) by {
        assert(before(s[i].0, s[j].0));
    }
    assert forall|key: Seq<char>| #[trigger]
        map_of(t).contains_key(key) == map_of(s).insert(k, v).contains_key(key) by {
        if has_key(t, key) {
            let i = index_of_key(t, key);
            assert(s[i].0 == key);
        }
        if has_key(s, key) {
            let i = index_of_key(s, key);
            assert(t[i].0 == key);
        }
        if key == k {
            assert(t[p].0 == key);
        }
    }
    assert forall|key: Seq<char>| #[trigger] map_of(t).contains_key(key) implies map_of(t)[key]
        == map_of(s).insert(k, v)[key] by {
        let i = index_of_key(t, key);
        lemma_map_holds(t, i);
        lemma_map_holds(s, i);
        lemma_before_irreflexive(k);
        if i < p {
            assert(before(s[i].0, s[p].0));
        } else if p < i {
            assert(before(s[p].0, s[i].0));
        }
    }
    assert(map_of(t) =~= map_of(s).insert(k, v));
}

/// Taking the entry at `p` out keeps the listing sorted and takes its key out
/// of the map.
pub proof fn lemma_remove(s: Listing, p: int)
    requires
        sorted(s),
        0 <= p < s.len(),
    ensures
        sorted(s.remove(p)),
        map_of(s.remove(p)) == map_of(s).remove(s[p].0),
{
    let k = s[p].0;
    let t = s.remove(p);
    assert forall|i: int, j: int| 0 <= i < j < t.len() implies before(
        #[trigger] t[i].0,
        #[trigger] t[j].0,
    ) by {
        let a = if i < p {
            i
        } else {
            i + 1
        };
        let b = if j < p {
            j
        } else {
            j + 1
        };
        assert(before(s[a].0, s[b].0));
    }
    lemma_before_irreflexive(k);
    assert forall|key: Seq<char>| #[trigger]
        map_of(t).contains_key(key) == map_of(s).remove(k).contains_key(key) by {
        if has_key(t, key) {
            let i = index_of_key(t, key);
            let a = if i < p {
                i
            } else {
                i + 1
            };
            assert(s[a].0 == key);
            if a < p {
                assert(before(s[a].0, s[p].0));
            } else {
                assert(before(s[p].0, s[a].0));
            }
        }
        if has_key(s, key) && key != k {
            let i = index_of_key(s, key);
            if i < p {
                assert(t[i].0 == key);
            } else {
                assert(t[i - 1].0 == key);
            }
        }
    }
    assert forall|key: Seq<char>| #[trigger] map_of(t).contains_key(key) implies map_of(t)[key]
        == map_of(s).remove(k)[key] by {
        let i = index_of_key(t, key);
        lemma_map_holds(t, i);
        if i < p {
            lemma_map_holds(s, i);
        } else {
            lemma_map_holds(s, i + 1);
        }
    }
    assert(map_of(t) =~= map_of(s).remove(k));
}

/// A table of macros. No key occurs twice, and the entries are kept in the
/// order of their keys.
pub struct MacroTable {
    entries: Vec<(String, String)>,
}

impl View for MacroTable {
    type V = Map<Seq<char>, Seq<char>>;

    closed spec fn view(&self) -> Map<Seq<char>, Seq<char>> {
        map_of(pairs_of(self.entries@))
    }
}

impl MacroTable {
    #[verifier::type_invariant]
    spec fn well_formed(self) -> bool {
        sorted(pairs_of(self.entries@))
    }

    /// The entries of the table in the order of their keys.
    pub closed spec fn listing(&self) -> Listing {
        pairs_of(self.entries@)
    }

    /// The empty table.
    pub fn new() -> (r: MacroTable)
        ensures
            r@ == Map::<Seq<char>, Seq<char>>::empty(),
            r.listing() == Seq::<(Seq<char>, Seq<char>)>::empty(),
    {
        let r = MacroTable { entries: Vec::new() };
        proof {
            assert(r.listing() =~= Seq::<(Seq<char>, Seq<char>)>::empty());
            assert(r@ =~= Map::<Seq<char>, Seq<char>>::empty());
        }
        r
    }

    /// The number of entries.
    pub fn len(&self) -> (r: usize)
        ensures
            r == self.listing().len(),
    {
        self.entries.len()
    }

    /// The entries in the order of their keys. The listing is sorted, and the
    /// table maps the key of each entry to its value and holds no other key.
    pub fn entries(&self) -> (r: &Vec<(String, String)>)
        ensures
            pairs_of(r@) == self.listing(),
            sorted(self.listing()),
            self@ == map_of(self.listing()),
    {
        proof {
            use_type_invariant(self);
        }
        &self.entries
    }

    /// Where `key` stands or would stand among the entries, and whether it is
    /// there.
    fn locate(&self, key: &Vec<char>) -> (r: (usize, bool))
        ensures
            r.0 <= self.listing().len(),
            forall|i: int| 0 <= i < r.0 ==> before(#[trigger] self.listing()[i].0, key@),
            r.1 ==> r.0 < self.listing().len() && self.listing()[r.0 as int].0 == key@,
            !r.1 ==> r.0 == self.listing().len() || before(key@, self.listing()[r.0 as int].0),
    {
        let mut i: usize = 0;
        while i < self.entries.len()
            invariant
                i <= self.entries@.len(),
                forall|k: int| 0 <= k < i ==> before(#[trigger] self.listing()[k].0, key@),
            decreases self.entries.len() - i,
        {
            let here = chars_of(self.entries[i].0.as_str());
            match rank(key, &here) {
                Rank::Before => {
                    return (i, false);
                },
                Rank::Same => {
                    return (i, true);
                },
                Rank::After => {},
            }
            i += 1;
        }
        (i, false)
    }

    /// The text that stands for `key`, if the table has it.
    pub fn get(&self, key: &str) -> (r: Option<&String>)
        ensures
            match r {
                Some(v) => self@.contains_key(key@) && self@[key@] == v@,
                None => !self@.contains_key(key@),
            },
    {
        let chars = chars_of(key);
        let (p, found) = self.locate(&chars);
        proof {
            use_type_invariant(self);
            if found {
                lemma_map_holds(self.listing(), p as int);
            } else {
                lemma_map_lacks(self.listing(), key@, p as int);
            }
        }
        if found {
            Some(&self.entries[p].1)
        } else {
            None
        }
    }

    /// Whether the table has `key`.
    pub fn contains_key(&self, key: &str) -> (r: bool)
        ensures
            r == self@.contains_key(key@),
    {
        self.get(key).is_some()
    }

    /// Makes `from` stand for `to`, in place of what it stood for before.
    pub fn insert(&mut self, from: String, to: String)
        ensures
            final(self)@ == old(self)@.insert(from@, to@),
    {
        let chars = chars_of(from.as_str());
        let (p, found) = self.locate(&chars);
        proof {
            use_type_invariant(&*self);
            let s = self.listing();
            if found {
                lemma_update(s, p as int, to@);
                assert(pairs_of(self.entries@.update(p as int, (from, to))) =~= s.update(
                    p as int,
                    (from@, to@),
                ));
            } else {
                lemma_insert(s, p as int, from@, to@);
                assert(pairs_of(self.entries@.insert(p as int, (from, to))) =~= s.insert(
                    p as int,
                    (from@, to@),
                ));
            }
        }
        let mut entries: Vec<(String, String)> = Vec::new();
        core::mem::swap(&mut entries, &mut self.entries);
        if found {
            entries.set(p, (from, to));
        } else {
            entries.insert(p, (from, to));
        }
        self.entries = entries;
    }

    /// Takes `from` out of the table, if it is there.
    pub fn remove(&mut self, from: &str)
        ensures
            final(self)@ == old(self)@.remove(from@),
    {
        let chars = chars_of(from);
        let (p, found) = self.locate(&chars);
        proof {
            use_type_invariant(&*self);
            let s = self.listing();
            if found {
                lemma_remove(s, p as int);
                assert(pairs_of(self.entries@.remove(p as int)) =~= s.remove(p as int));
            } else {
                lemma_map_lacks(s, from@, p as int);
                assert(self@.remove(from@) =~= self@);
            }
        }
        if found {
            let mut entries: Vec<(String, String)> = Vec::new();
            core::mem::swap(&mut entries, &mut self.entries);
            entries.remove(p);
            self.entries = entries;
        }
    }

    /// A copy of the table.
    pub fn clone(&self) -> (r: MacroTable)
        ensures
            r@ == self@,
            r.listing() == self.listing(),
    {
        let mut entries: Vec<(String, String)> = Vec::new();
        let mut i: usize = 0;
        while i < self.entries.len()
            invariant
                i <= self.entries@.len(),
                entries@.len() == i,
                pairs_of(entries@) == pairs_of(self.entries@).subrange(0, i as int),
            decreases self.entries.len() - i,
        {
            let k = self.entries[i].0.clone();
            let v = self.entries[i].1.clone();
            let ghost before_push = entries@;
            entries.push((k, v));
            i += 1;
            proof {
                assert forall|j: int| 0 <= j < i implies pairs_of(entries@)[j] == pairs_of(
                    self.entries@,
                ).subrange(0, i as int)[j] by {
                    if j < i - 1 {
                        assert(entries@[j] == before_push[j]);
                        assert(pairs_of(before_push)[j] == pairs_of(self.entries@).subrange(
                            0,
                            i - 1,
                        )[j]);
                    }
                }
                assert(pairs_of(entries@) =~= pairs_of(self.entries@).subrange(0, i as int));
            }
        }
        proof {
            use_type_invariant(self);
            assert(pairs_of(self.entries@).subrange(0, i as int) =~= pairs_of(self.entries@));
        }
        MacroTable { entries }
    }
}

} // verus!
