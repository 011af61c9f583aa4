//! A small map from strings to strings, keyed by the strings' characters.

use vstd::prelude::*;

verus! {

/// The map described by a list of (key, value) pairs; a later pair for a key wins.
pub open spec fn pairs_map(s: Seq<(Seq<char>, Seq<char>)>) -> Map<Seq<char>, Seq<char>>
    decreases s.len(),
{
    if s.len() == 0 {
        Map::empty()
    } else {
        pairs_map(s.drop_last()).insert(s.last().0, s.last().1)
    }
}

/// The views of a list of string pairs.
pub open spec fn pairs_view(s: Seq<(String, String)>) -> Seq<(Seq<char>, Seq<char>)> {
    s.map_values(|p: (String, String)| (p.0@, p.1@))
}

/// No key occurs twice in the list.
pub open spec fn keys_distinct(s: Seq<(Seq<char>, Seq<char>)>) -> bool {
    forall|i: int, j: int| 0 <= i < j < s.len() ==> s[i].0 != s[j].0
}

/// What `pairs_map` contains, entry by entry, for a list without repeated keys.
proof fn lemma_pairs_map(s: Seq<(Seq<char>, Seq<char>)>)
    requires
        keys_distinct(s),
    ensures
        forall|k: Seq<char>| #[trigger] pairs_map(s).contains_key(k) <==> exists|i: int| 0 <= i < s.len() && s[i].0 == k,
        forall|i: int| 0 <= i < s.len() ==> #[trigger] pairs_map(s)[s[i].0] == s[i].1,
    decreases s.len(),
{
    if s.len() > 0 {
        let t = s.drop_last();
        assert(keys_distinct(t));
        lemma_pairs_map(t);
        assert(pairs_map(s) == pairs_map(t).insert(s.last().0, s.last().1));
        assert forall|k: Seq<char>| #[trigger] pairs_map(s).contains_key(k) <==> exists|i: int| 0 <= i < s.len() && s[i].0 == k by {
            if pairs_map(s).contains_key(k) {
                if k == s.last().0 {
                    assert(s[s.len() - 1].0 == k);
                } else {
                    assert(pairs_map(t).contains_key(k));
                    let i = choose|i: int| 0 <= i < t.len() && t[i].0 == k;
                    assert(s[i].0 == k);
                }
            }
            if exists|i: int| 0 <= i < s.len() && s[i].0 == k {
                let i = choose|i: int| 0 <= i < s.len() && s[i].0 == k;
                if i < s.len() - 1 {
                    assert(t[i].0 == k);
                    assert(pairs_map(t).contains_key(k));
                }
            }
        }
        assert forall|i: int| 0 <= i < s.len() implies #[trigger] pairs_map(s)[s[i].0] == s[i].1 by {
            if i < s.len() - 1 {
                assert(t[i] == s[i]);
                assert(s[i].0 != s[s.len() - 1].0);
                assert(pairs_map(t)[t[i].0] == t[i].1);
            }
        }
    }
}

/// A map from strings to strings that keeps its entries in the order they were first added.
///
/// It is a list of pairs with distinct keys rather than a `BTreeMap<String, String>`: vstd's
/// contracts for that map hold only for a key type whose comparison is known to follow its
/// specification, which is not known of `String`, so not even the size of such a map after one
/// insert can be proved.
pub struct StringMap {
    entries: Vec<(String, String)>,
}

impl View for StringMap {
    type V = Map<Seq<char>, Seq<char>>;

    closed spec fn view(&self) -> Map<Seq<char>, Seq<char>> {
        pairs_map(pairs_view(self.entries@))
    }
}

impl StringMap {
    /// No key is stored twice.
    #[verifier::type_invariant]
    closed spec fn well_formed(self) -> bool {
        keys_distinct(pairs_view(self.entries@))
    }

    /// An empty map.
    pub fn new() -> (m: Self)
        ensures
            m@ == Map::<Seq<char>, Seq<char>>::empty(),
    {
        let m = StringMap { entries: Vec::new() };
        assert(pairs_view(m.entries@) =~= Seq::empty());
        m
    }

    /// The number of keys.
    pub fn len(&self) -> (n: usize)
        ensures
            n == self@.len(),
    {
        proof {
            use_type_invariant(self);
            self.lemma_dom();
        }
        self.entries.len()
    }

    /// The domain of the map is the set of stored keys, and its size is the number of entries.
    proof fn lemma_dom(&self)
        requires
            keys_distinct(pairs_view(self.entries@)),
        ensures
            self@.dom() == pairs_view(self.entries@).map_values(|p: (Seq<char>, Seq<char>)| p.0).to_set(),
            self@.dom().finite(),
            self@.len() == self.entries@.len(),
    {
        let s = pairs_view(self.entries@);
        lemma_pairs_map(s);
        let ks = s.map_values(|p: (Seq<char>, Seq<char>)| p.0);
        assert forall|k: Seq<char>| self@.dom().contains(k) <==> ks.to_set().contains(k) by {
            if self@.dom().contains(k) {
                let i = choose|i: int| 0 <= i < s.len() && s[i].0 == k;
                assert(ks[i] == k);
            }
            if ks.to_set().contains(k) {
                let i = choose|i: int| 0 <= i < ks.len() && ks[i] == k;
                assert(s[i].0 == k);
            }
        }
        assert(self@.dom() =~= ks.to_set());
        assert(ks.no_duplicates());
        ks.unique_seq_to_set();
    }

    /// The position of `key` among the entries, if it is stored.
    fn position(&self, key: &str) -> (r: Option<usize>)
        ensures
            match r {
                Some(i) => i < self.entries.len() && self.entries@[i as int].0@ == key@,
                None => forall|i: int| 0 <= i < self.entries.len() ==> self.entries@[i].0@ != key@,
            },
    {
        let k = key.to_owned();
        let mut i: usize = 0;
        while i < self.entries.len()
            invariant
                i <= self.entries.len(),
                k@ == key@,
                forall|j: int| 0 <= j < i ==> self.entries@[j].0@ != key@,
            decreases self.entries.len() - i,
        {
            if self.entries[i].0 == k {
                return Some(i);
            }
            i = i + 1;
        }
        None
    }

    /// The value stored under `key`.
    pub fn get(&self, key: &str) -> (r: Option<&String>)
        ensures
            match r {
                Some(v) => self@.contains_key(key@) && v@ == self@[key@],
                None => !self@.contains_key(key@),
            },
    {
        proof {
            use_type_invariant(self);
            lemma_pairs_map(pairs_view(self.entries@));
        }
        match self.position(key) {
            Some(i) => {
                assert(pairs_view(self.entries@)[i as int].0 == key@);
                Some(&self.entries[i].1)
            },
            None => {
                assert forall|i: int| 0 <= i < pairs_view(self.entries@).len() implies pairs_view(self.entries@)[i].0 != key@ by {
                    assert(pairs_view(self.entries@)[i].0 == self.entries@[i].0@);
                }
                None
            },
        }
    }

    /// Whether the value stored under `key` is exactly `"true"`.
    pub fn is_true(&self, key: &str) -> (r: bool)
        ensures
            r == (self@.contains_key(key@) && self@[key@] == "true"@),
    {
        match self.get(key) {
            Some(v) => crate::text::str_eq(v.as_str(), "true"),
            None => false,
        }
    }

    /// Stores `value` under `key`, replacing any value stored there before.
    pub fn insert(&mut self, key: String, value: String)
        ensures
            final(self)@ == old(self)@.insert(key@, value@),
    {
        proof {
            use_type_invariant(&*self);
        }
        let ghost old_s = pairs_view(self.entries@);
        match self.position(key.as_str()) {
            Some(i) => {
                let mut entries: Vec<(String, String)> = Vec::new();
                std::mem::swap(&mut entries, &mut self.entries);
                let ghost e0 = entries@;
                entries.set(i, (key, value));
                proof {
                    let new_s = pairs_view(entries@);
                    assert(new_s =~= old_s.update(i as int, (key@, value@)));
                    assert forall|x: int| 0 <= x < new_s.len() implies #[trigger] new_s[x].0 == old_s[x].0 by {}
                    assert(keys_distinct(new_s));
                    lemma_pairs_map(old_s);
                    lemma_pairs_map(new_s);
                    assert(pairs_map(new_s) =~= pairs_map(old_s).insert(key@, value@)) by {
                        assert forall|k: Seq<char>| pairs_map(new_s).contains_key(k) <==> pairs_map(old_s).insert(key@, value@).contains_key(k) by {
                            if pairs_map(new_s).contains_key(k) {
                                let j = choose|j: int| 0 <= j < new_s.len() && new_s[j].0 == k;
                                if j != i {
                                    assert(old_s[j].0 == k);
                                }
                            }
                            if pairs_map(old_s).contains_key(k) {
                                let j = choose|j: int| 0 <= j < old_s.len() && old_s[j].0 == k;
                                assert(new_s[j].0 == k);
                            }
                            if k == key@ {
                                assert(new_s[i as int].0 == k);
                            }
                        }
                        assert forall|k: Seq<char>| pairs_map(new_s).contains_key(k) implies pairs_map(new_s)[k] == pairs_map(old_s).insert(key@, value@)[k] by {
                            let j = choose|j: int| 0 <= j < new_s.len() && new_s[j].0 == k;
                            assert(pairs_map(new_s)[new_s[j].0] == new_s[j].1);
                            if j != i {
                                assert(old_s[j] == new_s[j]);
                                assert(pairs_map(old_s)[old_s[j].0] == old_s[j].1);
                                assert(old_s[i as int].0 != old_s[j].0);
                            }
                        }
                    }
                }
                self.entries = entries;
            },
            None => {
                let mut entries: Vec<(String, String)> = Vec::new();
                std::mem::swap(&mut entries, &mut self.entries);
                entries.push((key, value));
                proof {
                    let new_s = pairs_view(entries@);
                    assert(new_s =~= old_s.push((key@, value@)));
                    assert(new_s.drop_last() =~= old_s);
                    assert(keys_distinct(new_s));
                }
                self.entries = entries;
            },
        }
    }

    /// The map holding the given pairs; for a repeated key, the last pair wins.
    pub fn from_pairs(pairs: Vec<(String, String)>) -> (m: Self)
        ensures
            m@ == pairs_map(pairs_view(pairs@)),
    {
        let mut m = StringMap::new();
        assert(pairs_view(pairs@).take(0) =~= Seq::empty());
        for p in iter: pairs.into_iter()
            invariant
                iter.seq() == pairs@,
                m@ == pairs_map(pairs_view(pairs@).take(iter.index() as int)),
        {
            m.insert(p.0, p.1);
            proof {
                let s = pairs_view(pairs@);
                let k = iter.index() as int;
                assert(s.take(k + 1).drop_last() =~= s.take(k));
            }
        }
        assert(pairs_view(pairs@).take(pairs@.len() as int) =~= pairs_view(pairs@));
        m
    }
}

} // verus!
