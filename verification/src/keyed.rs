//! A map from text keys to values, kept as a list of entries in the order
//! in which keys were first stored. Each key occurs once; storing under a
//! key that is present replaces its value in place.
use vstd::prelude::*;
use crate::text;

verus! {

/// The map that a list of entries describes: a later entry for a key
/// overrides an earlier one.
pub open spec fn map_of<V>(s: Seq<(String, V)>) -> Map<Seq<char>, V>
    decreases s.len(),
{
    if s.len() == 0 {
        Map::empty()
    } else {
        map_of(s.drop_last()).insert(s.last().0@, s.last().1)
    }
}

/// No key occurs twice.
pub open spec fn keys_unique<V>(s: Seq<(String, V)>) -> bool {
    forall|i: int, j: int| 0 <= i < j < s.len() ==> s[i].0@ != s[j].0@
}

pub proof fn lemma_map_of_dom<V>(s: Seq<(String, V)>, k: Seq<char>)
    ensures
        map_of(s).contains_key(k) <==> exists|i: int| 0 <= i < s.len() && #[trigger] s[i].0@ == k,
    decreases s.len(),
{
    if s.len() > 0 {
        lemma_map_of_dom(s.drop_last(), k);
        if map_of(s.drop_last()).contains_key(k) {
            let i = choose|i: int| 0 <= i < s.drop_last().len() && #[trigger] s.drop_last()[i].0@ == k;
            assert(s[i].0@ == k);
        }
        if exists|i: int| 0 <= i < s.len() && #[trigger] s[i].0@ == k {
            let i = choose|i: int| 0 <= i < s.len() && #[trigger] s[i].0@ == k;
            if i < s.len() - 1 {
                assert(s.drop_last()[i].0@ == k);
            }
        }
    }
}

pub proof fn lemma_map_of_at<V>(s: Seq<(String, V)>, i: int)
    requires
        keys_unique(s),
        0 <= i < s.len(),
    ensures
        map_of(s).contains_key(s[i].0@),
        map_of(s)[s[i].0@] == s[i].1,
    decreases s.len(),
{
    if i < s.len() - 1 {
        assert(keys_unique(s.drop_last()));
        lemma_map_of_at(s.drop_last(), i);
        assert(s.drop_last()[i] == s[i]);
        assert(s.last().0@ != s[i].0@);
    }
}

pub proof fn lemma_map_of_update<V>(s: Seq<(String, V)>, i: int, k: String, v: V)
    requires
        keys_unique(s),
        0 <= i < s.len(),
        s[i].0@ == k@,
    ensures
        map_of(s.update(i, (k, v))) == map_of(s).insert(k@, v),
        keys_unique(s.update(i, (k, v))),
    decreases s.len(),
{
    let t = s.update(i, (k, v));
    if i == s.len() - 1 {
        assert(t.drop_last() =~= s.drop_last());
        assert(map_of(s).insert(k@, v) =~= map_of(s.drop_last()).insert(k@, v));
    } else {
        assert(keys_unique(s.drop_last()));
        lemma_map_of_update(s.drop_last(), i, k, v);
        assert(t.drop_last() =~= s.drop_last().update(i, (k, v)));
        assert(s.last().0@ != k@);
        assert(map_of(t) =~= map_of(s).insert(k@, v));
    }
}

/// Entries with distinct keys describe a map holding exactly their keys,
/// each with its value.
pub proof fn lemma_entries<V>(s: Seq<(String, V)>)
    requires
        keys_unique(s),
    ensures
        forall|i: int| 0 <= i < s.len() ==> #[trigger] map_of(s).contains_key(s[i].0@)
            && map_of(s)[s[i].0@] == s[i].1,
        forall|k: Seq<char>| #[trigger] map_of(s).contains_key(k) <==>
            exists|i: int| 0 <= i < s.len() && #[trigger] s[i].0@ == k,
{
    assert forall|i: int| 0 <= i < s.len() implies #[trigger] map_of(s).contains_key(s[i].0@)
        && map_of(s)[s[i].0@] == s[i].1 by {
        lemma_map_of_at(s, i);
    }
    assert forall|k: Seq<char>| #[trigger] map_of(s).contains_key(k) <==>
        exists|i: int| 0 <= i < s.len() && #[trigger] s[i].0@ == k by {
        lemma_map_of_dom(s, k);
    }
}

/// Reading a key gives back what was last stored under it, and storing under
/// one key leaves every other key as it was (`Keyed::insert` changes the map
/// by `Map::insert`).
pub proof fn read_after_write<V>(before: Map<Seq<char>, V>, key: Seq<char>, value: V, other: Seq<char>)
    ensures
        before.insert(key, value).contains_key(key),
        before.insert(key, value)[key] == value,
        other != key ==> before.insert(key, value).contains_key(other) == before.contains_key(other),
        other != key && before.contains_key(other) ==> before.insert(key, value)[other] == before[other],
{
}

/// A map from text keys to values.
pub struct Keyed<V> {
    entries: Vec<(String, V)>,
}

impl<V> Keyed<V> {
    /// The entries, in the order in which their keys were first stored.
    pub closed spec fn pairs(&self) -> Seq<(String, V)> {
        self.entries@
    }

    #[verifier::type_invariant]
    closed spec fn keys_once(&self) -> bool {
        keys_unique(self.entries@)
    }

    /// The map from keys to values.
    pub open spec fn view(&self) -> Map<Seq<char>, V> {
        map_of(self.pairs())
    }

    /// An empty map.
    pub fn new() -> (r: Self)
        ensures
            r.view() == Map::<Seq<char>, V>::empty(),
            r.pairs().len() == 0,
    {
        Keyed { entries: Vec::new() }
    }

    /// The number of keys.
    pub fn len(&self) -> (n: usize)
        ensures
            n == self.pairs().len(),
    {
        self.entries.len()
    }

    /// The entries, in the order in which their keys were first stored.
    pub fn entries(&self) -> (r: &Vec<(String, V)>)
        ensures
            r@ == self.pairs(),
            keys_unique(self.pairs()),
    {
        proof {
            use_type_invariant(self);
        }
        &self.entries
    }

    /// The position of `key` among the entries.
    pub fn position(&self, key: &str) -> (r: Option<usize>)
        ensures
            match r {
                Some(i) => i < self.pairs().len() && self.pairs()[i as int].0@ == key@
                    && self.view().contains_key(key@) && self.view()[key@] == self.pairs()[i as int].1,
                None => !self.view().contains_key(key@),
            },
    {
        proof {
            use_type_invariant(self);
            lemma_entries(self.entries@);
        }
        let mut i: usize = 0;
        while i < self.entries.len()
            invariant
                i <= self.entries.len(),
                self.entries@ == self.pairs(),
                keys_unique(self.entries@),
                forall|j: int| 0 <= j < i ==> #[trigger] self.pairs()[j].0@ != key@,
            decreases self.entries.len() - i,
        {
            if text::str_eq(self.entries[i].0.as_str(), key) {
                proof {
                    lemma_map_of_at(self.entries@, i as int);
                }
                return Some(i);
            }
            i = i + 1;
        }
        None
    }

    /// The value stored under `key`, if any.
    pub fn get(&self, key: &str) -> (r: Option<&V>)
        ensures
            match r {
                Some(v) => self.view().contains_key(key@) && *v == self.view()[key@],
                None => !self.view().contains_key(key@),
            },
    {
        proof {
            use_type_invariant(self);
            lemma_entries(self.entries@);
        }
        match self.position(key) {
            Some(i) => {
                assert(self.view() == map_of(self.entries@));
                assert(map_of(self.entries@).contains_key(self.entries@[i as int].0@));
                Some(&self.entries[i].1)
            },
            None => None,
        }
    }

    /// Whether a value is stored under `key`.
    pub fn contains_key(&self, key: &str) -> (b: bool)
        ensures
            b == self.view().contains_key(key@),
    {
        self.position(key).is_some()
    }

    /// Store `value` under `key`, replacing what was stored there; a new key
    /// comes after the keys already present.
    pub fn insert(&mut self, key: String, value: V)
        ensures
            final(self).view() == old(self).view().insert(key@, value),
            old(self).view().contains_key(key@) ==> final(self).pairs().len() == old(self).pairs().len(),
            !old(self).view().contains_key(key@) ==> final(self).pairs() == old(self).pairs().push((key, value)),
    {
        proof {
            use_type_invariant(&*self);
            lemma_entries(self.entries@);
        }
        let found = self.position(key.as_str());
        let ghost s = self.entries@;
        let mut entries: Vec<(String, V)> = Vec::new();
        std::mem::swap(&mut entries, &mut self.entries);
        assert(entries@ == s);
        match found {
            Some(i) => {
                proof {
                    lemma_map_of_update(s, i as int, key, value);
                }
                let _ = entries.remove(i);
                entries.insert(i, (key, value));
                assert(entries@ =~= s.update(i as int, (key, value)));
                assert(map_of(entries@) == map_of(s).insert(key@, value));
            },
            None => {
                proof {
                    assert forall|j: int| 0 <= j < s.len() implies s[j].0@ != key@ by {
                        if s[j].0@ == key@ {
                            assert(map_of(s).contains_key(s[j].0@));
                        }
                    }
                }
                entries.push((key, value));
                assert(entries@ =~= s.push((key, value)));
                assert(entries@.drop_last() =~= s);
                assert(map_of(entries@) == map_of(s).insert(key@, value));
            },
        }
        self.entries = entries;
    }

    /// Replace the value of the `i`-th entry, keeping its key; returns the
    /// value it held.
    pub fn replace_value_at(&mut self, i: usize, value: V) -> (prev: V)
        requires
            i < old(self).pairs().len(),
        ensures
            prev == old(self).pairs()[i as int].1,
            final(self).pairs() == old(self).pairs().update(i as int, (old(self).pairs()[i as int].0, value)),
            final(self).view() == old(self).view().insert(old(self).pairs()[i as int].0@, value),
    {
        proof {
            use_type_invariant(&*self);
        }
        let ghost s = self.entries@;
        let mut entries: Vec<(String, V)> = Vec::new();
        std::mem::swap(&mut entries, &mut self.entries);
        assert(entries@ == s);
        let (key, prev) = entries.remove(i);
        proof {
            lemma_map_of_update(s, i as int, key, value);
        }
        entries.insert(i, (key, value));
        assert(entries@ =~= s.update(i as int, (key, value)));
        self.entries = entries;
        prev
    }

    /// Replace the value of the `i`-th entry, keeping its key.
    pub fn set_value_at(&mut self, i: usize, value: V)
        requires
            i < old(self).pairs().len(),
        ensures
            final(self).pairs() == old(self).pairs().update(i as int, (old(self).pairs()[i as int].0, value)),
            final(self).view() == old(self).view().insert(old(self).pairs()[i as int].0@, value),
    {
        proof {
            use_type_invariant(&*self);
        }
        let ghost s = self.entries@;
        let mut entries: Vec<(String, V)> = Vec::new();
        std::mem::swap(&mut entries, &mut self.entries);
        assert(entries@ == s);
        let (key, _) = entries.remove(i);
        proof {
            lemma_map_of_update(s, i as int, key, value);
        }
        entries.insert(i, (key, value));
        assert(entries@ =~= s.update(i as int, (key, value)));
        self.entries = entries;
    }
}

} // verus!
