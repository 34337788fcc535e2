//! Small keyed collections of strings used by the game rules: a set of flag
//! names and a string-to-string map.

use vstd::prelude::*;

verus! {

broadcast use vstd::seq_lib::group_seq_properties;

/// The character sequences of a list of strings.
pub open spec fn ids(items: Seq<String>) -> Seq<Seq<char>> {
    items.map_values(|s: String| s@)
}

pub proof fn lemma_ids_push(items: Seq<String>, s: String)
    ensures
        ids(items.push(s)) == ids(items).push(s@),
{
    assert(ids(items.push(s)) =~= ids(items).push(s@));
}

/// Whether `s` is one of the strings of `items`, by content.
pub fn contains_str(items: &[String], s: &str) -> (r: bool)
    ensures
        r == ids(items@).contains(s@),
{
    let mut i: usize = 0;
    while i < items.len()
        invariant
            i <= items.len(),
            forall|j: int| 0 <= j < i ==> ids(items@)[j] != s@,
        decreases items.len() - i,
    {
        if items[i].as_str().eq(s) {
            assert(ids(items@)[i as int] == s@);
            return true;
        }
        i += 1;
    }
    false
}

/// A set of flag names.
pub struct FlagSet {
    pub flags: Vec<String>,
}

impl View for FlagSet {
    type V = Set<Seq<char>>;

    open spec fn view(&self) -> Set<Seq<char>> {
        Set::new(|f: Seq<char>| ids(self.flags@).contains(f))
    }
}

impl FlagSet {
    /// The empty set.
    pub fn new() -> (s: FlagSet)
        ensures
            s@ == Set::<Seq<char>>::empty(),
    {
        let s = FlagSet { flags: Vec::new() };
        assert(s@ =~= Set::<Seq<char>>::empty());
        s
    }

    pub fn contains(&self, flag: &str) -> (r: bool)
        ensures
            r == self@.contains(flag@),
    {
        contains_str(self.flags.as_slice(), flag)
    }

    /// Adds `flag`; a flag already present stays once.
    pub fn insert(&mut self, flag: String)
        ensures
            final(self)@ == old(self)@.insert(flag@),
    {
        if !contains_str(self.flags.as_slice(), flag.as_str()) {
            proof {
                lemma_ids_push(self.flags@, flag);
            }
            self.flags.push(flag);
        }
        assert(self@ =~= old(self)@.insert(flag@));
    }

    /// Removes `flag` if present.
    pub fn remove(&mut self, flag: &str)
        ensures
            final(self)@ == old(self)@.remove(flag@),
    {
        let mut kept: Vec<String> = Vec::new();
        let mut i: usize = 0;
        while i < self.flags.len()
            invariant
                i <= self.flags.len(),
                forall|x: Seq<char>|
                    ids(kept@).contains(x) <==> (x != flag@ && ids(self.flags@.take(i as int)).contains(x)),
            decreases self.flags.len() - i,
        {
            let f = self.flags[i].clone();
            proof {
                assert(self.flags@.take(i + 1) =~= self.flags@.take(i as int).push(self.flags@[i as int]));
                lemma_ids_push(self.flags@.take(i as int), self.flags@[i as int]);
            }
            if !f.as_str().eq(flag) {
                proof {
                    lemma_ids_push(kept@, f);
                }
                kept.push(f);
            }
            i += 1;
        }
        assert(self.flags@.take(self.flags.len() as int) =~= self.flags@);
        self.flags = kept;
        assert(self@ =~= old(self)@.remove(flag@));
    }
}

/// Looks up `key` in a list of key/value pairs; the pair added last wins.
pub open spec fn lookup<K, V>(entries: Seq<(K, V)>, key: K) -> Option<V>
    decreases entries.len(),
{
    if entries.len() == 0 {
        None
    } else if entries.last().0 == key {
        Some(entries.last().1)
    } else {
        lookup(entries.drop_last(), key)
    }
}

/// The pairs of a string map, by content.
pub open spec fn string_pairs(entries: Seq<(String, String)>) -> Seq<(Seq<char>, Seq<char>)> {
    entries.map_values(|p: (String, String)| (p.0@, p.1@))
}

/// A map from strings to strings, such as entity id to entity state.
pub struct StringMap {
    pub entries: Vec<(String, String)>,
}

impl StringMap {
    pub open spec fn spec_get(&self, key: Seq<char>) -> Option<Seq<char>> {
        lookup(string_pairs(self.entries@), key)
    }

    /// The empty map.
    pub fn new() -> (m: StringMap)
        ensures
            forall|k: Seq<char>| m.spec_get(k) is None,
    {
        StringMap { entries: Vec::new() }
    }

    /// Sets the value of `key`, replacing any earlier one.
    pub fn insert(&mut self, key: String, value: String)
        ensures
            final(self).spec_get(key@) == Some(value@),
            forall|k: Seq<char>| k != key@ ==> final(self).spec_get(k) == old(self).spec_get(k),
    {
        let ghost k0 = key@;
        let ghost v0 = value@;
        self.entries.push((key, value));
        proof {
            assert(string_pairs(self.entries@).drop_last() =~= string_pairs(old(self).entries@));
            assert(string_pairs(self.entries@).last() == (k0, v0));
        }
    }

    /// The value of `key`, if any.
    pub fn get(&self, key: &str) -> (r: Option<&String>)
        ensures
            match r {
                Some(v) => self.spec_get(key@) == Some(v@),
                None => self.spec_get(key@) is None,
            },
    {
        let mut i: usize = self.entries.len();
        assert(string_pairs(self.entries@).take(i as int) =~= string_pairs(self.entries@));
        while i > 0
            invariant
                i <= self.entries.len(),
                lookup(string_pairs(self.entries@), key@) == lookup(string_pairs(self.entries@).take(i as int), key@),
            decreases i,
        {
            let ghost s = string_pairs(self.entries@).take(i as int);
            assert(s.drop_last() =~= string_pairs(self.entries@).take(i - 1));
            if self.entries[i - 1].0.as_str().eq(key) {
                return Some(&self.entries[i - 1].1);
            }
            i -= 1;
        }
        None
    }
}

} // verus!
