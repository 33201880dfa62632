//! String metadata attached to schemas and to single columns.

use vstd::prelude::*;

verus! {

/// A map from text to text, kept as a list of entries in which no key occurs twice.
#[derive(Debug)]
pub struct Metadata {
    entries: Vec<(String, String)>,
}

/// The position of `key` among `entries`, whatever it is when the key does not occur.
spec fn entry_index(entries: Seq<(String, String)>, key: Seq<char>) -> int {
    choose|i: int| 0 <= i < entries.len() && #[trigger] entries[i].0@ == key
}

spec fn has_entry(entries: Seq<(String, String)>, key: Seq<char>) -> bool {
    exists|i: int| 0 <= i < entries.len() && #[trigger] entries[i].0@ == key
}

spec fn keys_distinct(entries: Seq<(String, String)>) -> bool {
    forall|i: int, j: int|
        0 <= i < j < entries.len() ==> #[trigger] entries[i].0@ != #[trigger] entries[j].0@
}

impl View for Metadata {
    type V = Map<Seq<char>, Seq<char>>;

    closed spec fn view(&self) -> Map<Seq<char>, Seq<char>> {
        Map::new(
            |key: Seq<char>| has_entry(self.entries@, key),
            |key: Seq<char>| self.entries@[entry_index(self.entries@, key)].1@,
        )
    }
}

impl Metadata {
    #[verifier::type_invariant]
    spec fn well_formed(self) -> bool {
        keys_distinct(self.entries@)
    }

    /// Metadata without any entry.
    pub fn new() -> (r: Metadata)
        ensures
            r@ == Map::<Seq<char>, Seq<char>>::empty(),
    {
        let r = Metadata { entries: Vec::new() };
        assert(r@ =~= Map::empty());
        r
    }

    fn find(&self, key: &String) -> (r: Option<usize>)
        ensures
            r matches Some(i) ==> i < self.entries@.len() && self.entries@[i as int].0@ == key@
                && self@.contains_key(key@) && self@[key@] == self.entries@[i as int].1@,
            r is None ==> !self@.contains_key(key@),
    {
        proof {
            use_type_invariant(self);
        }
        let mut i: usize = 0;
        while i < self.entries.len()
            invariant
                i <= self.entries@.len(),
                keys_distinct(self.entries@),
                forall|j: int| 0 <= j < i ==> #[trigger] self.entries@[j].0@ != key@,
            decreases self.entries@.len() - i,
        {
            if self.entries[i].0 == *key {
                assert(has_entry(self.entries@, key@));
                assert(entry_index(self.entries@, key@) == i);
                return Some(i);
            }
            i += 1;
        }
        None
    }

    /// Every key with its value, each once.
    pub fn entries(&self) -> (r: &Vec<(String, String)>)
        ensures
            forall|i: int, j: int|
                0 <= i < j < r@.len() ==> (#[trigger] r@[i]).0@ != (#[trigger] r@[j]).0@,
            forall|i: int|
                0 <= i < r@.len() ==> self@.contains_key((#[trigger] r@[i]).0@)
                    && self@[r@[i].0@] == r@[i].1@,
            forall|key: Seq<char>| #[trigger]
                self@.contains_key(key) ==> exists|i: int|
                    0 <= i < r@.len() && (#[trigger] r@[i]).0@ == key,
    {
        proof {
            use_type_invariant(self);
            lemma_view_points(self.entries@, *self);
            assert forall|key: Seq<char>| #[trigger] self@.contains_key(key) implies exists|i: int|
                0 <= i < self.entries@.len() && (#[trigger] self.entries@[i]).0@ == key by {
                let i = entry_index(self.entries@, key);
                assert(self.entries@[i].0@ == key);
            }
        }
        &self.entries
    }

    /// The value stored under `key`.
    pub fn get(&self, key: &str) -> (r: Option<&String>)
        ensures
            r is Some <==> self@.contains_key(key@),
            r matches Some(value) ==> value@ == self@[key@],
    {
        match self.find(&key.to_string()) {
            Some(i) => Some(&self.entries[i].1),
            None => None,
        }
    }

    /// Whether some value is stored under `key`.
    pub fn contains_key(&self, key: &str) -> (r: bool)
        ensures
            r == self@.contains_key(key@),
    {
        self.get(key).is_some()
    }

    /// Metadata in which `key` holds `value` and every other key holds what it held before.
    fn with(self, key: String, value: String) -> (r: Metadata)
        ensures
            r@ == self@.insert(key@, value@),
    {
        let found = self.find(&key);
        let ghost before = self;
        proof {
            use_type_invariant(&self);
        }
        let mut entries = self.entries;
        let ghost key_text = key@;
        let ghost value_text = value@;
        let ghost spot: int;
        match found {
            Some(i) => {
                proof {
                    spot = i as int;
                }
                entries.set(i, (key, value));
            },
            None => {
                proof {
                    spot = entries@.len() as int;
                }
                entries.push((key, value));
                assert(forall|j: int|
                    0 <= j < before.entries@.len() ==> #[trigger] before.entries@[j].0@ != key_text) by {
                    assert(!has_entry(before.entries@, key_text));
                }
            },
        }
        assert(entries@[spot].0@ == key_text && entries@[spot].1@ == value_text);
        assert(forall|j: int|
            0 <= j < before.entries@.len() && j != spot ==> #[trigger] entries@[j]
                == before.entries@[j]);
        assert(keys_distinct(entries@));
        let r = Metadata { entries };
        proof {
            lemma_view_points(r.entries@, r);
            lemma_view_points(before.entries@, before);
            assert forall|k: Seq<char>| r@.contains_key(k) == before@.insert(
                key_text,
                value_text,
            ).contains_key(k) by {
                if before@.contains_key(k) && k != key_text {
                    let j = entry_index(before.entries@, k);
                    assert(r.entries@[j].0@ == k);
                }
                if k == key_text {
                    assert(r.entries@[spot].0@ == k);
                }
                if r@.contains_key(k) && k != key_text {
                    let j = entry_index(r.entries@, k);
                    assert(before.entries@[j].0@ == k);
                }
            }
            assert forall|k: Seq<char>| r@.contains_key(k) implies r@[k] == before@.insert(
                key_text,
                value_text,
            )[k] by {
                let j = entry_index(r.entries@, k);
                assert(r.entries@[j].0@ == k);
                if k != key_text {
                    assert(before.entries@[j].0@ == k);
                }
            }
            assert(r@ =~= before@.insert(key_text, value_text));
        }
        r
    }

    /// Stores `value` under `key`, in place of what was there.
    pub fn insert(&mut self, key: String, value: String)
        ensures
            final(self)@ == old(self)@.insert(key@, value@),
    {
        let mut taken = Metadata::new();
        std::mem::swap(self, &mut taken);
        *self = taken.with(key, value);
    }

    /// Whether both hold the same values under the same keys.
    pub fn same(&self, other: &Metadata) -> (r: bool)
        ensures
            r == (self@ == other@),
    {
        let r = self.within(other) && other.within(self);
        assert(r ==> self@ =~= other@);
        r
    }

    fn within(&self, other: &Metadata) -> (r: bool)
        ensures
            r == (forall|k: Seq<char>| #[trigger]
                self@.contains_key(k) ==> other@.contains_key(k) && other@[k] == self@[k]),
    {
        proof {
            use_type_invariant(self);
            lemma_view_points(self.entries@, *self);
        }
        let mut i: usize = 0;
        while i < self.entries.len()
            invariant
                i <= self.entries@.len(),
                forall|j: int|
                    0 <= j < self.entries@.len() ==> self@.contains_key(
                        #[trigger] self.entries@[j].0@,
                    ) && self@[self.entries@[j].0@] == self.entries@[j].1@,
                forall|j: int|
                    0 <= j < i ==> other@.contains_key(#[trigger] self.entries@[j].0@)
                        && other@[self.entries@[j].0@] == self.entries@[j].1@,
            decreases self.entries@.len() - i,
        {
            let ghost key = self.entries@[i as int].0@;
            assert(self@.contains_key(key));
            match other.get(self.entries[i].0.as_str()) {
                Some(value) => {
                    if *value != self.entries[i].1 {
                        return false;
                    }
                },
                None => {
                    return false;
                },
            }
            i += 1;
        }
        assert forall|k: Seq<char>| #[trigger] self@.contains_key(k) implies other@.contains_key(k)
            && other@[k] == self@[k] by {
            let j = entry_index(self.entries@, k);
            assert(self.entries@[j].0@ == k);
        }
        true
    }
}

/// Every entry shows in the map that the entries stand for.
proof fn lemma_view_points(entries: Seq<(String, String)>, m: Metadata)
    requires
        keys_distinct(entries),
        m.entries@ == entries,
    ensures
        forall|j: int|
            0 <= j < entries.len() ==> m@.contains_key(#[trigger] entries[j].0@)
                && m@[entries[j].0@] == entries[j].1@,
{
    assert forall|j: int| 0 <= j < entries.len() implies m@.contains_key(
        #[trigger] entries[j].0@,
    ) && m@[entries[j].0@] == entries[j].1@ by {
        assert(has_entry(entries, entries[j].0@));
        let i = entry_index(entries, entries[j].0@);
        assert(entries[i].0@ == entries[j].0@);
        assert(i == j);
    }
}

impl Clone for Metadata {
    fn clone(&self) -> (r: Self)
        ensures
            r@ == self@,
    {
        proof {
            use_type_invariant(self);
        }
        let mut entries: Vec<(String, String)> = Vec::new();
        let mut i: usize = 0;
        while i < self.entries.len()
            invariant
                i == entries@.len(),
                i <= self.entries@.len(),
                forall|j: int| 0 <= j < i ==> #[trigger] entries@[j] == self.entries@[j],
            decreases self.entries@.len() - i,
        {
            entries.push((self.entries[i].0.clone(), self.entries[i].1.clone()));
            i += 1;
        }
        assert(entries@ =~= self.entries@);
        let r = Metadata { entries };
        assert(r@ =~= self@);
        r
    }
}

} // verus!
