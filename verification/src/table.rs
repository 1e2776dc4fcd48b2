//! A table keyed by strings: the entries are kept in a `Vec`, each key at
//! most once, and the table's contents are a `Map` from keys to values.

use vstd::prelude::*;

verus! {

/// `entries` lists exactly the keys of `contents`, each once, with the
/// values that `contents` gives them.
pub open spec fn lists_contents<V>(entries: Seq<(String, V)>, contents: Map<Seq<char>, V>) -> bool {
    &&& forall|i: int|
        #![trigger entries[i]]
        0 <= i < entries.len() ==> contents.contains_key(entries[i].0@) && contents[entries[i].0@]
            == entries[i].1
    &&& forall|k: Seq<char>|
        #![trigger contents.contains_key(k)]
        contents.contains_key(k) ==> exists|i: int|
            #![trigger entries[i]]
            0 <= i < entries.len() && entries[i].0@ == k
    &&& forall|i: int, j: int|
        #![trigger entries[i], entries[j]]
        0 <= i < entries.len() && 0 <= j < entries.len() && i != j ==> entries[i].0@
            != entries[j].0@
}

/// Entries keyed by `String`; no key occurs twice.
pub struct NameTable<V> {
    entries: Vec<(String, V)>,
    contents: Ghost<Map<Seq<char>, V>>,
}

impl<V> NameTable<V> {
    #[verifier::type_invariant]
    closed spec fn well_formed(self) -> bool {
        lists_contents(self.entries@, self.contents@)
    }

    /// The table's contents.
    pub closed spec fn view(&self) -> Map<Seq<char>, V> {
        self.contents@
    }

    /// An empty table.
    pub fn new() -> (t: Self)
        ensures
            t@ == Map::<Seq<char>, V>::empty(),
    {
        NameTable { entries: Vec::new(), contents: Ghost(Map::empty()) }
    }

    /// Position of `key` among `entries`, if it is there.
    fn position(entries: &Vec<(String, V)>, key: &str) -> (r: Option<usize>)
        ensures
            match r {
                Some(i) => i < entries@.len() && entries@[i as int].0@ == key@,
                None => forall|j: int| 0 <= j < entries@.len() ==> entries@[j].0@ != key@,
            },
    {
        let mut i: usize = 0;
        let n = entries.len();
        while i < n
            invariant
                n == entries@.len(),
                i <= n,
                forall|j: int| 0 <= j < i ==> entries@[j].0@ != key@,
            decreases n - i,
        {
            if crate::text::str_eq(entries[i].0.as_str(), key) {
                return Some(i);
            }
            i = i + 1;
        }
        None
    }

    /// Set `key` to `value`, replacing any value it had.
    pub fn insert(&mut self, key: String, value: V)
        ensures
            final(self)@ == old(self)@.insert(key@, value),
    {
        proof { use_type_invariant(&*self); }
        let mut taken = NameTable::new();
        std::mem::swap(self, &mut taken);
        proof { use_type_invariant(&taken); }
        let NameTable { mut entries, contents } = taken;
        let ghost old_entries = entries@;
        let ghost new_contents = contents@.insert(key@, value);
        match Self::position(&entries, key.as_str()) {
            Some(i) => {
                entries.set(i, (key, value));
                proof {
                    assert forall|k: Seq<char>| #[trigger]
                        new_contents.contains_key(k) implies exists|j: int|
                        #![trigger entries@[j]]
                        0 <= j < entries@.len() && entries@[j].0@ == k by {
                        if k != key@ {
                            let j = choose|j: int|
                                0 <= j < old_entries.len() && #[trigger] old_entries[j].0@ == k;
                            assert(entries@[j] == old_entries[j]);
                        } else {
                            assert(entries@[i as int].0@ == k);
                        }
                    }
                }
            },
            None => {
                entries.push((key, value));
                proof {
                    assert forall|k: Seq<char>| #[trigger]
                        new_contents.contains_key(k) implies exists|j: int|
                        #![trigger entries@[j]]
                        0 <= j < entries@.len() && entries@[j].0@ == k by {
                        if k != key@ {
                            let j = choose|j: int|
                                0 <= j < old_entries.len() && #[trigger] old_entries[j].0@ == k;
                            assert(entries@[j] == old_entries[j]);
                        } else {
                            assert(entries@[old_entries.len() as int].0@ == k);
                        }
                    }
                }
            },
        }
        *self = NameTable { entries, contents: Ghost(new_contents) };
    }

    /// Number of keys.
    pub closed spec fn size(&self) -> nat {
        self.entries@.len()
    }

    /// The key at position `i` of the table's listing.
    pub closed spec fn key_at(&self, i: int) -> Seq<char> {
        self.entries@[i].0@
    }

    /// The value at position `i` of the table's listing.
    pub closed spec fn value_at(&self, i: int) -> V {
        self.entries@[i].1
    }

    /// Number of keys; the listing by position holds each key of the table
    /// once, with its value.
    pub fn len(&self) -> (n: usize)
        ensures
            n == self.size(),
            self@.dom().finite(),
            self@.dom().len() == self.size(),
            forall|i: int|
                #![trigger self.key_at(i)]
                0 <= i < self.size() ==> self@.contains_key(self.key_at(i)) && self@[self.key_at(i)]
                    == self.value_at(i),
            forall|k: Seq<char>|
                #![trigger self@.contains_key(k)]
                self@.contains_key(k) ==> exists|i: int|
                    #![trigger self.key_at(i)]
                    0 <= i < self.size() && self.key_at(i) == k,
            forall|i: int, j: int|
                #![trigger self.key_at(i), self.key_at(j)]
                0 <= i < self.size() && 0 <= j < self.size() && i != j ==> self.key_at(i)
                    != self.key_at(j),
    {
        proof {
            use_type_invariant(self);
            let keys = self.entries@.map_values(|e: (String, V)| e.0@);
            assert forall|i: int, j: int|
                0 <= i < keys.len() && 0 <= j < keys.len() && i != j implies keys[i] != keys[j] by {
                assert(self.entries@[i].0@ != self.entries@[j].0@);
            }
            assert(keys.no_duplicates());
            keys.unique_seq_to_set();
            assert(keys.to_set() =~= self@.dom()) by {
                assert forall|k: Seq<char>| keys.to_set().contains(k) <==> self@.dom().contains(k) by {
                    if self@.dom().contains(k) {
                        assert(self@.contains_key(k));
                        let i = choose|i: int|
                            #![trigger self.entries@[i]]
                            0 <= i < self.entries@.len() && self.entries@[i].0@ == k;
                        assert(keys[i] == k);
                    }
                    if keys.to_set().contains(k) {
                        let i = choose|i: int| 0 <= i < keys.len() && keys[i] == k;
                        assert(self.entries@[i].0@ == k);
                    }
                }
            }
            assert forall|k: Seq<char>| #[trigger] self@.contains_key(k) implies exists|i: int|
                #![trigger self.key_at(i)]
                0 <= i < self.size() && self.key_at(i) == k by {
                let i = choose|i: int|
                    #![trigger self.entries@[i]]
                    0 <= i < self.entries@.len() && self.entries@[i].0@ == k;
                assert(self.key_at(i) == k);
            }
            assert forall|i: int| #![trigger self.key_at(i)] 0 <= i < self.size() implies self@.contains_key(self.key_at(i)) && self@[self.key_at(i)]
                    == self.value_at(i) by {
                assert(self.entries@[i].0@ == self.key_at(i));
            }
            assert forall|i: int, j: int|
                #![trigger self.key_at(i), self.key_at(j)]
                0 <= i < self.size() && 0 <= j < self.size() && i != j implies self.key_at(i)
                    != self.key_at(j) by {
                assert(self.entries@[i].0@ != self.entries@[j].0@);
            }
        }
        self.entries.len()
    }

    /// The key at position `i`.
    pub fn key(&self, i: usize) -> (k: &String)
        requires
            i < self.size(),
        ensures
            k@ == self.key_at(i as int),
    {
        &self.entries[i].0
    }

    /// The value at position `i`.
    pub fn value(&self, i: usize) -> (v: &V)
        requires
            i < self.size(),
        ensures
            *v == self.value_at(i as int),
    {
        &self.entries[i].1
    }

    /// The value stored under `key`, if any.
    pub fn get(&self, key: &str) -> (r: Option<&V>)
        ensures
            match r {
                Some(v) => self@.contains_key(key@) && *v == self@[key@],
                None => !self@.contains_key(key@),
            },
    {
        proof { use_type_invariant(self); }
        match Self::position(&self.entries, key) {
            Some(i) => {
                proof { assert(self.entries@[i as int].0@ == key@); }
                Some(&self.entries[i].1)
            },
            None => {
                proof {
                    if self@.contains_key(key@) {
                        let i = choose|i: int|
                            #![trigger self.entries@[i]]
                            0 <= i < self.entries@.len() && self.entries@[i].0@ == key@;
                    }
                }
                None
            },
        }
    }

    /// Whether `key` is in the table.
    pub fn contains_key(&self, key: &str) -> (r: bool)
        ensures
            r == self@.contains_key(key@),
    {
        self.get(key).is_some()
    }

    /// Remove `key`, handing back the value it had.
    pub fn remove(&mut self, key: &str) -> (r: Option<V>)
        ensures
            final(self)@ == old(self)@.remove(key@),
            match r {
                Some(v) => old(self)@.contains_key(key@) && v == old(self)@[key@],
                None => !old(self)@.contains_key(key@),
            },
    {
        proof { use_type_invariant(&*self); }
        let mut taken = NameTable::new();
        std::mem::swap(self, &mut taken);
        proof { use_type_invariant(&taken); }
        let NameTable { mut entries, contents } = taken;
        let ghost old_entries = entries@;
        let ghost new_contents = contents@.remove(key@);
        match Self::position(&entries, key) {
            Some(i) => {
                let (_, v) = entries.remove(i);
                proof {
                    assert forall|j: int|
                        #![trigger entries@[j]]
                        0 <= j < entries@.len() implies new_contents.contains_key(entries@[j].0@)
                        && new_contents[entries@[j].0@] == entries@[j].1 by {
                        if j < i {
                            assert(entries@[j] == old_entries[j]);
                            assert(old_entries[j].0@ != old_entries[i as int].0@);
                        } else {
                            assert(entries@[j] == old_entries[j + 1]);
                            assert(old_entries[j + 1].0@ != old_entries[i as int].0@);
                        }
                    }
                    assert forall|k: Seq<char>| #[trigger]
                        new_contents.contains_key(k) implies exists|j: int|
                        #![trigger entries@[j]]
                        0 <= j < entries@.len() && entries@[j].0@ == k by {
                        let j = choose|j: int|
                            0 <= j < old_entries.len() && #[trigger] old_entries[j].0@ == k;
                        if j < i {
                            assert(entries@[j] == old_entries[j]);
                        } else {
                            assert(j != i);
                            assert(entries@[j - 1] == old_entries[j]);
                        }
                    }
                    assert forall|a: int, b: int|
                        #![trigger entries@[a], entries@[b]]
                        0 <= a < entries@.len() && 0 <= b < entries@.len() && a != b implies entries@[a].0@
                        != entries@[b].0@ by {
                        let oa = if a < i { a } else { a + 1 };
                        let ob = if b < i { b } else { b + 1 };
                        assert(entries@[a] == old_entries[oa]);
                        assert(entries@[b] == old_entries[ob]);
                    }
                }
                *self = NameTable { entries, contents: Ghost(new_contents) };
                Some(v)
            },
            None => {
                proof {
                    if contents@.contains_key(key@) {
                        let i = choose|i: int|
                            #![trigger old_entries[i]]
                            0 <= i < old_entries.len() && old_entries[i].0@ == key@;
                    }
                    assert(new_contents =~= contents@);
                }
                *self = NameTable { entries, contents: Ghost(new_contents) };
                None
            },
        }
    }
}

} // verus!
