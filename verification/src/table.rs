//! A table from string keys to values.
use vstd::prelude::*;

use crate::text::{contains_text, same_text};

verus! {

/// Entry `i` of `entries` is filed under `key`.
spec fn filed_at<V>(entries: Seq<(String, V)>, i: int, key: Seq<char>) -> bool {
    0 <= i < entries.len() && entries[i].0@ == key
}

/// No two entries are filed under the same key.
spec fn distinct_keys<V>(entries: Seq<(String, V)>) -> bool {
    forall|i: int, j: int|
        0 <= i < j < entries.len() ==> (#[trigger] entries[i]).0@ != (#[trigger] entries[j]).0@
}

/// The map that a list of entries stands for.
spec fn entries_map<V: DeepView>(entries: Seq<(String, V)>) -> Map<Seq<char>, V::V> {
    Map::new(
        |key: Seq<char>| exists|i: int| filed_at(entries, i, key),
        |key: Seq<char>| entries[choose|i: int| filed_at(entries, i, key)].1.deep_view(),
    )
}

/// A map from string keys to values, held as a list of entries in order of first insertion.
pub struct KeyTable<V> {
    entries: Vec<(String, V)>,
}

impl<V> KeyTable<V> {
    #[verifier::type_invariant]
    spec fn inv(self) -> bool {
        distinct_keys(self.entries@)
    }
}

impl<V: DeepView> View for KeyTable<V> {
    type V = Map<Seq<char>, V::V>;

    closed spec fn view(&self) -> Map<Seq<char>, V::V> {
        entries_map(self.entries@)
    }
}

proof fn lemma_filed<V: DeepView>(entries: Seq<(String, V)>, i: int)
    requires
        distinct_keys(entries),
        0 <= i < entries.len(),
    ensures
        entries_map(entries).contains_key(entries[i].0@),
        entries_map(entries)[entries[i].0@] == entries[i].1.deep_view(),
{
    let key = entries[i].0@;
    assert(filed_at(entries, i, key));
    let j = choose|j: int| filed_at(entries, j, key);
    assert(filed_at(entries, j, key));
    assert(i == j);
}

proof fn lemma_is_map<V: DeepView>(entries: Seq<(String, V)>, map: Map<Seq<char>, V::V>)
    requires
        distinct_keys(entries),
        forall|j: int|
            0 <= j < entries.len() ==> map.dom().contains((#[trigger] entries[j]).0@)
                && map[entries[j].0@] == entries[j].1.deep_view(),
        forall|key: Seq<char>| #[trigger]
            map.dom().contains(key) ==> exists|j: int| filed_at(entries, j, key),
    ensures
        entries_map(entries) == map,
{
    assert forall|key: Seq<char>| #[trigger]
        entries_map(entries).dom().contains(key) implies map.dom().contains(key)
        && entries_map(entries)[key] == map[key] by {
        let j = choose|j: int| filed_at(entries, j, key);
        lemma_filed(entries, j);
    }
    assert(entries_map(entries) =~= map);
}

impl<V: DeepView> KeyTable<V> {
    /// An empty table.
    pub fn new() -> (table: Self)
        ensures
            table@ == Map::<Seq<char>, V::V>::empty(),
    {
        let table = KeyTable { entries: Vec::new() };
        assert(table@ =~= Map::<Seq<char>, V::V>::empty());
        table
    }

    /// The number of keys.
    pub fn len(&self) -> (n: usize)
        ensures
            n == self@.len(),
            self@.dom().finite(),
    {
        proof {
            use_type_invariant(self);
            let keys = self.entries@.map_values(|e: (String, V)| e.0@);
            assert(keys.no_duplicates());
            keys.unique_seq_to_set();
            assert forall|key: Seq<char>| self@.dom().contains(key) implies keys.to_set().contains(
                key,
            ) by {
                let i = choose|i: int| filed_at(self.entries@, i, key);
                assert(keys[i] == key);
            }
            assert forall|key: Seq<char>| keys.to_set().contains(key) implies self@.dom().contains(
                key,
            ) by {
                let i = choose|i: int| 0 <= i < keys.len() && keys[i] == key;
                assert(filed_at(self.entries@, i, key));
            }
            assert(self@.dom() =~= keys.to_set());
        }
        self.entries.len()
    }

    /// The position of the entry filed under `key`.
    fn position(&self, key: &str) -> (found: Option<usize>)
        ensures
            match found {
                Some(i) => filed_at(self.entries@, i as int, key@),
                None => !self@.contains_key(key@),
            },
    {
        let mut i: usize = 0;
        while i < self.entries.len()
            invariant
                i <= self.entries.len(),
                forall|j: int| 0 <= j < i ==> !filed_at(self.entries@, j, key@),
            decreases self.entries.len() - i,
        {
            if same_text(self.entries[i].0.as_str(), key) {
                return Some(i);
            }
            i = i + 1;
        }
        None
    }

    /// Whether `key` has a value.
    pub fn contains_key(&self, key: &str) -> (present: bool)
        ensures
            present == self@.contains_key(key@),
    {
        proof {
            use_type_invariant(self);
        }
        match self.position(key) {
            Some(i) => {
                proof {
                    lemma_filed(self.entries@, i as int);
                }
                true
            },
            None => false,
        }
    }

    /// The value of `key`.
    pub fn get(&self, key: &str) -> (value: Option<&V>)
        ensures
            value is Some <==> self@.contains_key(key@),
            value matches Some(v) ==> v.deep_view() == self@[key@],
    {
        proof {
            use_type_invariant(self);
        }
        match self.position(key) {
            Some(i) => {
                proof {
                    lemma_filed(self.entries@, i as int);
                }
                Some(&self.entries[i].1)
            },
            None => None,
        }
    }

    /// Files `value` under `key`, in place of the value that `key` had.
    pub fn insert(&mut self, key: String, value: V)
        ensures
            final(self)@ == old(self)@.insert(key@, value.deep_view()),
    {
        proof {
            use_type_invariant(&*self);
        }
        let found = self.position(key.as_str());
        let mut entries: Vec<(String, V)> = Vec::new();
        std::mem::swap(&mut self.entries, &mut entries);
        let ghost before = entries@;
        match found {
            Some(i) => {
                entries[i] = (key, value);
                assert(entries@ == before.update(i as int, (key, value)));
            },
            None => {
                proof {
                    assert forall|j: int| 0 <= j < before.len() implies before[j].0@ != key@ by {
                        lemma_filed(before, j);
                    }
                }
                entries.push((key, value));
            },
        }
        proof {
            let after = entries@;
            let want = entries_map(before).insert(key@, value.deep_view());
            let at = if found is Some { found->0 as int } else { before.len() as int };
            assert forall|j: int| 0 <= j < after.len() implies want.dom().contains(
                (#[trigger] after[j]).0@,
            ) && want[after[j].0@] == after[j].1.deep_view() by {
                if j != at {
                    lemma_filed(before, j);
                }
            }
            assert forall|k: Seq<char>| #[trigger] want.dom().contains(k) implies exists|j: int|
                filed_at(after, j, k) by {
                if k == key@ {
                    assert(filed_at(after, at, k));
                } else {
                    let j = choose|j: int| filed_at(before, j, k);
                    assert(filed_at(after, j, k));
                }
            }
            lemma_is_map(after, want);
        }
        self.entries = entries;
    }

    /// Takes the value of `key` out of the table.
    pub fn remove(&mut self, key: &str) -> (removed: Option<V>)
        ensures
            final(self)@ == old(self)@.remove(key@),
            removed is Some <==> old(self)@.contains_key(key@),
            removed matches Some(v) ==> v.deep_view() == old(self)@[key@],
    {
        proof {
            use_type_invariant(&*self);
        }
        match self.position(key) {
            Some(i) => {
                let mut entries: Vec<(String, V)> = Vec::new();
                std::mem::swap(&mut self.entries, &mut entries);
                let ghost before = entries@;
                let (_, value) = entries.remove(i);
                proof {
                    let after = entries@;
                    let want = entries_map(before).remove(key@);
                    lemma_filed(before, i as int);
                    assert forall|j: int| 0 <= j < after.len() implies want.dom().contains(
                        (#[trigger] after[j]).0@,
                    ) && want[after[j].0@] == after[j].1.deep_view() by {
                        lemma_filed(before, if j < i { j } else { j + 1 });
                    }
                    assert forall|k: Seq<char>| #[trigger] want.dom().contains(k) implies exists|
                        j: int,
                    | filed_at(after, j, k) by {
                        let j = choose|j: int| filed_at(before, j, k);
                        assert(filed_at(after, if j < i { j } else { j - 1 }, k));
                    }
                    lemma_is_map(after, want);
                }
                self.entries = entries;
                Some(value)
            },
            None => {
                assert(self@.remove(key@) =~= self@);
                None
            },
        }
    }

    /// The keys, each once.
    pub fn keys(&self) -> (keys: Vec<String>)
        ensures
            keys.deep_view().no_duplicates(),
            keys.deep_view().to_set() == self@.dom(),
    {
        proof {
            use_type_invariant(self);
        }
        let mut keys: Vec<String> = Vec::new();
        let mut i: usize = 0;
        while i < self.entries.len()
            invariant
                i <= self.entries.len(),
                keys.len() == i,
                forall|j: int| 0 <= j < i ==> (#[trigger] keys[j])@ == self.entries[j].0@,
            decreases self.entries.len() - i,
        {
            keys.push(self.entries[i].0.clone());
            i = i + 1;
        }
        proof {
            let names = keys.deep_view();
            assert forall|key: Seq<char>| self@.dom().contains(key) implies names.to_set().contains(
                key,
            ) by {
                let j = choose|j: int| filed_at(self.entries@, j, key);
                assert(names[j] == key);
            }
            assert forall|key: Seq<char>| names.to_set().contains(key) implies self@.dom().contains(
                key,
            ) by {
                let j = choose|j: int| 0 <= j < names.len() && names[j] == key;
                assert(filed_at(self.entries@, j, key));
            }
            assert(names.to_set() =~= self@.dom());
        }
        keys
    }

    /// Drops every key that is not in `kept`.
    pub fn retain_keys(&mut self, kept: &Vec<String>)
        ensures
            final(self)@ == old(self)@.restrict(kept.deep_view().to_set()),
    {
        let ghost before = self@;
        let ghost keep = kept.deep_view().to_set();
        let keys = self.keys();
        let ghost names = keys.deep_view();
        let mut i: usize = 0;
        while i < keys.len()
            invariant
                i <= keys.len(),
                names == keys.deep_view(),
                keep == kept.deep_view().to_set(),
                names.to_set() == before.dom(),
                self@.submap_of(before),
                forall|j: int| 0 <= j < i && !keep.contains(#[trigger] names[j])
                    ==> !self@.contains_key(names[j]),
                forall|key: Seq<char>| #[trigger] before.contains_key(key) && keep.contains(key)
                    ==> self@.contains_key(key),
            decreases keys.len() - i,
        {
            assert(names[i as int] == keys[i as int]@);
            if !contains_text(kept, keys[i].as_str()) {
                self.remove(keys[i].as_str());
            }
            i = i + 1;
        }
        assert(self@ =~= before.restrict(keep)) by {
            assert forall|key: Seq<char>| #[trigger] self@.dom().contains(key) implies keep.contains(
                key,
            ) by {
                assert(names.to_set().contains(key));
                let j = choose|j: int| 0 <= j < names.len() && names[j] == key;
                assert(names[j] == key);
            }
        }
    }
}

} // verus!
