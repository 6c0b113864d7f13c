//! Entries that are told apart by their keys.

use vstd::hash_map::StringHashMap;
use vstd::prelude::*;

verus! {

/// Values with a key each. No two of them have the same key.
#[derive(Debug)]
pub struct KeyedEntries<T> {
    entries: Vec<(String, T)>,
}

/// Some entries with their keys as character sequences.
pub open spec fn keyed<T>(entries: Seq<(String, T)>) -> Seq<(Seq<char>, T)> {
    entries.map_values(|entry: (String, T)| (entry.0@, entry.1))
}

/// Whether no two entries have the same key.
pub open spec fn keys_are_distinct<T>(entries: Seq<(Seq<char>, T)>) -> bool {
    forall|i: int, j: int|
        0 <= i < j < entries.len() ==> (#[trigger] entries[i]).0 != (#[trigger] entries[j]).0
}

impl<T> View for KeyedEntries<T> {
    type V = Seq<(Seq<char>, T)>;

    closed spec fn view(&self) -> Seq<(Seq<char>, T)> {
        keyed(self.entries@)
    }
}

impl<T> KeyedEntries<T> {
    #[verifier::type_invariant]
    spec fn well_formed(self) -> bool {
        keys_are_distinct(keyed(self.entries@))
    }

    /// The given entries, if no key occurs twice among them.
    pub fn from_entries(entries: Vec<(String, T)>) -> (result: Option<Self>)
        ensures
            match result {
                Some(kept) => keys_are_distinct(keyed(entries@)) && kept@ == keyed(entries@),
                None => !keys_are_distinct(keyed(entries@)),
            },
    {
        let ghost all = keyed(entries@);
        let mut seen: StringHashMap<()> = StringHashMap::new();
        let mut i: usize = 0;
        while i < entries.len()
            invariant
                i <= entries@.len(),
                all == keyed(entries@),
                forall|key: Seq<char>| #[trigger]
                    seen@.contains_key(key) <==> exists|j: int|
                        0 <= j < i && (#[trigger] all[j]).0 == key,
                keys_are_distinct(all.take(i as int)),
            decreases entries@.len() - i,
        {
            assert(all[i as int].0 == entries@[i as int].0@);
            if seen.contains_key(entries[i].0.as_str()) {
                return None;
            }
            let ghost before = seen@;
            seen.insert(entries[i].0.clone(), ());
            assert forall|key: Seq<char>| #[trigger] seen@.contains_key(key) implies exists|j: int|
                0 <= j < i + 1 && (#[trigger] all[j]).0 == key by {
                if key != all[i as int].0 {
                    assert(before.contains_key(key));
                }
            }
            assert forall|j: int, k: int| 0 <= j < k < i + 1 implies (#[trigger] all.take(
                i + 1,
            )[j]).0 != (#[trigger] all.take(i + 1)[k]).0 by {
                if k == i {
                    assert(all[j].0 != all[k].0) by {
                        assert(before.contains_key(all[j].0));
                    }
                } else {
                    assert(all.take(i as int)[j].0 != all.take(i as int)[k].0);
                }
            }
            i += 1;
        }
        assert(all.take(i as int) =~= all);
        Some(KeyedEntries { entries })
    }

    /// The given entries, which have distinct keys.
    pub(crate) fn from_distinct(entries: Vec<(String, T)>) -> (kept: Self)
        requires
            keys_are_distinct(keyed(entries@)),
        ensures
            kept@ == keyed(entries@),
    {
        KeyedEntries { entries }
    }

    /// The entries, in the order in which they were given.
    pub fn entries(&self) -> (entries: &Vec<(String, T)>)
        ensures
            keyed(entries@) == self@,
            keys_are_distinct(self@),
    {
        proof {
            use_type_invariant(self);
        }
        &self.entries
    }

    /// The entries, in the order in which they were given.
    pub fn into_entries(self) -> (entries: Vec<(String, T)>)
        ensures
            keyed(entries@) == self@,
            keys_are_distinct(self@),
    {
        proof {
            use_type_invariant(&self);
        }
        self.entries
    }
}

} // verus!
