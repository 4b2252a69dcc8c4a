//! A table from text keys to values, kept as a list of entries with distinct
//! keys in the order in which the keys first came.

use crate::text::same_text;
use vstd::prelude::*;

verus! {

/// One key of a table with its value.
#[derive(Debug)]
struct Entry<V> {
    key: String,
    value: V,
}

/// No two entries have the same key.
spec fn distinct_keys<V>(entries: Seq<Entry<V>>) -> bool {
    forall|i: int, j: int|
        0 <= i < j < entries.len() ==> (#[trigger] entries[i]).key@ != (#[trigger] entries[j]).key@
}

/// `key` stands at position `i`.
spec fn key_at<V>(entries: Seq<Entry<V>>, key: Seq<char>, i: int) -> bool {
    0 <= i < entries.len() && entries[i].key@ == key
}

/// The map that a list of entries stands for.
spec fn entries_map<V>(entries: Seq<Entry<V>>) -> Map<Seq<char>, V> {
    Map::new(
        |key: Seq<char>| exists|i: int| key_at(entries, key, i),
        |key: Seq<char>| entries[choose|i: int| key_at(entries, key, i)].value,
    )
}

proof fn entry_in_map<V>(entries: Seq<Entry<V>>, i: int)
    requires
        distinct_keys(entries),
        0 <= i < entries.len(),
    ensures
        entries_map(entries).contains_key(entries[i].key@),
        entries_map(entries)[entries[i].key@] == entries[i].value,
{
    let key = entries[i].key@;
    assert(key_at(entries, key, i));
    let chosen = choose|k: int| key_at(entries, key, k);
    assert(key_at(entries, key, chosen));
    assert(chosen == i) by {
        if chosen < i {
            assert(entries[chosen].key@ != entries[i].key@);
        }
        if i < chosen {
            assert(entries[i].key@ != entries[chosen].key@);
        }
    }
}

proof fn map_after_push<V>(entries: Seq<Entry<V>>, entry: Entry<V>)
    requires
        distinct_keys(entries),
        !entries_map(entries).contains_key(entry.key@),
    ensures
        distinct_keys(entries.push(entry)),
        entries_map(entries.push(entry)) == entries_map(entries).insert(entry.key@, entry.value),
{
    let grown = entries.push(entry);
    assert forall|i: int, j: int| 0 <= i < j < grown.len() implies (#[trigger] grown[i]).key@ != (
    #[trigger] grown[j]).key@ by {
        if j == entries.len() {
            assert(key_at(entries, entries[i].key@, i));
        } else {
            assert(entries[i].key@ != entries[j].key@);
        }
    }
    let target = entries_map(entries).insert(entry.key@, entry.value);
    assert forall|key: Seq<char>| #[trigger]
        entries_map(grown).dom().contains(key) implies target.dom().contains(key) by {
        let i = choose|i: int| key_at(grown, key, i);
        assert(key_at(grown, key, i));
        if i < entries.len() {
            assert(key_at(entries, key, i));
        }
    }
    assert forall|key: Seq<char>| #[trigger]
        target.dom().contains(key) implies entries_map(grown).dom().contains(key) && entries_map(
        grown,
    )[key] == target[key] by {
        if key == entry.key@ {
            entry_in_map(grown, entries.len() as int);
        } else {
            let i = choose|i: int| key_at(entries, key, i);
            assert(key_at(entries, key, i));
            entry_in_map(entries, i);
            assert(grown[i] == entries[i]);
            entry_in_map(grown, i);
        }
    }
    assert(entries_map(grown) =~= target);
}

proof fn map_after_update<V>(entries: Seq<Entry<V>>, i: int, entry: Entry<V>)
    requires
        distinct_keys(entries),
        0 <= i < entries.len(),
        entries[i].key@ == entry.key@,
    ensures
        distinct_keys(entries.update(i, entry)),
        entries_map(entries.update(i, entry)) == entries_map(entries).insert(
            entry.key@,
            entry.value,
        ),
{
    let changed = entries.update(i, entry);
    assert forall|a: int, b: int| 0 <= a < b < changed.len() implies (#[trigger] changed[a]).key@
        != (#[trigger] changed[b]).key@ by {
        assert(entries[a].key@ != entries[b].key@);
    }
    let target = entries_map(entries).insert(entry.key@, entry.value);
    assert forall|key: Seq<char>| #[trigger]
        entries_map(changed).dom().contains(key) implies target.dom().contains(key) by {
        let k = choose|k: int| key_at(changed, key, k);
        assert(key_at(changed, key, k));
        if k != i {
            assert(key_at(entries, key, k));
        }
    }
    assert forall|key: Seq<char>| #[trigger]
        target.dom().contains(key) implies entries_map(changed).dom().contains(key) && entries_map(
        changed,
    )[key] == target[key] by {
        if key == entry.key@ {
            entry_in_map(changed, i);
        } else {
            let k = choose|k: int| key_at(entries, key, k);
            assert(key_at(entries, key, k));
            entry_in_map(entries, k);
            assert(changed[k] == entries[k]);
            entry_in_map(changed, k);
        }
    }
    assert(entries_map(changed) =~= target);
}

proof fn map_after_remove<V>(entries: Seq<Entry<V>>, i: int)
    requires
        distinct_keys(entries),
        0 <= i < entries.len(),
    ensures
        distinct_keys(entries.remove(i)),
        entries_map(entries.remove(i)) == entries_map(entries).remove(entries[i].key@),
{
    let rest = entries.remove(i);
    let gone = entries[i].key@;
    assert forall|a: int| 0 <= a < rest.len() implies #[trigger] rest[a] == entries[if a < i {
        a
    } else {
        a + 1
    }] by {}
    assert forall|a: int, b: int| 0 <= a < b < rest.len() implies (#[trigger] rest[a]).key@ != (
    #[trigger] rest[b]).key@ by {
        let x = if a < i { a } else { a + 1 };
        let y = if b < i { b } else { b + 1 };
        assert(entries[x].key@ != entries[y].key@);
    }
    let target = entries_map(entries).remove(gone);
    assert forall|key: Seq<char>| #[trigger]
        entries_map(rest).dom().contains(key) implies target.dom().contains(key) by {
        let k = choose|k: int| key_at(rest, key, k);
        assert(key_at(rest, key, k));
        let x = if k < i { k } else { k + 1 };
        assert(key_at(entries, key, x));
        if x < i {
            assert(entries[x].key@ != entries[i].key@);
        } else {
            assert(entries[i].key@ != entries[x].key@);
        }
    }
    assert forall|key: Seq<char>| #[trigger]
        target.dom().contains(key) implies entries_map(rest).dom().contains(key) && entries_map(
        rest,
    )[key] == target[key] by {
        let k = choose|k: int| key_at(entries, key, k);
        assert(key_at(entries, key, k));
        entry_in_map(entries, k);
        assert(k != i);
        let x = if k < i { k } else { k - 1 };
        assert(rest[x] == entries[k]);
        entry_in_map(rest, x);
    }
    assert(entries_map(rest) =~= target);
}

/// A table from text keys to values.
#[derive(Debug)]
pub struct Table<V> {
    entries: Vec<Entry<V>>,
}

impl<V> View for Table<V> {
    type V = Map<Seq<char>, V>;

    closed spec fn view(&self) -> Map<Seq<char>, V> {
        entries_map(self.entries@)
    }
}

impl<V> Table<V> {
    #[verifier::type_invariant]
    spec fn keys_are_distinct(self) -> bool {
        distinct_keys(self.entries@)
    }

    /// The keys in the order in which they first came.
    pub closed spec fn keys(self) -> Seq<Seq<char>> {
        Seq::new(self.entries@.len(), |i: int| self.entries@[i].key@)
    }

    /// An empty table.
    pub fn new() -> (table: Self)
        ensures
            table@ == Map::<Seq<char>, V>::empty(),
            table.keys().len() == 0,
    {
        let table = Table { entries: Vec::new() };
        assert(table@ =~= Map::<Seq<char>, V>::empty());
        table
    }

    /// The number of keys. Every key of the table stands at exactly one
    /// position below it.
    pub fn len(&self) -> (count: usize)
        ensures
            count == self.keys().len(),
            self.keys().no_duplicates(),
            forall|key: Seq<char>| self@.contains_key(key) <==> self.keys().contains(key),
    {
        proof {
            use_type_invariant(self);
            let keys = self.keys();
            assert forall|i: int, j: int|
                0 <= i < keys.len() && 0 <= j < keys.len() && i != j implies keys[i] != keys[j] by {
                if i < j {
                    assert(self.entries@[i].key@ != self.entries@[j].key@);
                } else {
                    assert(self.entries@[j].key@ != self.entries@[i].key@);
                }
            }
            assert forall|key: Seq<char>| self@.contains_key(key) implies keys.contains(key) by {
                let i = choose|i: int| key_at(self.entries@, key, i);
                assert(keys[i] == key);
            }
            assert forall|key: Seq<char>| keys.contains(key) implies self@.contains_key(key) by {
                let i = choose|i: int| 0 <= i < keys.len() && keys[i] == key;
                assert(key_at(self.entries@, key, i));
            }
        }
        self.entries.len()
    }

    /// The key and the value at position `i`.
    pub fn entry(&self, i: usize) -> (pair: (&String, &V))
        requires
            i < self.keys().len(),
        ensures
            pair.0@ == self.keys()[i as int],
            self@.contains_key(pair.0@),
            self@[pair.0@] == *pair.1,
    {
        proof {
            use_type_invariant(self);
            entry_in_map(self.entries@, i as int);
        }
        let entry = &self.entries[i];
        (&entry.key, &entry.value)
    }

    fn position(&self, key: &str) -> (found: Option<usize>)
        ensures
            match found {
                Some(i) => key_at(self.entries@, key@, i as int),
                None => !self@.contains_key(key@),
            },
    {
        let mut i: usize = 0;
        while i < self.entries.len()
            invariant
                i <= self.entries@.len(),
                forall|j: int| 0 <= j < i ==> self.entries@[j].key@ != key@,
            decreases self.entries@.len() - i,
        {
            if same_text(self.entries[i].key.as_str(), key) {
                return Some(i);
            }
            i += 1;
        }
        assert forall|j: int| !key_at(self.entries@, key@, j) by {}
        None
    }

    /// Whether `key` has a value.
    pub fn contains_key(&self, key: &str) -> (found: bool)
        ensures
            found == self@.contains_key(key@),
    {
        match self.position(key) {
            Some(i) => {
                proof {
                    use_type_invariant(self);
                    entry_in_map(self.entries@, i as int);
                }
                true
            },
            None => false,
        }
    }

    /// The value of `key`, if it has one.
    pub fn get(&self, key: &str) -> (value: Option<&V>)
        ensures
            match value {
                Some(found) => self@.contains_key(key@) && *found == self@[key@],
                None => !self@.contains_key(key@),
            },
    {
        match self.position(key) {
            Some(i) => {
                proof {
                    use_type_invariant(self);
                    entry_in_map(self.entries@, i as int);
                }
                Some(&self.entries[i].value)
            },
            None => None,
        }
    }

    /// Gives `key` the value `value`, in place of the one it had, if any.
    pub fn insert(&mut self, key: String, value: V)
        ensures
            final(self)@ == old(self)@.insert(key@, value),
    {
        proof {
            use_type_invariant(&*self);
        }
        let found = self.position(key.as_str());
        let ghost before = self.entries@;
        let mut entries: Vec<Entry<V>> = Vec::new();
        core::mem::swap(&mut self.entries, &mut entries);
        let entry = Entry { key, value };
        match found {
            Some(i) => {
                proof {
                    map_after_update(before, i as int, entry);
                }
                entries.set(i, entry);
            },
            None => {
                proof {
                    map_after_push(before, entry);
                }
                entries.push(entry);
            },
        }
        self.entries = entries;
    }

    /// Takes `key` and its value out of the table.
    pub fn remove(&mut self, key: &str) -> (value: Option<V>)
        ensures
            final(self)@ == old(self)@.remove(key@),
            match value {
                Some(taken) => old(self)@.contains_key(key@) && taken == old(self)@[key@],
                None => !old(self)@.contains_key(key@),
            },
    {
        proof {
            use_type_invariant(&*self);
        }
        match self.position(key) {
            Some(i) => {
                let ghost before = self.entries@;
                proof {
                    entry_in_map(before, i as int);
                    map_after_remove(before, i as int);
                }
                let mut entries: Vec<Entry<V>> = Vec::new();
                core::mem::swap(&mut self.entries, &mut entries);
                let entry = entries.remove(i);
                self.entries = entries;
                Some(entry.value)
            },
            None => {
                assert(self@ =~= self@.remove(key@));
                None
            },
        }
    }
}

impl<V: Copy> Table<V> {
    /// A table with the same keys, in the same order, and the same values.
    pub fn duplicate(&self) -> (copy: Self)
        ensures
            copy@ == self@,
            copy.keys() == self.keys(),
    {
        let mut entries: Vec<Entry<V>> = Vec::new();
        let mut i: usize = 0;
        while i < self.entries.len()
            invariant
                i <= self.entries@.len(),
                entries@ == self.entries@.take(i as int),
            decreases self.entries@.len() - i,
        {
            let entry = &self.entries[i];
            entries.push(Entry { key: entry.key.clone(), value: entry.value });
            i += 1;
            assert(entries@ =~= self.entries@.take(i as int));
        }
        proof {
            use_type_invariant(self);
            assert(entries@ =~= self.entries@);
        }
        Table { entries }
    }
}

} // verus!
