//! A table with one entry for each symbol that it knows.

use vstd::prelude::*;

use crate::text::texts;

verus! {

/// Entries by their symbols, which can be walked in the order in which they came. No symbol has two
/// entries, and a new entry comes behind the others.
pub struct Table<V> {
    entries: Vec<(String, V)>,
}

/// The place of the entry for `key`, if there is one.
spec fn place<V>(entries: Seq<(String, V)>, key: Seq<char>) -> int {
    choose|i: int| 0 <= i < entries.len() && (#[trigger] entries[i]).0@ == key
}

spec fn distinct<V>(entries: Seq<(String, V)>) -> bool {
    forall|i: int, j: int|
        0 <= i < j < entries.len() ==> (#[trigger] entries[i]).0@ != (#[trigger] entries[j]).0@
}

spec fn contents<V>(entries: Seq<(String, V)>) -> Map<Seq<char>, V> {
    Map::new(
        |key: Seq<char>| exists|i: int| 0 <= i < entries.len() && (#[trigger] entries[i]).0@ == key,
        |key: Seq<char>| entries[place(entries, key)].1,
    )
}

impl<V> View for Table<V> {
    type V = Map<Seq<char>, V>;

    closed spec fn view(&self) -> Map<Seq<char>, V> {
        contents(self.entries@)
    }
}

impl<V> Table<V> {
    #[verifier::type_invariant]
    closed spec fn well_formed(self) -> bool {
        distinct(self.entries@)
    }

    /// A table without entries.
    pub fn new() -> (table: Table<V>)
        ensures
            table@ == Map::<Seq<char>, V>::empty(),
    {
        let table = Table { entries: Vec::new() };
        assert(table@ =~= Map::<Seq<char>, V>::empty());
        table
    }

    fn find(&self, key: &str) -> (at: Option<usize>)
        ensures
            at is Some <==> self@.contains_key(key@),
            at matches Some(i) ==> i < self.entries@.len() && self.entries@[i as int].0@ == key@
                && self@[key@] == self.entries@[i as int].1,
    {
        proof {
            use_type_invariant(self);
        }
        let mut i: usize = 0;
        while i < self.entries.len()
            invariant
                i <= self.entries@.len(),
                distinct(self.entries@),
                forall|k: int| 0 <= k < i ==> (#[trigger] self.entries@[k]).0@ != key@,
            decreases self.entries@.len() - i,
        {
            if *self.entries[i].0.as_str() == *key {
                assert(place(self.entries@, key@) == i);
                return Some(i);
            }
            i += 1;
        }
        None
    }

    /// The entry for `key`, if there is one.
    pub fn get(&self, key: &str) -> (entry: Option<&V>)
        ensures
            entry is Some <==> self@.contains_key(key@),
            entry matches Some(v) ==> *v == self@[key@],
    {
        match self.find(key) {
            Some(i) => Some(&self.entries[i].1),
            None => None,
        }
    }

    /// Takes the entry for `key` out of the table, if there is one.
    pub fn take(&mut self, key: &str) -> (entry: Option<V>)
        ensures
            final(self)@ == old(self)@.remove(key@),
            entry is Some <==> old(self)@.contains_key(key@),
            entry matches Some(v) ==> v == old(self)@[key@],
    {
        proof {
            use_type_invariant(&*self);
        }
        match self.find(key) {
            Some(i) => {
                let ghost before = self.entries@;
                let mut entries: Vec<(String, V)> = Vec::new();
                std::mem::swap(&mut entries, &mut self.entries);
                let (_, value) = entries.swap_remove(i);
                proof {
                    lemma_swap_removed(before, entries@, i as int, key@);
                }
                self.entries = entries;
                Some(value)
            },
            None => {
                assert(self@ =~= old(self)@.remove(key@));
                None
            },
        }
    }

    /// Makes `value` the entry for `key`, in the place of the one that it may have.
    pub fn put(&mut self, key: String, value: V)
        ensures
            final(self)@ == old(self)@.insert(key@, value),
    {
        let ghost start = self@;
        let _ = self.take(key.as_str());
        proof {
            use_type_invariant(&*self);
        }
        let ghost before = self.entries@;
        let mut entries: Vec<(String, V)> = Vec::new();
        std::mem::swap(&mut entries, &mut self.entries);
        entries.push((key, value));
        proof {
            assert(entries@.drop_last() =~= before);
            lemma_pushed(before, entries@, key@, value);
        }
        self.entries = entries;
        assert(self@ =~= start.insert(key@, value));
    }

    /// The symbols that have an entry, each of them once.
    pub fn keys(&self) -> (keys: Vec<String>)
        ensures
            texts(keys@).no_duplicates(),
            forall|key: Seq<char>| texts(keys@).contains(key) <==> self@.contains_key(key),
    {
        proof {
            use_type_invariant(self);
        }
        let mut keys: Vec<String> = Vec::new();
        let mut i: usize = 0;
        while i < self.entries.len()
            invariant
                i <= self.entries@.len(),
                keys@.len() == i,
                forall|k: int| 0 <= k < i ==> (#[trigger] keys@[k])@ == self.entries@[k].0@,
            decreases self.entries@.len() - i,
        {
            keys.push(self.entries[i].0.clone());
            i += 1;
        }
        assert forall|key: Seq<char>| texts(keys@).contains(key) <==> self@.contains_key(key) by {
            if texts(keys@).contains(key) {
                let k = choose|k: int| 0 <= k < texts(keys@).len() && texts(keys@)[k] == key;
                assert(keys@[k]@ == key);
                assert(self.entries@[k].0@ == key);
            }
            if self@.contains_key(key) {
                let k = place(self.entries@, key);
                assert(self.entries@[k].0@ == key);
                assert(keys@[k]@ == key);
                assert(texts(keys@)[k] == key);
            }
        }
        assert forall|a: int, b: int|
            0 <= a < texts(keys@).len() && 0 <= b < texts(keys@).len() && a
                != b implies texts(keys@)[a] != texts(keys@)[b] by {
            assert(keys@[a]@ == self.entries@[a].0@);
            assert(keys@[b]@ == self.entries@[b].0@);
            assert(a < b || b < a);
        }
        keys
    }
}

proof fn lemma_swap_removed<V>(
    before: Seq<(String, V)>,
    after: Seq<(String, V)>,
    i: int,
    key: Seq<char>,
)
    requires
        distinct(before),
        0 <= i < before.len(),
        before[i].0@ == key,
        after == before.update(i, before.last()).drop_last(),
    ensures
        distinct(after),
        contents(after) == contents(before).remove(key),
{
    let last = before.len() - 1;
    assert forall|k: Seq<char>|
        contents(after).contains_key(k) <==> contents(before).remove(key).contains_key(k) by {
        if contents(after).contains_key(k) {
            let j = place(after, k);
            assert(after[j].0@ == k);
            let from = if j == i { last } else { j };
            assert(before[from].0@ == k);
            assert(k != key);
        }
        if contents(before).remove(key).contains_key(k) {
            let j = place(before, k);
            assert(before[j].0@ == k);
            assert(j != i);
            let to = if j == last { i } else { j };
            assert(after[to].0@ == k);
        }
    }
    assert forall|k: Seq<char>| contents(after).contains_key(k) implies contents(after)[k]
        == contents(before)[k] by {
        let j = place(after, k);
        assert(after[j].0@ == k);
        let from = if j == i { last } else { j };
        assert(before[from].0@ == k);
        assert(place(before, k) == from);
    }
    assert(contents(after) =~= contents(before).remove(key));
}

proof fn lemma_pushed<V>(
    before: Seq<(String, V)>,
    after: Seq<(String, V)>,
    key: Seq<char>,
    value: V,
)
    requires
        distinct(before),
        !contents(before).contains_key(key),
        after.len() == before.len() + 1,
        after.drop_last() == before,
        after.last().0@ == key,
        after.last().1 == value,
    ensures
        distinct(after),
        contents(after) == contents(before).insert(key, value),
{
    let last = before.len() as int;
    assert forall|k: int| 0 <= k < last implies after[k] == before[k] by {
        assert(after.drop_last()[k] == before[k]);
    }
    assert forall|k: Seq<char>|
        contents(after).contains_key(k) <==> contents(before).insert(key, value).contains_key(k) by {
        if contents(after).contains_key(k) {
            let j = place(after, k);
            assert(after[j].0@ == k);
            if j < last {
                assert(before[j].0@ == k);
            }
        }
        if contents(before).contains_key(k) {
            let j = place(before, k);
            assert(before[j].0@ == k);
            assert(after[j].0@ == k);
        }
        if k == key {
            assert(after[last].0@ == k);
        }
    }
    assert forall|k: Seq<char>| contents(after).contains_key(k) implies contents(after)[k]
        == contents(before).insert(key, value)[k] by {
        let j = place(after, k);
        assert(after[j].0@ == k);
        if k == key {
            if j < last {
                assert(before[j].0@ == k);
            }
        } else {
            assert(before[j].0@ == k);
            assert(place(before, k) == j);
        }
    }
    assert(contents(after) =~= contents(before).insert(key, value));
}

} // verus!
