use vstd::prelude::*;

verus! {

/// The map that a sequence of `(name, value)` entries stands for: the entries
/// are read in order, and a later entry for a name replaces an earlier one.
pub open spec fn entries_map<V>(entries: Seq<(String, V)>) -> Map<Seq<char>, V>
    decreases entries.len(),
{
    if entries.len() == 0 {
        Map::empty()
    } else {
        let last = entries.last();
        entries_map(entries.drop_last()).insert(last.0@, last.1)
    }
}

/// `i` is the last position of `entries` whose name is `k`.
pub open spec fn is_last_match<V>(entries: Seq<(String, V)>, k: Seq<char>, i: int) -> bool {
    &&& 0 <= i < entries.len()
    &&& entries[i].0@ == k
    &&& forall|j: int| i < j < entries.len() ==> (#[trigger] entries[j]).0@ != k
}

/// The value at the last position that carries a name is the one the map holds.
proof fn lemma_last_match<V>(entries: Seq<(String, V)>, k: Seq<char>, i: int)
    requires
        is_last_match(entries, k, i),
    ensures
        entries_map(entries).contains_key(k),
        entries_map(entries)[k] == entries[i].1,
    decreases entries.len(),
{
    if i < entries.len() - 1 {
        let prefix = entries.drop_last();
        assert(entries[entries.len() - 1].0@ != k);
        assert forall|j: int| i < j < prefix.len() implies (#[trigger] prefix[j]).0@ != k by {
            assert(prefix[j] == entries[j]);
        }
        lemma_last_match(prefix, k, i);
    }
}

/// A name that no entry carries is not in the map.
proof fn lemma_no_match<V>(entries: Seq<(String, V)>, k: Seq<char>)
    requires
        forall|j: int| 0 <= j < entries.len() ==> (#[trigger] entries[j]).0@ != k,
    ensures
        !entries_map(entries).contains_key(k),
    decreases entries.len(),
{
    if entries.len() > 0 {
        let prefix = entries.drop_last();
        assert forall|j: int| 0 <= j < prefix.len() implies (#[trigger] prefix[j]).0@ != k by {
            assert(prefix[j] == entries[j]);
        }
        lemma_no_match(prefix, k);
    }
}

/// A table of values keyed by name, built once from its entries.
pub struct NamedTable<V> {
    entries: Vec<(String, V)>,
}

impl<V> View for NamedTable<V> {
    type V = Map<Seq<char>, V>;

    closed spec fn view(&self) -> Map<Seq<char>, V> {
        entries_map(self.entries@)
    }
}

impl<V> NamedTable<V> {
    /// The table that inserting each entry in turn gives: where a name occurs
    /// more than once, its last value wins.
    pub fn from_entries(entries: Vec<(String, V)>) -> (r: Self)
        ensures
            r@ == entries_map(entries@),
    {
        NamedTable { entries }
    }

    /// Position of the entry that holds the value of `name`.
    fn position(&self, name: &String) -> (r: Option<usize>)
        ensures
            match r {
                Some(i) => is_last_match(self.entries@, name@, i as int),
                None => forall|j: int|
                    0 <= j < self.entries@.len() ==> (#[trigger] self.entries@[j]).0@ != name@,
            },
    {
        let mut i: usize = self.entries.len();
        while i > 0
            invariant
                i <= self.entries@.len(),
                forall|j: int|
                    i <= j < self.entries@.len() ==> (#[trigger] self.entries@[j]).0@ != name@,
            decreases i,
        {
            i = i - 1;
            if self.entries[i].0 == *name {
                return Some(i);
            }
        }
        None
    }

    /// The value held for `name`, if there is one.
    pub fn get(&self, name: &str) -> (r: Option<&V>)
        ensures
            match r {
                Some(v) => self@.contains_key(name@) && *v == self@[name@],
                None => !self@.contains_key(name@),
            },
    {
        let key = name.to_owned();
        match self.position(&key) {
            Some(i) => {
                proof {
                    lemma_last_match(self.entries@, name@, i as int);
                }
                Some(&self.entries[i].1)
            },
            None => {
                proof {
                    lemma_no_match(self.entries@, name@);
                }
                None
            },
        }
    }
}

} // verus!
