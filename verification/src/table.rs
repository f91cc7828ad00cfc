//! A small map from names to values, kept as a list without repeated names.
use vstd::prelude::*;
use crate::text::same_text;

verus! {

/// Whether some entry has the name `k`.
pub open spec fn listed<V>(entries: Seq<(String, V)>, k: Seq<char>) -> bool {
    exists|i: int| 0 <= i < entries.len() && (#[trigger] entries[i]).0@ == k
}

/// The place of the entry with the name `k`.
pub open spec fn place<V>(entries: Seq<(String, V)>, k: Seq<char>) -> int {
    choose|i: int| 0 <= i < entries.len() && (#[trigger] entries[i]).0@ == k
}

/// What a list of named values stands for.
pub open spec fn as_map<V>(entries: Seq<(String, V)>) -> Map<Seq<char>, V> {
    Map::new(|k: Seq<char>| listed(entries, k), |k: Seq<char>| entries[place(entries, k)].1)
}

/// No two entries share a name.
pub open spec fn distinct<V>(entries: Seq<(String, V)>) -> bool {
    forall|i: int, j: int|
        0 <= i < j < entries.len() ==> (#[trigger] entries[i]).0@ != (#[trigger] entries[j]).0@
}

/// A map from names to values.
pub struct Table<V> {
    entries: Vec<(String, V)>,
}

impl<V> View for Table<V> {
    type V = Map<Seq<char>, V>;

    closed spec fn view(&self) -> Map<Seq<char>, V> {
        as_map(self.entries@)
    }
}

/// Each entry of a list without repeated names is what the map holds under its name.
pub proof fn lemma_entry<V>(entries: Seq<(String, V)>, i: int)
    requires
        distinct(entries),
        0 <= i < entries.len(),
    ensures
        as_map(entries).contains_key(entries[i].0@),
        as_map(entries)[entries[i].0@] == entries[i].1,
{
    let k = entries[i].0@;
    assert(listed(entries, k));
    let p = place(entries, k);
    assert(0 <= p < entries.len() && entries[p].0@ == k);
    assert(p == i);
}

impl<V> Table<V> {
    /// The entries.
    pub closed spec fn list(&self) -> Seq<(String, V)> {
        self.entries@
    }

    #[verifier::type_invariant]
    spec fn well_formed(self) -> bool {
        distinct(self.entries@)
    }

    /// An empty table.
    pub fn new() -> (t: Table<V>)
        ensures
            t@ == Map::<Seq<char>, V>::empty(),
            t.list() == Seq::<(String, V)>::empty(),
    {
        let t: Table<V> = Table { entries: Vec::new() };
        assert(t@ =~= Map::<Seq<char>, V>::empty());
        t
    }

    /// The number of names.
    pub fn len(&self) -> (n: usize)
        ensures
            n == self.list().len(),
            distinct(self.list()),
            self@ == as_map(self.list()),
            self@.dom().finite(),
            n == self@.dom().len(),
    {
        proof {
            use_type_invariant(self);
            lemma_as_map_len(self.entries@);
        }
        self.entries.len()
    }

    /// The name of the entry at `i`.
    pub fn name_at(&self, i: usize) -> (name: &String)
        requires
            i < self.list().len(),
        ensures
            *name == self.list()[i as int].0,
    {
        &self.entries[i].0
    }

    /// The value of the entry at `i`.
    pub fn value_at(&self, i: usize) -> (value: &V)
        requires
            i < self.list().len(),
        ensures
            *value == self.list()[i as int].1,
    {
        &self.entries[i].1
    }

    /// The place of the entry with that name.
    fn find(&self, name: &str) -> (at: Option<usize>)
        ensures
            match at {
                Some(i) => i < self.entries@.len() && self.entries@[i as int].0@ == name@,
                None => !listed(self.entries@, name@),
            },
    {
        let mut i: usize = 0;
        while i < self.entries.len()
            invariant
                i <= self.entries@.len(),
                forall|j: int| 0 <= j < i ==> (#[trigger] self.entries@[j]).0@ != name@,
            decreases self.entries@.len() - i,
        {
            if same_text(self.entries[i].0.as_str(), name) {
                return Some(i);
            }
            i += 1;
        }
        None
    }

    /// The value under that name.
    pub fn get(&self, name: &str) -> (value: Option<&V>)
        ensures
            match value {
                Some(v) => self@.contains_key(name@) && *v == self@[name@],
                None => !self@.contains_key(name@),
            },
    {
        proof {
            use_type_invariant(self);
        }
        match self.find(name) {
            Some(i) => {
                proof {
                    lemma_entry(self.entries@, i as int);
                }
                Some(&self.entries[i].1)
            },
            None => None,
        }
    }

    /// Whether there is a value under that name.
    pub fn contains(&self, name: &str) -> (yes: bool)
        ensures
            yes == self@.contains_key(name@),
    {
        match self.get(name) {
            Some(_) => true,
            None => false,
        }
    }

    /// Puts a value under a name, in place of the one that was there.
    pub fn put(&mut self, name: String, value: V)
        ensures
            final(self)@ == old(self)@.insert(name@, value),
    {
        proof {
            use_type_invariant(&*self);
        }
        let mut entries: Vec<(String, V)> = Vec::new();
        std::mem::swap(&mut entries, &mut self.entries);
        let ghost before = entries@;
        let mut i: usize = 0;
        while i < entries.len()
            invariant
                entries@ == before,
                i <= entries@.len(),
                forall|j: int| 0 <= j < i ==> (#[trigger] before[j]).0@ != name@,
            ensures
                entries@ == before,
                i <= entries@.len(),
                forall|j: int| 0 <= j < i ==> (#[trigger] before[j]).0@ != name@,
                i < entries@.len() ==> before[i as int].0@ == name@,
            decreases entries@.len() - i,
        {
            if same_text(entries[i].0.as_str(), name.as_str()) {
                break;
            }
            i += 1;
        }
        let ghost pair = (name, value);
        if i < entries.len() {
            entries.set(i, (name, value));
            proof {
                assert(entries@ =~= before.update(i as int, pair));
            }
        } else {
            entries.push((name, value));
            proof {
                assert(entries@ =~= before.push(pair));
            }
        }
        proof {
            lemma_put(before, i as int, pair, entries@);
        }
        self.entries = entries;
    }

    /// Takes out the value under a name.
    pub fn take(&mut self, name: &str) -> (value: Option<V>)
        ensures
            final(self)@ == old(self)@.remove(name@),
            match value {
                Some(v) => old(self)@.contains_key(name@) && v == old(self)@[name@],
                None => !old(self)@.contains_key(name@),
            },
    {
        proof {
            use_type_invariant(&*self);
        }
        match self.find(name) {
            Some(i) => {
                let mut entries: Vec<(String, V)> = Vec::new();
                std::mem::swap(&mut entries, &mut self.entries);
                let ghost before = entries@;
                proof {
                    lemma_entry(before, i as int);
                }
                let pair: (String, V) = entries.remove(i);
                proof {
                    lemma_take(before, i as int);
                    assert(entries@ =~= before.remove(i as int));
                }
                self.entries = entries;
                Some(pair.1)
            },
            None => {
                proof {
                    assert(self@.remove(name@) =~= self@);
                }
                None
            },
        }
    }
}

/// Putting a pair over the entry with its name, or behind all others where there is none.
pub proof fn lemma_put<V>(before: Seq<(String, V)>, i: int, pair: (String, V), after: Seq<(String, V)>)
    requires
        distinct(before),
        0 <= i <= before.len(),
        forall|j: int| 0 <= j < i ==> (#[trigger] before[j]).0@ != pair.0@,
        i < before.len() ==> before[i].0@ == pair.0@ && after == before.update(i, pair),
        i == before.len() ==> after == before.push(pair),
    ensures
        distinct(after),
        as_map(after) == as_map(before).insert(pair.0@, pair.1),
{
    assert(distinct(after));
    assert forall|k: Seq<char>| #[trigger]
        as_map(after).contains_key(k) <==> as_map(before).insert(pair.0@, pair.1).contains_key(
            k,
        ) by {
        if k == pair.0@ {
            assert(after[i].0@ == k);
        } else {
            if listed(after, k) {
                let p = place(after, k);
                assert(before[p].0@ == k);
            }
            if listed(before, k) {
                let p = place(before, k);
                assert(after[p].0@ == k);
            }
        }
    }
    assert forall|k: Seq<char>| as_map(after).contains_key(k) implies #[trigger] as_map(after)[k]
        == as_map(before).insert(pair.0@, pair.1)[k] by {
        let p = place(after, k);
        lemma_entry(after, p);
        if k == pair.0@ {
            assert(after[i].0@ == k);
            assert(p == i);
        } else {
            assert(before[p].0@ == k);
            lemma_entry(before, p);
        }
    }
    assert(as_map(after) =~= as_map(before).insert(pair.0@, pair.1));
}

/// A list without repeated names stands for a map with as many names as the list is long.
pub proof fn lemma_as_map_len<V>(entries: Seq<(String, V)>)
    requires
        distinct(entries),
    ensures
        as_map(entries).dom().finite(),
        as_map(entries).dom().len() == entries.len(),
    decreases entries.len(),
{
    if entries.len() == 0 {
        assert(as_map(entries) =~= Map::<Seq<char>, V>::empty());
    } else {
        let front = entries.drop_last();
        assert(front.push(entries.last()) =~= entries);
        lemma_as_map_len(front);
        lemma_put(front, front.len() as int, entries.last(), entries);
        if as_map(front).contains_key(entries.last().0@) {
            let p = place(front, entries.last().0@);
            assert(entries[p].0@ == entries[entries.len() - 1].0@);
        }
        assert(as_map(entries).dom() =~= as_map(front).dom().insert(entries.last().0@));
    }
}

proof fn lemma_take<V>(before: Seq<(String, V)>, i: int)
    requires
        distinct(before),
        0 <= i < before.len(),
    ensures
        distinct(before.remove(i)),
        as_map(before.remove(i)) == as_map(before).remove(before[i].0@),
{
    let after = before.remove(i);
    let name = before[i].0@;
    assert(forall|j: int|
        0 <= j < after.len() ==> #[trigger] after[j] == (if j < i {
            before[j]
        } else {
            before[j + 1]
        }));
    assert forall|k: Seq<char>| #[trigger]
        as_map(after).contains_key(k) <==> as_map(before).remove(name).contains_key(k) by {
        if listed(after, k) {
            let p = place(after, k);
            let q = if p < i {
                p
            } else {
                p + 1
            };
            assert(after[p] == before[q]);
            assert(before[q].0@ == k);
        }
        if k != name && listed(before, k) {
            let q = place(before, k);
            let p = if q < i {
                q
            } else {
                q - 1
            };
            assert(q != i);
            assert(after[p] == before[q]);
        }
    }
    assert forall|k: Seq<char>| as_map(after).contains_key(k) implies #[trigger] as_map(after)[k]
        == as_map(before).remove(name)[k] by {
        let p = place(after, k);
        let q = if p < i {
            p
        } else {
            p + 1
        };
        assert(after[p] == before[q]);
        lemma_entry(before, q);
    }
    assert(as_map(after) =~= as_map(before).remove(name));
}

} // verus!
