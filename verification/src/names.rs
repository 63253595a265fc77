//! A map from names to values, kept as a list in which no name stands twice.

use vstd::prelude::*;

verus! {

/// No two entries have the same name.
pub open spec fn distinct_names<V>(entries: Seq<(String, V)>) -> bool {
    forall|i: int, j: int|
        0 <= i < j < entries.len() ==> (#[trigger] entries[i]).0@ != (#[trigger] entries[j]).0@
}

/// The map that a list of entries stands for: each name with its value,
/// and where a name stands twice, with the value of its last entry.
pub open spec fn entries_map<V>(entries: Seq<(String, V)>) -> Map<Seq<char>, V>
    decreases entries.len(),
{
    if entries.len() == 0 {
        Map::empty()
    } else {
        entries_map(entries.drop_last()).insert(entries.last().0@, entries.last().1)
    }
}

/// The list with the entry `(name, value)` in the place of each entry of
/// that name.
pub open spec fn renew<V>(entries: Seq<(String, V)>, name: String, value: V) -> Seq<(String, V)> {
    Seq::new(
        entries.len(),
        |i: int|
            if entries[i].0@ == name@ {
                (name, value)
            } else {
                entries[i]
            },
    )
}

/// A name stands in a list of entries.
pub open spec fn has_name<V>(entries: Seq<(String, V)>, name: Seq<char>) -> bool {
    exists|i: int| 0 <= i < entries.len() && (#[trigger] entries[i]).0@ == name
}

/// The list after `value` was put under `name`: in the place of the entry
/// of that name, or at the end where the list has no such entry.
pub open spec fn put<V>(entries: Seq<(String, V)>, name: String, value: V) -> Seq<(String, V)> {
    if has_name(entries, name@) {
        renew(entries, name, value)
    } else {
        entries.push((name, value))
    }
}

/// The list after each entry of `entries` was put into an empty list, one
/// after the other.
pub open spec fn gathered<V>(entries: Seq<(String, V)>) -> Seq<(String, V)>
    decreases entries.len(),
{
    if entries.len() == 0 {
        entries
    } else {
        put(gathered(entries.drop_last()), entries.last().0, entries.last().1)
    }
}

/// The names of a list of entries are the keys of its map, and where no name
/// stands twice each entry gives the value of its name.
pub proof fn lemma_entries_map<V>(entries: Seq<(String, V)>)
    ensures
        entries_map(entries).dom().finite(),
        forall|name: Seq<char>|
            #![trigger entries_map(entries).contains_key(name)]
            #![trigger has_name(entries, name)]
            entries_map(entries).contains_key(name) <==> has_name(entries, name),
        distinct_names(entries) ==> forall|i: int|
            0 <= i < entries.len() ==> entries_map(entries)[(#[trigger] entries[i]).0@]
                == entries[i].1,
    decreases entries.len(),
{
    if entries.len() > 0 {
        let front = entries.drop_last();
        lemma_entries_map(front);
        assert forall|name: Seq<char>|
            #![trigger entries_map(entries).contains_key(name)]
            #![trigger has_name(entries, name)]
            entries_map(entries).contains_key(name) <==> has_name(entries, name) by {
            if entries_map(entries).contains_key(name) {
                if name == entries.last().0@ {
                    assert(entries[entries.len() - 1].0@ == name);
                } else {
                    assert(entries_map(front).contains_key(name));
                    assert(has_name(front, name));
                    let i = choose|i: int| 0 <= i < front.len() && (#[trigger] front[i]).0@ == name;
                    assert(entries[i].0@ == name);
                }
            }
            if has_name(entries, name) {
                let i = choose|i: int| 0 <= i < entries.len() && (#[trigger] entries[i]).0@ == name;
                if i < front.len() {
                    assert(front[i].0@ == name);
                }
            }
        }
        if distinct_names(entries) {
            assert forall|i: int| 0 <= i < entries.len() implies entries_map(entries)[(
            #[trigger] entries[i]).0@] == entries[i].1 by {
                if i < front.len() {
                    assert(front[i] == entries[i]);
                    assert(entries[i].0@ != entries[entries.len() - 1].0@);
                }
            }
        }
    }
}

/// A list in which no name stands twice stays as it is when its entries are
/// gathered.
pub proof fn lemma_gathered_distinct<V>(entries: Seq<(String, V)>)
    requires
        distinct_names(entries),
    ensures
        gathered(entries) == entries,
    decreases entries.len(),
{
    if entries.len() > 0 {
        let front = entries.drop_last();
        lemma_gathered_distinct(front);
        assert(front.push(entries.last()) =~= entries);
    }
}

/// Giving a name that a list holds a new value gives the map that value
/// under that name, and leaves it as it was elsewhere.
proof fn lemma_entries_map_update<V>(entries: Seq<(String, V)>, at: int, entry: (String, V))
    requires
        distinct_names(entries),
        0 <= at < entries.len(),
        entries[at].0@ == entry.0@,
    ensures
        distinct_names(entries.update(at, entry)),
        entries_map(entries.update(at, entry)) == entries_map(entries).insert(entry.0@, entry.1),
{
    let updated = entries.update(at, entry);
    lemma_entries_map(entries);
    lemma_entries_map(updated);
    let expected = entries_map(entries).insert(entry.0@, entry.1);
    assert forall|name: Seq<char>|
        entries_map(updated).contains_key(name) <==> expected.contains_key(name) by {
        if entries_map(updated).contains_key(name) {
            assert(has_name(updated, name));
            let i = choose|i: int| 0 <= i < updated.len() && (#[trigger] updated[i]).0@ == name;
            assert(entries[i].0@ == name);
            assert(has_name(entries, name));
        }
        if expected.contains_key(name) {
            if name == entry.0@ {
                assert(updated[at].0@ == name);
            } else {
                assert(has_name(entries, name));
                let i = choose|i: int| 0 <= i < entries.len() && (#[trigger] entries[i]).0@ == name;
                assert(updated[i].0@ == name);
            }
            assert(has_name(updated, name));
        }
    }
    assert(entries_map(updated) =~= expected);
}

/// Finds the place of the entry with the name `name`.
fn find_name<V>(entries: &Vec<(String, V)>, name: &String) -> (at: Option<usize>)
    ensures
        match at {
            Some(at) => at < entries@.len() && entries@[at as int].0@ == name@,
            None => forall|i: int|
                0 <= i < entries@.len() ==> (#[trigger] entries@[i]).0@ != name@,
        },
{
    let mut i: usize = 0;
    while i < entries.len()
        invariant
            i <= entries.len(),
            forall|k: int| 0 <= k < i ==> (#[trigger] entries@[k]).0@ != name@,
        decreases entries.len() - i,
    {
        if entries[i].0 == *name {
            return Some(i);
        }
        i += 1;
    }
    None
}

/// A map from names to values.
#[derive(Debug)]
pub struct NameMap<V> {
    entries: Vec<(String, V)>,
}

impl<V> View for NameMap<V> {
    type V = Map<Seq<char>, V>;

    closed spec fn view(&self) -> Map<Seq<char>, V> {
        entries_map(self.entries@)
    }
}

impl<V: Clone> Clone for NameMap<V> {
    /// Copies the map entry by entry: the names as they are, each value by
    /// its own `clone`.
    fn clone(&self) -> (copy: NameMap<V>)
        ensures
            copy.listing().len() == self.listing().len(),
            forall|i: int|
                0 <= i < self.listing().len() ==> (#[trigger] copy.listing()[i]).0
                    == self.listing()[i].0 && cloned(self.listing()[i].1, copy.listing()[i].1),
    {
        proof {
            use_type_invariant(self);
        }
        let mut entries: Vec<(String, V)> = Vec::new();
        let mut i: usize = 0;
        while i < self.entries.len()
            invariant
                i <= self.entries.len(),
                entries@.len() == i,
                distinct_names(self.entries@),
                forall|k: int|
                    0 <= k < i ==> (#[trigger] entries@[k]).0 == self.entries@[k].0 && cloned(
                        self.entries@[k].1,
                        entries@[k].1,
                    ),
            decreases self.entries.len() - i,
        {
            entries.push((self.entries[i].0.clone(), self.entries[i].1.clone()));
            i += 1;
        }
        NameMap { entries }
    }
}

impl<V> NameMap<V> {
    #[verifier::type_invariant]
    spec fn no_name_twice(&self) -> bool {
        distinct_names(self.entries@)
    }

    /// The entries in the order in which their names came into the map.
    pub closed spec fn listing(&self) -> Seq<(String, V)> {
        self.entries@
    }

    /// The map is the map of its listing: it has the names that stand in
    /// the listing and no others.
    pub proof fn lemma_listing(&self)
        ensures
            self@ == entries_map(self.listing()),
            forall|name: Seq<char>|
                #![trigger self@.contains_key(name)]
                #![trigger has_name(self.listing(), name)]
                self@.contains_key(name) <==> has_name(self.listing(), name),
    {
        lemma_entries_map(self.listing());
    }

    /// The map without entries.
    pub fn new() -> (made: NameMap<V>)
        ensures
            made@ == Map::<Seq<char>, V>::empty(),
            made.listing() == Seq::<(String, V)>::empty(),
    {
        NameMap { entries: Vec::new() }
    }

    /// The map of a list of entries, put into it one after the other.
    /// Where a name stands twice in the list, the value of its last entry
    /// stays, in the place of its first.
    pub fn from_entries(entries: Vec<(String, V)>) -> (made: NameMap<V>)
        ensures
            made@ == entries_map(entries@),
            made.listing() == gathered(entries@),
    {
        let mut made: NameMap<V> = NameMap::new();
        let ghost all = entries@;
        for entry in it: entries
            invariant
                it.seq() == all,
                made@ == entries_map(all.take(it.index() as int)),
                made.listing() == gathered(all.take(it.index() as int)),
        {
            proof {
                assert(all.take(it.index() + 1).drop_last() =~= all.take(it.index() as int));
            }
            made.insert(entry.0, entry.1);
        }
        proof {
            assert(all.take(all.len() as int) =~= all);
        }
        made
    }

    /// The entries of the map; no name stands twice among them.
    pub fn entries(&self) -> (entries: &Vec<(String, V)>)
        ensures
            entries@ == self.listing(),
            distinct_names(entries@),
            entries_map(entries@) == self@,
    {
        proof {
            use_type_invariant(self);
        }
        &self.entries
    }

    /// The number of entries.
    pub fn len(&self) -> (len: usize)
        ensures
            len == self.listing().len(),
    {
        self.entries.len()
    }

    /// Tells whether the map has no entries.
    pub fn is_empty(&self) -> (empty: bool)
        ensures
            empty == (self.listing().len() == 0),
            empty == (self@ == Map::<Seq<char>, V>::empty()),
    {
        proof {
            lemma_entries_map(self.entries@);
            if self.entries@.len() > 0 {
                assert(self.entries@[0].0@ == self.entries@[0].0@);
                assert(has_name(self.entries@, self.entries@[0].0@));
            }
        }
        self.entries.len() == 0
    }

    /// The value that stands under `name`, if the map has that name.
    pub fn get(&self, name: &String) -> (found: Option<&V>)
        ensures
            match found {
                Some(value) => self@.contains_key(name@) && *value == self@[name@],
                None => !self@.contains_key(name@),
            },
    {
        proof {
            use_type_invariant(self);
            lemma_entries_map(self.entries@);
        }
        match find_name(&self.entries, name) {
            Some(at) => {
                assert(self.entries@[at as int].0@ == name@);
                assert(has_name(self.entries@, name@));
                Some(&self.entries[at].1)
            },
            None => None,
        }
    }

    /// Puts `value` under `name` and hands back the value that stood there
    /// before, if any. A new name goes to the end of the listing; a name that
    /// the map has keeps its place.
    pub fn insert(&mut self, name: String, value: V) -> (previous: Option<V>)
        ensures
            final(self)@ == old(self)@.insert(name@, value),
            previous == (if old(self)@.contains_key(name@) {
                Some(old(self)@[name@])
            } else {
                None::<V>
            }),
            final(self).listing() == put(old(self).listing(), name, value),
    {
        proof {
            use_type_invariant(&*self);
            lemma_entries_map(self.entries@);
        }
        let mut entries: Vec<(String, V)> = Vec::new();
        core::mem::swap(&mut self.entries, &mut entries);
        let ghost before = entries@;
        let previous = match find_name(&entries, &name) {
            Some(at) => {
                proof {
                    lemma_entries_map_update(before, at as int, (name, value));
                    assert(before.remove(at as int).insert(at as int, (name, value))
                        =~= before.update(at as int, (name, value)));
                    assert(before.update(at as int, (name, value)) =~= renew(before, name, value));
                }
                let replaced = entries.remove(at);
                entries.insert(at, (name, value));
                Some(replaced.1)
            },
            None => {
                proof {
                    let pushed = before.push((name, value));
                    assert(pushed.drop_last() =~= before);
                }
                entries.push((name, value));
                None
            },
        };
        self.entries = entries;
        previous
    }
}

} // verus!
