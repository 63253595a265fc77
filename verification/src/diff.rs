//! What changed between two sets of pinned dependencies.

use vstd::prelude::*;
use vstd::string::StringExecFns;
use crate::names::{entries_map, lemma_entries_map, NameMap};
use crate::pipfile_lock::Dependency;

verus! {

/// The entries of `these` whose names `those` does not have.
pub open spec fn only_in(
    these: Map<Seq<char>, Dependency>,
    those: Map<Seq<char>, Dependency>,
) -> Map<Seq<char>, Dependency> {
    Map::new(
        |name: Seq<char>| these.contains_key(name) && !those.contains_key(name),
        |name: Seq<char>| these[name],
    )
}

/// The names that both `new` and `old` have, but with different values, and
/// under each the new value and then the old one. Values are the same when
/// they read the same.
pub open spec fn changed_between(
    new: Map<Seq<char>, Dependency>,
    old: Map<Seq<char>, Dependency>,
) -> Map<Seq<char>, (Dependency, Dependency)> {
    Map::new(
        |name: Seq<char>|
            new.contains_key(name) && old.contains_key(name) && new[name]@ != old[name]@,
        |name: Seq<char>| (new[name], old[name]),
    )
}

/// A set of dependencies does not differ from itself.
pub proof fn lemma_no_difference(these: Map<Seq<char>, Dependency>)
    ensures
        changed_between(these, these) == Map::<Seq<char>, (Dependency, Dependency)>::empty(),
        only_in(these, these) == Map::<Seq<char>, Dependency>::empty(),
{
    assert(changed_between(these, these) =~= Map::<Seq<char>, (Dependency, Dependency)>::empty());
    assert(only_in(these, these) =~= Map::<Seq<char>, Dependency>::empty());
}

/// Every dependency of the new set is new, changed or pinned as in the old
/// set, and is one of these only; and what is new seen from one side is
/// deleted seen from the other.
pub proof fn lemma_difference_sorts_every_name(
    new: Map<Seq<char>, Dependency>,
    old: Map<Seq<char>, Dependency>,
    name: Seq<char>,
)
    requires
        new.contains_key(name),
    ensures
        only_in(new, old).contains_key(name) <==> !old.contains_key(name),
        changed_between(new, old).contains_key(name) <==> old.contains_key(name) && new[name]@
            != old[name]@,
        !(only_in(new, old).contains_key(name) && changed_between(new, old).contains_key(name)),
        !only_in(old, new).contains_key(name),
        changed_between(old, new).contains_key(name) <==> changed_between(new, old).contains_key(
            name,
        ),
{
}

/// Tells whether an entry has a name that `those` does not have.
pub open spec fn absent_from(those: Map<Seq<char>, Dependency>) -> spec_fn(
    (String, Dependency),
) -> bool {
    |entry: (String, Dependency)| !those.contains_key(entry.0@)
}

/// For an entry whose name `old` has with another value, the entry of the
/// change: the name, the value of the entry and the value in `old`.
pub open spec fn change_from(old: Map<Seq<char>, Dependency>) -> spec_fn(
    (String, Dependency),
) -> Option<(String, (Dependency, Dependency))> {
    |entry: (String, Dependency)|
        if old.contains_key(entry.0@) && entry.1@ != old[entry.0@]@ {
            Some((entry.0, (entry.1, old[entry.0@])))
        } else {
            None
        }
}

/// The line that reports a dependency: its name and what it is pinned to.
pub open spec fn entry_line(name: Seq<char>, pin: Seq<char>) -> Seq<char> {
    "  "@ + name + ": "@ + pin
}

/// The line that reports a changed dependency: its name, what it was pinned
/// to, and what it is pinned to now.
pub open spec fn change_line(name: Seq<char>, old_pin: Seq<char>, new_pin: Seq<char>) -> Seq<
    char,
> {
    "  "@ + name + ": "@ + old_pin + " => "@ + new_pin
}

/// One line for each dependency.
pub open spec fn entry_lines(entries: Seq<(String, Dependency)>) -> Seq<Seq<char>> {
    entries.map_values(|entry: (String, Dependency)| entry_line(entry.0@, entry.1@.rendered()))
}

/// One line for each changed dependency.
pub open spec fn change_lines(entries: Seq<(String, (Dependency, Dependency))>) -> Seq<
    Seq<char>,
> {
    entries.map_values(
        |entry: (String, (Dependency, Dependency))|
            change_line(entry.0@, entry.1.1@.rendered(), entry.1.0@.rendered()),
    )
}

/// A part of the report: its title and its lines, or nothing at all where
/// it has no lines.
pub open spec fn section(title: Seq<char>, lines: Seq<Seq<char>>) -> Seq<Seq<char>> {
    if lines.len() == 0 {
        lines
    } else {
        seq![title] + lines
    }
}

/// What each of the lines reads.
pub open spec fn texts(lines: Seq<String>) -> Seq<Seq<char>> {
    lines.map_values(|line: String| line@)
}

/// The difference between a new and an old set of dependencies.
#[derive(Clone, Debug)]
pub struct Diff {
    /// The dependencies that both sets have, pinned differently: under each
    /// name the new pin, then the old one.
    pub changed: NameMap<(Dependency, Dependency)>,
    /// The dependencies that only the new set has.
    pub new: NameMap<Dependency>,
    /// The dependencies that only the old set has.
    pub deleted: NameMap<Dependency>,
}

impl Default for Diff {
    fn default() -> (diff: Diff)
        ensures
            diff.changed@ == Map::<Seq<char>, (Dependency, Dependency)>::empty(),
            diff.new@ == Map::<Seq<char>, Dependency>::empty(),
            diff.deleted@ == Map::<Seq<char>, Dependency>::empty(),
            diff.changed.listing() == Seq::<(String, (Dependency, Dependency))>::empty(),
            diff.new.listing() == Seq::<(String, Dependency)>::empty(),
            diff.deleted.listing() == Seq::<(String, Dependency)>::empty(),
    {
        Diff { changed: NameMap::new(), new: NameMap::new(), deleted: NameMap::new() }
    }
}

impl Diff {
    /// Tells `new` and `old` apart: which dependencies are pinned
    /// differently, which came and which went. Two pins are compared by what
    /// they read, never by rank. What changed and what came is listed in the
    /// order of `new`, what went in the order of `old`.
    pub fn compare_dependencies(new: &NameMap<Dependency>, old: &NameMap<Dependency>) -> (diff:
        Diff)
        ensures
            diff.changed@ == changed_between(new@, old@),
            diff.new@ == only_in(new@, old@),
            diff.deleted@ == only_in(old@, new@),
            diff.changed.listing() == new.listing().filter_map(change_from(old@)),
            diff.new.listing() == new.listing().filter(absent_from(old@)),
            diff.deleted.listing() == old.listing().filter(absent_from(new@)),
    {
        let mut diff = Diff::default();
        let new_entries = new.entries();
        let mut i: usize = 0;
        while i < new_entries.len()
            invariant
                i <= new_entries.len(),
                new_entries@ == new.listing(),
                crate::names::distinct_names(new_entries@),
                entries_map(new_entries@) == new@,
                diff.changed@ == changed_between(entries_map(new_entries@.take(i as int)), old@),
                diff.new@ == only_in(entries_map(new_entries@.take(i as int)), old@),
                diff.deleted@ == Map::<Seq<char>, Dependency>::empty(),
                diff.changed.listing() == new_entries@.take(i as int).filter_map(
                    change_from(old@),
                ),
                diff.new.listing() == new_entries@.take(i as int).filter(absent_from(old@)),
                diff.deleted.listing() == Seq::<(String, Dependency)>::empty(),
            decreases new_entries.len() - i,
        {
            let name = &new_entries[i].0;
            let new_dep = &new_entries[i].1;
            let ghost seen = entries_map(new_entries@.take(i as int));
            let ghost next = entries_map(new_entries@.take(i + 1));
            proof {
                assert(new_entries@.take(i + 1).drop_last() =~= new_entries@.take(i as int));
                assert(next == seen.insert(name@, *new_dep));
                lemma_entries_map(new_entries@.take(i as int));
            }
            proof {
                diff.changed.lemma_listing();
                diff.new.lemma_listing();
            }
            match old.get(name) {
                Some(old_dep) => {
                    if *new_dep != *old_dep {
                        diff.changed.insert(name.clone(), (new_dep.clone(), old_dep.clone()));
                    }
                },
                None => {
                    diff.new.insert(name.clone(), new_dep.clone());
                },
            }
            proof {
                reveal(Seq::filter);
                assert(diff.changed@ =~= changed_between(next, old@));
                assert(diff.new@ =~= only_in(next, old@));
                assert(new_entries@.take(i + 1).last() == new_entries@[i as int]);
                let changes = new_entries@.take(i as int).filter_map(change_from(old@));
                if change_from(old@)(new_entries@[i as int]) is Some {
                    assert(changes.push((*name, (*new_dep, old@[name@]))) =~= changes + seq![
                        (*name, (*new_dep, old@[name@])),
                    ]);
                }
            }
            i += 1;
        }
        proof {
            assert(new_entries@.take(new_entries@.len() as int) =~= new_entries@);
        }
        let old_entries = old.entries();
        let mut j: usize = 0;
        while j < old_entries.len()
            invariant
                j <= old_entries.len(),
                crate::names::distinct_names(old_entries@),
                entries_map(old_entries@) == old@,
                diff.changed@ == changed_between(new@, old@),
                diff.new@ == only_in(new@, old@),
                diff.deleted@ == only_in(entries_map(old_entries@.take(j as int)), new@),
                old_entries@ == old.listing(),
                diff.changed.listing() == new.listing().filter_map(change_from(old@)),
                diff.new.listing() == new.listing().filter(absent_from(old@)),
                diff.deleted.listing() == old_entries@.take(j as int).filter(absent_from(new@)),
            decreases old_entries.len() - j,
        {
            let name = &old_entries[j].0;
            let old_dep = &old_entries[j].1;
            let ghost seen = entries_map(old_entries@.take(j as int));
            let ghost next = entries_map(old_entries@.take(j + 1));
            proof {
                assert(old_entries@.take(j + 1).drop_last() =~= old_entries@.take(j as int));
                assert(next == seen.insert(name@, *old_dep));
                lemma_entries_map(old_entries@.take(j as int));
            }
            proof {
                diff.deleted.lemma_listing();
            }
            if new.get(name).is_none() {
                diff.deleted.insert(name.clone(), old_dep.clone());
            }
            proof {
                reveal(Seq::filter);
                assert(diff.deleted@ =~= only_in(next, new@));
                assert(old_entries@.take(j + 1).last() == old_entries@[j as int]);
            }
            j += 1;
        }
        proof {
            assert(old_entries@.take(old_entries@.len() as int) =~= old_entries@);
        }
        diff
    }

    /// The lines of the report on this difference: what changed, what is
    /// new and what was deleted, each part under its title, and no part
    /// that would be empty.
    pub open spec fn report_lines(&self) -> Seq<Seq<char>> {
        section("Changed:"@, change_lines(self.changed.listing())) + section(
            "New:"@,
            entry_lines(self.new.listing()),
        ) + section("Deleted:"@, entry_lines(self.deleted.listing()))
    }

    /// Writes the report on this difference, line by line.
    pub fn report(&self) -> (lines: Vec<String>)
        ensures
            texts(lines@) == self.report_lines(),
    {
        let mut lines: Vec<String> = Vec::new();
        let changed = self.changed.entries();
        let mut rows: Vec<String> = Vec::new();
        let mut i: usize = 0;
        while i < changed.len()
            invariant
                i <= changed.len(),
                texts(rows@) == change_lines(changed@.take(i as int)),
            decreases changed.len() - i,
        {
            let mut row = "  ".to_owned();
            row.append(changed[i].0.as_str());
            row.append(": ");
            row.append(changed[i].1.1.render().as_str());
            row.append(" => ");
            row.append(changed[i].1.0.render().as_str());
            proof {
                assert(row@ == change_line(
                    changed@[i as int].0@,
                    changed@[i as int].1.1@.rendered(),
                    changed@[i as int].1.0@.rendered(),
                ));
                assert(texts(rows@).len() == rows@.len());
                assert forall|k: int| 0 <= k < i implies texts(rows@.push(row))[k]
                    == change_lines(changed@.take(i + 1))[k] by {
                    assert(texts(rows@)[k] == change_lines(changed@.take(i as int))[k]);
                }
                assert(texts(rows@.push(row)) =~= change_lines(changed@.take(i + 1)));
            }
            rows.push(row);
            i += 1;
        }
        add_section(&mut lines, "Changed:", rows);
        let new_rows = entry_rows(&self.new);
        add_section(&mut lines, "New:", new_rows);
        let deleted_rows = entry_rows(&self.deleted);
        add_section(&mut lines, "Deleted:", deleted_rows);
        lines
    }
}

/// Writes one line for each entry of `entries`.
fn entry_rows(entries: &NameMap<Dependency>) -> (rows: Vec<String>)
    ensures
        texts(rows@) == entry_lines(entries.listing()),
{
    let entries = entries.entries();
    let mut rows: Vec<String> = Vec::new();
    let mut i: usize = 0;
    while i < entries.len()
        invariant
            i <= entries.len(),
            texts(rows@) == entry_lines(entries@.take(i as int)),
        decreases entries.len() - i,
    {
        let mut row = "  ".to_owned();
        row.append(entries[i].0.as_str());
        row.append(": ");
        row.append(entries[i].1.render().as_str());
        proof {
            assert(row@ == entry_line(entries@[i as int].0@, entries@[i as int].1@.rendered()));
            assert(texts(rows@).len() == rows@.len());
            assert forall|k: int| 0 <= k < i implies texts(rows@.push(row))[k] == entry_lines(
                entries@.take(i + 1),
            )[k] by {
                assert(texts(rows@)[k] == entry_lines(entries@.take(i as int))[k]);
            }
            assert(texts(rows@.push(row)) =~= entry_lines(entries@.take(i + 1)));
        }
        rows.push(row);
        i += 1;
    }
    rows
}

/// Adds a part of the report to `lines`, unless the part has no rows.
fn add_section(lines: &mut Vec<String>, title: &str, rows: Vec<String>)
    ensures
        texts(final(lines)@) == texts(old(lines)@) + section(title@, texts(rows@)),
{
    if rows.len() == 0 {
        return ;
    }
    let ghost before = lines@;
    let ghost all = rows@;
    lines.push(title.to_owned());
    for row in it: rows
        invariant
            it.seq() == all,
            texts(lines@) == texts(before) + seq![title@] + texts(all.take(it.index() as int)),
    {
        proof {
            let at = it.index() as int;
            let so_far = texts(before) + seq![title@] + texts(all.take(at));
            let wanted = texts(before) + seq![title@] + texts(all.take(at + 1));
            assert(texts(lines@).len() == lines@.len());
            assert(wanted.len() == so_far.len() + 1);
            assert forall|k: int| 0 <= k < wanted.len() implies texts(lines@.push(row))[k]
                == wanted[k] by {
                if k < so_far.len() {
                    assert(texts(lines@)[k] == so_far[k]);
                    if k > before.len() {
                        assert(texts(all.take(at + 1))[k - before.len() - 1] == texts(
                            all.take(at),
                        )[k - before.len() - 1]);
                    }
                }
            }
            assert(texts(lines@.push(row)) =~= wanted);
        }
        lines.push(row);
    }
}

} // verus!
