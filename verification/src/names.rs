//! A map from names to values, for the few sessions that one server handles.

use vstd::prelude::*;
use vstd::string::*;
use crate::text::views;

verus! {

/// Values by name; no name occurs twice.
#[derive(Debug)]
pub struct NameMap<V> {
    entries: Vec<(String, V)>,
}

/// The map that a list of entries stands for.
spec fn entries_map<V>(entries: Seq<(String, V)>) -> Map<Seq<char>, V>
    decreases entries.len(),
{
    if entries.len() == 0 {
        Map::empty()
    } else {
        entries_map(entries.drop_last()).insert(entries.last().0@, entries.last().1)
    }
}

/// No name occurs twice.
spec fn distinct_names<V>(entries: Seq<(String, V)>) -> bool {
    forall|i: int, j: int|
        0 <= i < j < entries.len() ==> #[trigger] entries[i].0@ != #[trigger] entries[j].0@
}

proof fn lemma_entries_push<V>(entries: Seq<(String, V)>, name: String, value: V)
    ensures
        entries_map(entries.push((name, value))) == entries_map(entries).insert(name@, value),
{
    assert(entries.push((name, value)).drop_last() =~= entries);
}

/// A name is in the map if and only if one of the entries has it.
proof fn lemma_entries_dom<V>(entries: Seq<(String, V)>, name: Seq<char>)
    ensures
        entries_map(entries).contains_key(name) <==> exists|i: int|
            0 <= i < entries.len() && #[trigger] entries[i].0@ == name,
    decreases entries.len(),
{
    if entries.len() > 0 {
        let rest = entries.drop_last();
        lemma_entries_dom(rest, name);
        if entries_map(rest).contains_key(name) {
            let i = choose|i: int| 0 <= i < rest.len() && #[trigger] rest[i].0@ == name;
            assert(entries[i].0@ == name);
        }
        if exists|i: int| 0 <= i < entries.len() && #[trigger] entries[i].0@ == name {
            let i = choose|i: int| 0 <= i < entries.len() && #[trigger] entries[i].0@ == name;
            if i < rest.len() {
                assert(rest[i].0@ == name);
            }
        }
    }
}

/// Each entry's name stands for its value.
proof fn lemma_entries_value<V>(entries: Seq<(String, V)>, i: int)
    requires
        distinct_names(entries),
        0 <= i < entries.len(),
    ensures
        entries_map(entries).contains_key(entries[i].0@),
        entries_map(entries)[entries[i].0@] == entries[i].1,
    decreases entries.len(),
{
    let rest = entries.drop_last();
    if i < rest.len() {
        assert(distinct_names(rest)) by {
            assert forall|a: int, b: int| 0 <= a < b < rest.len() implies #[trigger] rest[a].0@
                != #[trigger] rest[b].0@ by {
                assert(entries[a].0@ != entries[b].0@);
            }
        }
        lemma_entries_value(rest, i);
        assert(rest[i] == entries[i]);
        assert(entries[i].0@ != entries[entries.len() - 1].0@);
    }
}

impl<V> NameMap<V> {
    #[verifier::type_invariant]
    spec fn wf(&self) -> bool {
        distinct_names(self.entries@)
    }

    pub closed spec fn view(&self) -> Map<Seq<char>, V> {
        entries_map(self.entries@)
    }

    pub fn new() -> (map: Self)
        ensures
            map@ == Map::<Seq<char>, V>::empty(),
    {
        NameMap { entries: Vec::new() }
    }

    fn position(&self, name: &str) -> (at: Option<usize>)
        ensures
            match at {
                Some(i) => i < self.entries.len() && self.entries@[i as int].0@ == name@,
                None => !self@.contains_key(name@),
            },
    {
        let wanted = name.to_owned();
        for i in 0..self.entries.len()
            invariant
                wanted@ == name@,
                forall|j: int| 0 <= j < i ==> #[trigger] self.entries@[j].0@ != name@,
        {
            if self.entries[i].0 == wanted {
                return Some(i);
            }
        }
        proof {
            lemma_entries_dom(self.entries@, name@);
        }
        None
    }

    pub fn contains(&self, name: &str) -> (found: bool)
        ensures
            found == self@.contains_key(name@),
    {
        match self.position(name) {
            Some(i) => {
                proof {
                    lemma_entries_dom(self.entries@, name@);
                    assert(self.entries@[i as int].0@ == name@);
                }
                true
            },
            None => false,
        }
    }

    pub fn get(&self, name: &str) -> (value: Option<&V>)
        ensures
            match value {
                Some(value) => self@.contains_key(name@) && *value == self@[name@],
                None => !self@.contains_key(name@),
            },
    {
        match self.position(name) {
            Some(i) => {
                proof {
                    use_type_invariant(self);
                    lemma_entries_value(self.entries@, i as int);
                }
                Some(&self.entries[i].1)
            },
            None => None,
        }
    }

    /// Takes a name and its value out of the map.
    pub fn remove(&mut self, name: &str) -> (value: Option<V>)
        ensures
            final(self)@ == old(self)@.remove(name@),
            match value {
                Some(value) => old(self)@.contains_key(name@) && value == old(self)@[name@],
                None => !old(self)@.contains_key(name@),
            },
    {
        proof {
            use_type_invariant(&*self);
        }
        let wanted = name.to_owned();
        let mut entries: Vec<(String, V)> = Vec::new();
        std::mem::swap(&mut entries, &mut self.entries);
        let mut kept: Vec<(String, V)> = Vec::new();
        let mut found: Option<V> = None;
        let ghost all = entries@;
        assert(entries_map(kept@) =~= entries_map(all.take(0)).remove(name@));
        for entry in it: entries
            invariant
                it.seq() == all,
                distinct_names(all),
                wanted@ == name@,
                entries_map(kept@) == entries_map(all.take(it.index() as int)).remove(name@),
                distinct_names(kept@),
                forall|j: int|
                    0 <= j < kept.len() ==> exists|i: int|
                        0 <= i < it.index() && #[trigger] all[i].0@ == #[trigger] kept@[j].0@,
                match found {
                    Some(value) => exists|i: int|
                        0 <= i < it.index() && #[trigger] all[i].0@ == name@ && all[i].1 == value,
                    None => forall|i: int|
                        0 <= i < it.index() ==> #[trigger] all[i].0@ != name@,
                },
        {
            let ghost at = it.index() as int;
            let ghost seen = all.take(at);
            let ghost before = kept@;
            let (key, value) = entry;
            proof {
                assert(all.take(at + 1) =~= seen.push((key, value)));
                lemma_entries_push(seen, key, value);
                lemma_entries_push(kept@, key, value);
                assert(all[at].0@ == key@);
            }
            if key == wanted {
                found = Some(value);
                assert(entries_map(kept@) =~= entries_map(seen).insert(key@, value).remove(name@));
                assert(all[at].0@ == name@ && all[at].1 == value);
            } else {
                kept.push((key, value));
                proof {
                    assert(entries_map(kept@) =~= entries_map(seen).insert(key@, value).remove(
                        name@,
                    ));
                    assert forall|a: int, b: int|
                        0 <= a < b < kept@.len() implies #[trigger] kept@[a].0@
                        != #[trigger] kept@[b].0@ by {
                        if b < before.len() {
                            assert(before[a].0@ != before[b].0@);
                        } else {
                            assert(before[a].0@ == kept@[a].0@);
                            let i = choose|i: int|
                                0 <= i < at && #[trigger] all[i].0@ == before[a].0@;
                            assert(all[i].0@ != all[at].0@);
                        }
                    }
                    assert forall|j: int| 0 <= j < kept@.len() implies exists|i: int|
                        0 <= i < at + 1 && #[trigger] all[i].0@ == #[trigger] kept@[j].0@ by {
                        if j < before.len() {
                            assert(before[j].0@ == kept@[j].0@);
                            let i = choose|i: int|
                                0 <= i < at && #[trigger] all[i].0@ == before[j].0@;
                            assert(all[i].0@ == kept@[j].0@);
                        } else {
                            assert(all[at].0@ == kept@[j].0@);
                        }
                    }
                }
            }
        }
        proof {
            assert(all.take(all.len() as int) =~= all);
            lemma_entries_dom(all, name@);
            if found is Some {
                let i = choose|i: int|
                    0 <= i < all.len() && #[trigger] all[i].0@ == name@ && all[i].1 == found->0;
                lemma_entries_value(all, i);
            }
        }
        self.entries = kept;
        found
    }

    /// Gives a name a value, in place of the one it had.
    pub fn insert(&mut self, name: &str, value: V)
        ensures
            final(self)@ == old(self)@.insert(name@, value),
    {
        let _replaced = self.remove(name);
        proof {
            use_type_invariant(&*self);
        }
        let mut entries: Vec<(String, V)> = Vec::new();
        std::mem::swap(&mut entries, &mut self.entries);
        let ghost before = entries@;
        let key = name.to_owned();
        proof {
            lemma_entries_push(before, key, value);
            lemma_entries_dom(before, name@);
        }
        entries.push((key, value));
        proof {
            assert forall|a: int, b: int| 0 <= a < b < entries@.len() implies #[trigger] entries@[a].0@
                != #[trigger] entries@[b].0@ by {
                assert(entries@[a].0@ == before[a].0@);
                if b < before.len() {
                    assert(before[a].0@ != before[b].0@);
                }
            }
            assert(entries_map(entries@) =~= old(self)@.insert(name@, value));
        }
        self.entries = entries;
    }

    /// The names in the map, each of them once, in no particular order.
    pub fn names(&self) -> (names: Vec<String>)
        ensures
            views(names@).no_duplicates(),
            views(names@).to_set() == self@.dom(),
    {
        proof {
            use_type_invariant(self);
        }
        let mut names: Vec<String> = Vec::new();
        for i in 0..self.entries.len()
            invariant
                names.len() == i,
                forall|j: int| 0 <= j < i ==> #[trigger] names@[j]@ == self.entries@[j].0@,
        {
            names.push(self.entries[i].0.clone());
        }
        proof {
            let all = self.entries@;
            assert forall|a: int, b: int|
                0 <= a < views(names@).len() && 0 <= b < views(names@).len() && a
                    != b implies views(names@)[a] != views(names@)[b] by {
                assert(names@[a]@ == all[a].0@);
                assert(names@[b]@ == all[b].0@);
                if a < b {
                    assert(all[a].0@ != all[b].0@);
                } else {
                    assert(all[b].0@ != all[a].0@);
                }
            }
            assert forall|name: Seq<char>| views(names@).to_set().contains(name)
                <==> self@.dom().contains(name) by {
                lemma_entries_dom(all, name);
                if views(names@).contains(name) {
                    let i = choose|i: int|
                        0 <= i < views(names@).len() && views(names@)[i] == name;
                    assert(names@[i]@ == all[i].0@);
                }
                if self@.dom().contains(name) {
                    let i = choose|i: int| 0 <= i < all.len() && #[trigger] all[i].0@ == name;
                    assert(names@[i]@ == name);
                    assert(views(names@)[i] == name);
                }
            }
            assert(views(names@).to_set() =~= self@.dom());
        }
        names
    }
}

} // verus!
