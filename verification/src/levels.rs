//! Brightness levels by device name.

use crate::text::same_text;
use vstd::prelude::*;

verus! {

/// A level for each of some device names, each name held once.
#[derive(Debug)]
pub struct LevelMap {
    entries: Vec<(String, u32)>,
}

spec fn stands_at(entries: Seq<(String, u32)>, name: Seq<char>, i: int) -> bool {
    0 <= i < entries.len() && entries[i].0@ == name
}

spec fn named(entries: Seq<(String, u32)>, name: Seq<char>) -> bool {
    exists|i: int| stands_at(entries, name, i)
}

spec fn level_of(entries: Seq<(String, u32)>, name: Seq<char>) -> u32 {
    entries[choose|i: int| stands_at(entries, name, i)].1
}

spec fn names_differ(entries: Seq<(String, u32)>) -> bool {
    forall|i: int, j: int|
        0 <= i < j < entries.len() ==> (#[trigger] entries[i]).0@ != (#[trigger] entries[j]).0@
}

spec fn as_map(entries: Seq<(String, u32)>) -> Map<Seq<char>, u32> {
    Map::new(|name: Seq<char>| named(entries, name), |name: Seq<char>| level_of(entries, name))
}

proof fn lemma_entry(entries: Seq<(String, u32)>, i: int)
    requires
        names_differ(entries),
        0 <= i < entries.len(),
    ensures
        as_map(entries).dom().contains(entries[i].0@),
        as_map(entries)[entries[i].0@] == entries[i].1,
{
    assert(stands_at(entries, entries[i].0@, i));
    let j = choose|j: int| stands_at(entries, entries[i].0@, j);
    assert(i == j) by {
        if i < j {
            assert(entries[i].0@ != entries[j].0@);
        }
        if j < i {
            assert(entries[j].0@ != entries[i].0@);
        }
    }
}

proof fn lemma_absent(entries: Seq<(String, u32)>, name: Seq<char>)
    requires
        forall|i: int| 0 <= i < entries.len() ==> (#[trigger] entries[i]).0@ != name,
    ensures
        !as_map(entries).dom().contains(name),
{
    assert forall|i: int| !stands_at(entries, name, i) by {}
}

/// Putting `level` at a name's place, or at the end, is an insertion.
proof fn lemma_insert(
    before: Seq<(String, u32)>,
    after: Seq<(String, u32)>,
    name: String,
    level: u32,
    at: int,
)
    requires
        names_differ(before),
        0 <= at <= before.len(),
        at < before.len() ==> before[at].0@ == name@ && after == before.update(at, (name, level)),
        at == before.len() ==> after == before.push((name, level)) && forall|i: int|
            0 <= i < before.len() ==> (#[trigger] before[i]).0@ != name@,
    ensures
        names_differ(after),
        as_map(after) == as_map(before).insert(name@, level),
{
    assert(after[at] == (name, level));
    assert forall|i: int, j: int| 0 <= i < j < after.len() implies (#[trigger] after[i]).0@ != (
    #[trigger] after[j]).0@ by {
        if at < before.len() {
            assert(before[i].0@ != before[j].0@);
        }
    }
    let target = as_map(before).insert(name@, level);
    assert forall|k: Seq<char>|
        (#[trigger] as_map(after).dom().contains(k) <==> target.dom().contains(k)) && (
        target.dom().contains(k) ==> as_map(after)[k] == target[k]) by {
        if k == name@ {
            lemma_entry(after, at);
        } else if named(before, k) {
            let i = choose|i: int| stands_at(before, k, i);
            assert(i != at);
            lemma_entry(before, i);
            lemma_entry(after, i);
        } else {
            assert forall|i: int| 0 <= i < after.len() implies (#[trigger] after[i]).0@ != k by {
                if i != at {
                    assert(!stands_at(before, k, i));
                }
            }
            lemma_absent(after, k);
        }
    }
    assert(as_map(after).dom() =~= target.dom());
    assert(as_map(after) =~= target);
}

impl View for LevelMap {
    type V = Map<Seq<char>, u32>;

    closed spec fn view(&self) -> Map<Seq<char>, u32> {
        as_map(self.entries@)
    }
}

impl LevelMap {
    #[verifier::type_invariant]
    spec fn distinct(self) -> bool {
        names_differ(self.entries@)
    }

    pub fn new() -> (m: LevelMap)
        ensures
            m@ == Map::<Seq<char>, u32>::empty(),
    {
        let m = LevelMap { entries: Vec::new() };
        proof {
            assert forall|k: Seq<char>| !m@.dom().contains(k) by {
                lemma_absent(m.entries@, k);
            }
            assert(m@ =~= Map::<Seq<char>, u32>::empty());
        }
        m
    }

    fn find(&self, name: &str) -> (at: usize)
        ensures
            at <= self.entries@.len(),
            at < self.entries@.len() ==> self.entries@[at as int].0@ == name@,
            at == self.entries@.len() ==> forall|i: int|
                0 <= i < self.entries@.len() ==> (#[trigger] self.entries@[i]).0@ != name@,
    {
        let mut at: usize = 0;
        while at < self.entries.len()
            invariant
                at <= self.entries@.len(),
                forall|i: int| 0 <= i < at ==> (#[trigger] self.entries@[i]).0@ != name@,
            decreases self.entries@.len() - at,
        {
            if same_text(self.entries[at].0.as_str(), name) {
                return at;
            }
            at = at + 1;
        }
        at
    }

    /// The level of `name`.
    pub fn get(&self, name: &str) -> (level: Option<u32>)
        ensures
            match level {
                Some(l) => self@.dom().contains(name@) && self@[name@] == l,
                None => !self@.dom().contains(name@),
            },
    {
        proof {
            use_type_invariant(self);
        }
        let at: usize = self.find(name);
        if at == self.entries.len() {
            proof {
                lemma_absent(self.entries@, name@);
            }
            None
        } else {
            proof {
                lemma_entry(self.entries@, at as int);
            }
            Some(self.entries[at].1)
        }
    }

    /// Sets the level of `name`.
    pub fn insert(&mut self, name: String, level: u32)
        ensures
            final(self)@ == old(self)@.insert(name@, level),
    {
        proof {
            use_type_invariant(&*self);
        }
        let at: usize = self.find(name.as_str());
        let mut entries: Vec<(String, u32)> = Vec::new();
        std::mem::swap(&mut entries, &mut self.entries);
        let ghost before = entries@;
        let ghost key = name;
        if at < entries.len() {
            entries.set(at, (name, level));
        } else {
            entries.push((name, level));
        }
        proof {
            lemma_insert(before, entries@, key, level, at as int);
        }
        self.entries = entries;
    }

    /// Forgets every level.
    pub fn clear(&mut self)
        ensures
            final(self)@ == Map::<Seq<char>, u32>::empty(),
    {
        *self = LevelMap::new();
    }
}

} // verus!
