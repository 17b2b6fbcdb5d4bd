//! Sets of display keys.

use crate::text::same_text;
use vstd::prelude::*;

verus! {

/// A set of display keys, each held once.
#[derive(Debug)]
pub struct DisplaySet {
    keys: Vec<String>,
}

/// Whether `key` is one of `keys`.
pub open spec fn listed(keys: Seq<String>, key: Seq<char>) -> bool {
    exists|i: int| 0 <= i < keys.len() && (#[trigger] keys[i])@ == key
}

impl View for DisplaySet {
    type V = Set<Seq<char>>;

    closed spec fn view(&self) -> Set<Seq<char>> {
        Set::new(|key: Seq<char>| listed(self.keys@, key))
    }
}

impl DisplaySet {
    #[verifier::type_invariant]
    spec fn distinct(self) -> bool {
        forall|i: int, j: int|
            0 <= i < j < self.keys@.len() ==> (#[trigger] self.keys@[i])@ != (
            #[trigger] self.keys@[j])@
    }

    pub fn new() -> (s: DisplaySet)
        ensures
            s@ == Set::<Seq<char>>::empty(),
    {
        let s = DisplaySet { keys: Vec::new() };
        assert(s@ =~= Set::<Seq<char>>::empty());
        s
    }

    pub fn contains(&self, key: &str) -> (b: bool)
        ensures
            b == self@.contains(key@),
    {
        let mut i: usize = 0;
        while i < self.keys.len()
            invariant
                i <= self.keys@.len(),
                forall|j: int| 0 <= j < i ==> (#[trigger] self.keys@[j])@ != key@,
            decreases self.keys@.len() - i,
        {
            if same_text(self.keys[i].as_str(), key) {
                return true;
            }
            i = i + 1;
        }
        false
    }

    pub fn insert(&mut self, key: String)
        ensures
            final(self)@ == old(self)@.insert(key@),
    {
        proof {
            use_type_invariant(&*self);
        }
        if self.contains(key.as_str()) {
            assert(self@ =~= old(self)@.insert(key@));
            return;
        }
        let mut keys: Vec<String> = self.keys.clone();
        assert(keys@ =~= self.keys@);
        keys.push(key);
        self.keys = keys;
        proof {
            assert forall|k: Seq<char>| self@.contains(k) == old(self)@.insert(key@).contains(k) by {
                if listed(old(self).keys@, k) {
                    let i = choose|i: int|
                        0 <= i < old(self).keys@.len() && (#[trigger] old(self).keys@[i])@ == k;
                    assert(self.keys@[i]@ == k);
                }
                assert(self.keys@[old(self).keys@.len() as int]@ == key@);
            }
            assert(self@ =~= old(self)@.insert(key@));
        }
    }

    /// The set that holds `key` alone.
    pub fn of(key: String) -> (s: DisplaySet)
        ensures
            s@ == Set::<Seq<char>>::empty().insert(key@),
    {
        let mut s = DisplaySet::new();
        s.insert(key);
        s
    }

    fn within(&self, other: &DisplaySet) -> (b: bool)
        ensures
            b == self@.subset_of(other@),
    {
        let mut i: usize = 0;
        while i < self.keys.len()
            invariant
                i <= self.keys@.len(),
                forall|j: int| 0 <= j < i ==> other@.contains((#[trigger] self.keys@[j])@),
            decreases self.keys@.len() - i,
        {
            if !other.contains(self.keys[i].as_str()) {
                assert(self@.contains(self.keys@[i as int]@));
                return false;
            }
            i = i + 1;
        }
        true
    }

    /// Whether two sets hold the same keys.
    pub fn same_keys(&self, other: &DisplaySet) -> (b: bool)
        ensures
            b == (self@ == other@),
    {
        let b: bool = self.within(other) && other.within(self);
        assert(b ==> self@ =~= other@);
        b
    }
}

impl Clone for DisplaySet {
    fn clone(&self) -> (s: Self)
        ensures
            s@ == self@,
    {
        proof {
            use_type_invariant(self);
        }
        let keys: Vec<String> = self.keys.clone();
        assert(keys@ =~= self.keys@);
        DisplaySet { keys }
    }
}

} // verus!
