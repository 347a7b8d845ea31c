//! The set of row keys met so far in one run.

use vstd::prelude::*;

verus! {

/// A set of row keys, kept as a list without repeats.
pub struct SeenSet {
    keys: Vec<String>,
}

impl View for SeenSet {
    type V = Set<Seq<char>>;

    closed spec fn view(&self) -> Set<Seq<char>> {
        self.keys.deep_view().to_set()
    }
}

impl SeenSet {
    /// No key is held twice.
    pub closed spec fn wf(&self) -> bool {
        self.keys.deep_view().no_duplicates()
    }

    /// An empty set.
    pub fn new() -> (s: SeenSet)
        ensures
            s.wf(),
            s@ == Set::<Seq<char>>::empty(),
    {
        let s = SeenSet { keys: Vec::new() };
        proof {
            assert(s.keys.deep_view() =~= Seq::<Seq<char>>::empty());
            assert(s@ =~= Set::<Seq<char>>::empty());
        }
        s
    }

    /// Whether `key` is in the set.
    pub fn contains(&self, key: &String) -> (r: bool)
        ensures
            r == self@.contains(key@),
    {
        let ghost ks = self.keys.deep_view();
        let mut i: usize = 0;
        while i < self.keys.len()
            invariant
                i <= self.keys.len(),
                ks == self.keys.deep_view(),
                forall|j: int| 0 <= j < i ==> ks[j] != key@,
            decreases self.keys.len() - i,
        {
            if self.keys[i] == *key {
                proof {
                    assert(ks[i as int] == key@);
                    assert(ks.contains(key@));
                }
                return true;
            }
            i = i + 1;
        }
        proof {
            assert(!ks.contains(key@));
        }
        false
    }

    /// Adds `key`; the result tells whether it was absent before.
    pub fn insert(&mut self, key: String) -> (added: bool)
        requires
            old(self).wf(),
        ensures
            final(self).wf(),
            added == !old(self)@.contains(key@),
            final(self)@ == old(self)@.insert(key@),
    {
        if self.contains(&key) {
            proof {
                assert(self@.insert(key@) =~= self@);
            }
            false
        } else {
            let ghost before = self.keys.deep_view();
            self.keys.push(key);
            proof {
                let after = self.keys.deep_view();
                assert(after =~= before.push(key@));
                before.lemma_push_to_set_commute(key@);
                assert(after.no_duplicates()) by {
                    assert forall|a: int, b: int|
                        0 <= a < after.len() && 0 <= b < after.len() && a != b implies after[a]
                        != after[b] by {
                        if a < before.len() && b == before.len() {
                            assert(before.contains(before[a]));
                        }
                        if b < before.len() && a == before.len() {
                            assert(before.contains(before[b]));
                        }
                    }
                }
            }
            true
        }
    }
}

} // verus!
