//! Keeping the first occurrence of each row key, in input order.

use vstd::prelude::*;

use crate::row_key::{key_of, row_key};
use crate::seen_set::SeenSet;

verus! {

/// The row keys of `records`, one for each record, in order.
pub open spec fn keys(records: Seq<Seq<Seq<char>>>) -> Seq<Seq<char>> {
    records.map_values(|r: Seq<Seq<char>>| key_of(r))
}

/// The records of `records` whose row key does not occur earlier, in order.
pub open spec fn dedup(records: Seq<Seq<Seq<char>>>) -> Seq<Seq<Seq<char>>>
    decreases records.len(),
{
    if records.len() == 0 {
        Seq::empty()
    } else {
        let before = records.drop_last();
        let kept = dedup(before);
        if keys(before).contains(key_of(records.last())) {
            kept
        } else {
            kept.push(records.last())
        }
    }
}

/// The state of one deduplication run: the row keys met so far.
pub struct Deduplicator {
    seen: SeenSet,
}

impl View for Deduplicator {
    type V = Set<Seq<char>>;

    closed spec fn view(&self) -> Set<Seq<char>> {
        self.seen@
    }
}

impl Deduplicator {
    pub closed spec fn wf(&self) -> bool {
        self.seen.wf()
    }

    /// A run that has met no row yet.
    pub fn new() -> (d: Deduplicator)
        ensures
            d.wf(),
            d@ == Set::<Seq<char>>::empty(),
    {
        Deduplicator { seen: SeenSet::new() }
    }

    /// Examines one record: it is to be written exactly when its row key
    /// was not met before; afterwards its row key has been met.
    pub fn examine(&mut self, record: &Vec<String>) -> (write: bool)
        requires
            old(self).wf(),
        ensures
            final(self).wf(),
            write == !old(self)@.contains(key_of(record.deep_view())),
            final(self)@ == old(self)@.insert(key_of(record.deep_view())),
    {
        let key = row_key(record);
        self.seen.insert(key)
    }
}

/// The records of `records` that are first occurrences of their row key,
/// in input order.
pub fn dedup_records(records: &Vec<Vec<String>>) -> (kept: Vec<Vec<String>>)
    ensures
        kept.deep_view() == dedup(records.deep_view()),
{
    let ghost recs = records.deep_view();
    let mut run = Deduplicator::new();
    let mut kept: Vec<Vec<String>> = Vec::new();
    let mut i: usize = 0;
    proof {
        assert(recs.take(0) =~= Seq::<Seq<Seq<char>>>::empty());
        assert(keys(recs.take(0)).to_set() =~= Set::<Seq<char>>::empty());
        assert(kept.deep_view() =~= dedup(recs.take(0)));
    }
    while i < records.len()
        invariant
            i <= records.len(),
            recs == records.deep_view(),
            run.wf(),
            run@ == keys(recs.take(i as int)).to_set(),
            kept.deep_view() == dedup(recs.take(i as int)),
        decreases records.len() - i,
    {
        let ghost prefix = recs.take(i as int);
        let ghost next = recs.take(i + 1);
        proof {
            assert(next.drop_last() =~= prefix);
            assert(next.last() == recs[i as int]);
            assert(keys(next) =~= keys(prefix).push(key_of(recs[i as int])));
        }
        let write = run.examine(&records[i]);
        if write {
            let row = records[i].clone();
            proof {
                assert(row.deep_view() =~= records[i as int].deep_view());
            }
            kept.push(row);
            proof {
                assert(kept.deep_view() =~= dedup(prefix).push(recs[i as int]));
            }
        }
        proof {
            keys(prefix).lemma_push_to_set_commute(key_of(recs[i as int]));
        }
        i = i + 1;
    }
    proof {
        assert(recs.take(i as int) =~= recs);
    }
    kept
}

} // verus!
