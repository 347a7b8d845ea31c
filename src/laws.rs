//! Properties of deduplication that hold for every input.

use vstd::prelude::*;

use crate::dedup::{dedup, keys};
use crate::row_key::key_of;

verus! {

/// `sub` is found in `full` at the strictly increasing positions `idx`.
pub open spec fn embeds_at(
    sub: Seq<Seq<Seq<char>>>,
    full: Seq<Seq<Seq<char>>>,
    idx: Seq<int>,
) -> bool {
    &&& idx.len() == sub.len()
    &&& forall|j: int| 0 <= j < idx.len() ==> 0 <= #[trigger] idx[j] < full.len() && sub[j] == full[idx[j]]
    &&& forall|a: int, b: int| 0 <= a < b < idx.len() ==> #[trigger] idx[a] < #[trigger] idx[b]
}

proof fn lemma_keys_last(rs: Seq<Seq<Seq<char>>>)
    requires
        rs.len() > 0,
    ensures
        keys(rs) == keys(rs.drop_last()).push(key_of(rs.last())),
{
    assert(keys(rs) =~= keys(rs.drop_last()).push(key_of(rs.last())));
}

proof fn lemma_keys_push(rs: Seq<Seq<Seq<char>>>, r: Seq<Seq<char>>)
    ensures
        keys(rs.push(r)) == keys(rs).push(key_of(r)),
{
    assert(keys(rs.push(r)) =~= keys(rs).push(key_of(r)));
}

proof fn lemma_push_distinct(s: Seq<Seq<char>>, x: Seq<char>)
    requires
        s.no_duplicates(),
        !s.contains(x),
    ensures
        s.push(x).no_duplicates(),
{
    let t = s.push(x);
    assert forall|a: int, b: int| 0 <= a < t.len() && 0 <= b < t.len() && a != b implies t[a]
        != t[b] by {
        if a == s.len() {
            assert(s.contains(s[b]));
        }
        if b == s.len() {
            assert(s.contains(s[a]));
        }
    }
}

/// Deduplication keeps exactly the row keys of its input, each once, and
/// never lengthens it.
proof fn lemma_dedup_keys(rs: Seq<Seq<Seq<char>>>)
    ensures
        keys(dedup(rs)).to_set() == keys(rs).to_set(),
        keys(dedup(rs)).no_duplicates(),
        dedup(rs).len() <= rs.len(),
    decreases rs.len(),
{
    if rs.len() == 0 {
        assert(keys(dedup(rs)) =~= keys(rs));
    } else {
        let before = rs.drop_last();
        let k = key_of(rs.last());
        lemma_dedup_keys(before);
        lemma_keys_last(rs);
        keys(before).lemma_push_to_set_commute(k);
        if keys(before).contains(k) {
            assert(keys(before).to_set().insert(k) =~= keys(before).to_set());
        } else {
            lemma_keys_push(dedup(before), rs.last());
            keys(dedup(before)).lemma_push_to_set_commute(k);
            assert(!keys(dedup(before)).to_set().contains(k));
            lemma_push_distinct(keys(dedup(before)), k);
        }
    }
}

/// Input whose row keys are already pairwise distinct passes unchanged.
proof fn lemma_dedup_of_distinct(rs: Seq<Seq<Seq<char>>>)
    requires
        keys(rs).no_duplicates(),
    ensures
        dedup(rs) == rs,
    decreases rs.len(),
{
    if rs.len() > 0 {
        let before = rs.drop_last();
        lemma_keys_last(rs);
        let ks = keys(rs);
        assert(keys(before) =~= ks.drop_last());
        assert forall|a: int, b: int|
            0 <= a < keys(before).len() && 0 <= b < keys(before).len() && a != b implies keys(
            before,
        )[a] != keys(before)[b] by {
            assert(ks[a] != ks[b]);
        }
        lemma_dedup_of_distinct(before);
        if keys(before).contains(key_of(rs.last())) {
            let j = choose|j: int| 0 <= j < keys(before).len() && keys(before)[j] == key_of(rs.last());
            assert(ks[j] == ks[ks.len() - 1]);
        }
        assert(before.push(rs.last()) =~= rs);
    }
}

/// Deduplicating the output of a deduplication changes nothing.
pub proof fn law_dedup_idempotent(rs: Seq<Seq<Seq<char>>>)
    ensures
        dedup(dedup(rs)) == dedup(rs),
{
    lemma_dedup_keys(rs);
    lemma_dedup_of_distinct(dedup(rs));
}

/// No two output records share a row key.
pub proof fn law_dedup_distinct(rs: Seq<Seq<Seq<char>>>)
    ensures
        keys(dedup(rs)).no_duplicates(),
        forall|a: int, b: int|
            0 <= a < b < dedup(rs).len() ==> key_of(#[trigger] dedup(rs)[a]) != key_of(
                #[trigger] dedup(rs)[b],
            ),
{
    lemma_dedup_keys(rs);
    assert forall|a: int, b: int| 0 <= a < b < dedup(rs).len() implies key_of(dedup(rs)[a])
        != key_of(dedup(rs)[b]) by {
        assert(keys(dedup(rs))[a] != keys(dedup(rs))[b]);
    }
}

/// The output has no more records than the input, and as many exactly when
/// the input's row keys are pairwise distinct.
pub proof fn law_dedup_length(rs: Seq<Seq<Seq<char>>>)
    ensures
        dedup(rs).len() <= rs.len(),
        dedup(rs).len() == rs.len() <==> keys(rs).no_duplicates(),
    decreases rs.len(),
{
    lemma_dedup_keys(rs);
    if keys(rs).no_duplicates() {
        lemma_dedup_of_distinct(rs);
    }
    if rs.len() > 0 && dedup(rs).len() == rs.len() {
        let before = rs.drop_last();
        let k = key_of(rs.last());
        lemma_dedup_keys(before);
        law_dedup_length(before);
        lemma_keys_last(rs);
        assert(!keys(before).contains(k));
        lemma_push_distinct(keys(before), k);
    }
    if rs.len() == 0 {
        assert(keys(rs) =~= Seq::<Seq<char>>::empty());
    }
}

proof fn lemma_dedup_positions(rs: Seq<Seq<Seq<char>>>) -> (idx: Seq<int>)
    ensures
        embeds_at(dedup(rs), rs, idx),
    decreases rs.len(),
{
    if rs.len() == 0 {
        Seq::empty()
    } else {
        let before = rs.drop_last();
        let prev = lemma_dedup_positions(before);
        if keys(before).contains(key_of(rs.last())) {
            prev
        } else {
            let idx = prev.push(rs.len() - 1);
            assert forall|j: int| 0 <= j < idx.len() implies 0 <= #[trigger] idx[j] < rs.len()
                && dedup(rs)[j] == rs[idx[j]] by {
                if j < prev.len() {
                    assert(before[prev[j]] == rs[prev[j]]);
                }
            }
            assert forall|a: int, b: int| 0 <= a < b < idx.len() implies #[trigger] idx[a]
                < #[trigger] idx[b] by {
                if b < prev.len() {
                    assert(prev[a] < prev[b]);
                } else {
                    assert(0 <= prev[a] < before.len());
                }
            }
            idx
        }
    }
}

/// The output is a subsequence of the input: its records stand in the
/// input at strictly increasing positions.
pub proof fn law_dedup_subsequence(rs: Seq<Seq<Seq<char>>>)
    ensures
        exists|idx: Seq<int>| #[trigger] embeds_at(dedup(rs), rs, idx),
{
    let idx = lemma_dedup_positions(rs);
    assert(embeds_at(dedup(rs), rs, idx));
}

/// The record at `i`, the first of the input with its row key, is the one
/// and only output record with that row key.
pub proof fn law_first_occurrence_kept(rs: Seq<Seq<Seq<char>>>, i: int)
    requires
        0 <= i < rs.len(),
        forall|e: int| 0 <= e < i ==> key_of(#[trigger] rs[e]) != key_of(rs[i]),
    ensures
        exists|j: int|
            0 <= j < dedup(rs).len() && #[trigger] dedup(rs)[j] == rs[i] && forall|o: int|
                0 <= o < dedup(rs).len() && key_of(#[trigger] dedup(rs)[o]) == key_of(rs[i])
                    ==> o == j,
    decreases rs.len(),
{
    let before = rs.drop_last();
    let out = dedup(rs);
    let k = key_of(rs[i]);
    lemma_dedup_keys(before);
    if i == rs.len() - 1 {
        assert(!keys(before).contains(k)) by {
            if keys(before).contains(k) {
                let e = choose|e: int| 0 <= e < keys(before).len() && keys(before)[e] == k;
                assert(key_of(rs[e]) != k);
            }
        }
        let j = out.len() - 1;
        assert forall|o: int| 0 <= o < out.len() && key_of(#[trigger] out[o]) == k implies o
            == j by {
            if o < j {
                assert(keys(dedup(before))[o] == k);
                assert(keys(dedup(before)).to_set().contains(k));
            }
        }
        assert(out[j] == rs[i]);
    } else {
        assert forall|e: int| 0 <= e < i implies key_of(#[trigger] before[e]) != key_of(
            before[i],
        ) by {
            assert(before[e] == rs[e]);
        }
        law_first_occurrence_kept(before, i);
        let prev = dedup(before);
        let j = choose|j: int|
            0 <= j < prev.len() && #[trigger] prev[j] == before[i] && forall|o: int|
                0 <= o < prev.len() && key_of(#[trigger] prev[o]) == key_of(before[i]) ==> o == j;
        if !keys(before).contains(key_of(rs.last())) {
            assert(keys(before)[i] == k);
            assert forall|o: int| 0 <= o < out.len() && key_of(#[trigger] out[o]) == k implies o
                == j by {
                if o == prev.len() {
                    assert(out[o] == rs.last());
                } else {
                    assert(out[o] == prev[o]);
                }
            }
            assert(out[j] == rs[i]);
        }
    }
}

} // verus!
