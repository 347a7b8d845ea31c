//! The fingerprint of a record: its fields joined with a comma.

use vstd::prelude::*;

verus! {

/// The fields of `fields` joined with `,` between neighbours.
pub open spec fn joined(fields: Seq<Seq<char>>) -> Seq<char>
    decreases fields.len(),
{
    if fields.len() == 0 {
        Seq::empty()
    } else if fields.len() == 1 {
        fields[0]
    } else {
        joined(fields.drop_last()) + seq![','] + fields.last()
    }
}

/// The row key of a record, given as the sequence of its fields.
pub open spec fn key_of(record: Seq<Seq<char>>) -> Seq<char> {
    joined(record)
}

/// Computes the row key of `record`: its fields joined with a comma.
pub fn row_key(record: &Vec<String>) -> (key: String)
    ensures
        key@ == key_of(record.deep_view()),
{
    let ghost fields = record.deep_view();
    let mut key = String::new();
    let mut i: usize = 0;
    while i < record.len()
        invariant
            i <= record.len(),
            fields == record.deep_view(),
            key@ == joined(fields.take(i as int)),
        decreases record.len() - i,
    {
        proof {
            reveal_strlit(",");
            assert(fields.take(i + 1).drop_last() =~= fields.take(i as int));
        }
        if i > 0 {
            key.append(",");
        }
        key.append(record[i].as_str());
        i = i + 1;
    }
    proof {
        assert(fields.take(i as int) =~= fields);
    }
    key
}

} // verus!
