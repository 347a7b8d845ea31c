//! Reading and writing CSV text, and deduplicating it.

use vstd::prelude::*;

use crate::dedup::{dedup, dedup_records};

verus! {

#[verifier::external_type_specification]
#[verifier::external_body]
pub struct ExCsvError(csv::Error);

/// The records that the CSV reader finds in `bytes`, every row a record,
/// or `None` where it reports an error.
pub uninterp spec fn csv_records(bytes: Seq<u8>) -> Option<Seq<Seq<Seq<char>>>>;

/// The bytes that the CSV writer emits for one record, terminator included.
pub uninterp spec fn csv_line(fields: Seq<Seq<char>>) -> Seq<u8>;

/// The CSV text of `rows`: the bytes of each record, one after another.
pub open spec fn csv_text(rows: Seq<Seq<Seq<char>>>) -> Seq<u8>
    decreases rows.len(),
{
    if rows.len() == 0 {
        Seq::empty()
    } else {
        csv_text(rows.drop_last()) + csv_line(rows.last())
    }
}

/// Why a run failed: the input is not valid CSV, or a record could not be
/// written (which the writer's contract rules out). Each carries the error
/// that the CSV library reported.
pub enum DedupError {
    Parse(csv::Error),
    Write(csv::Error),
}

/// Relies on `csv::ReaderBuilder::has_headers(false)`, `from_reader` and
/// `Reader::records`: the records of `input` (the first row is a record
/// too), or the first error met, as a function of the bytes alone.
#[verifier::external_body]
fn read_records(input: &[u8]) -> (r: Result<Vec<Vec<String>>, csv::Error>)
    ensures
        match r {
            Ok(rows) => csv_records(input@) == Some(rows.deep_view()),
            Err(_) => csv_records(input@) is None,
        },
{
    let mut rdr = csv::ReaderBuilder::new().has_headers(false).from_reader(input);
    let recs = rdr.records().collect::<Result<Vec<csv::StringRecord>, csv::Error>>()?;
    Ok(recs.iter().map(|rec| rec.iter().map(String::from).collect()).collect())
}

/// Relies on `csv::Writer::write_record` and `Writer::into_inner` over an
/// in-memory buffer: the bytes of one record depend on its fields alone.
/// A fresh writer has no earlier record to compare the field count with, and
/// writing into a `Vec<u8>` cannot fail, so the call succeeds.
#[verifier::external_body]
fn write_record(fields: &Vec<String>) -> (r: Result<Vec<u8>, csv::Error>)
    ensures
        r is Ok,
        r matches Ok(bytes) ==> bytes@ == csv_line(fields.deep_view()),
{
    let mut wtr = csv::Writer::from_writer(Vec::new());
    wtr.write_record(fields)?;
    wtr.into_inner().map_err(|e| csv::Error::from(e.into_error()))
}

/// Writes `rows` as CSV text, one record after another.
pub fn write_rows(rows: &Vec<Vec<String>>) -> (r: Result<Vec<u8>, csv::Error>)
    ensures
        r is Ok,
        r matches Ok(bytes) ==> bytes@ == csv_text(rows.deep_view()),
{
    let ghost all = rows.deep_view();
    let mut out: Vec<u8> = Vec::new();
    let mut i: usize = 0;
    while i < rows.len()
        invariant
            i <= rows.len(),
            all == rows.deep_view(),
            out@ == csv_text(all.take(i as int)),
        decreases rows.len() - i,
    {
        let mut line = match write_record(&rows[i]) {
            Ok(line) => line,
            Err(e) => {
                return Err(e);
            },
        };
        proof {
            assert(all.take(i + 1).drop_last() =~= all.take(i as int));
        }
        out.append(&mut line);
        i = i + 1;
    }
    proof {
        assert(all.take(i as int) =~= all);
    }
    Ok(out)
}

/// Deduplicates the CSV text `input`: the result holds, as CSV text, the
/// records of `input` that are first occurrences of their row key, in order.
pub fn deduplicate_csv(input: &[u8]) -> (r: Result<Vec<u8>, DedupError>)
    ensures
        match csv_records(input@) {
            Some(rows) => r matches Ok(out) && out@ == csv_text(dedup(rows)),
            None => r matches Err(e) && e is Parse,
        },
{
    let rows = match read_records(input) {
        Ok(rows) => rows,
        Err(e) => {
            return Err(DedupError::Parse(e));
        },
    };
    let kept = dedup_records(&rows);
    match write_rows(&kept) {
        Ok(out) => Ok(out),
        Err(e) => Err(DedupError::Write(e)),
    }
}

} // verus!
