//! The boundary to the `csv` crate: tables are read from and written to bytes
//! there; everything else in this library works on rows of text fields.

use vstd::prelude::*;

verus! {

/// The error type of the `csv` crate, carried through opaquely.
#[verifier::external_type_specification]
#[verifier::external_body]
pub struct ExCsvError(csv::Error);

/// What the `csv` reader yields for `bytes`: the records it reads before its
/// first failure, each as its fields' text, and whether it failed at all.
pub uninterp spec fn csv_decode(bytes: Seq<u8>, has_headers: bool, flexible: bool) -> (
    Seq<Seq<Seq<char>>>,
    bool,
);

/// What the `csv` writer emits for `rows` when it accepts them.
pub uninterp spec fn csv_encode(rows: Seq<Seq<Seq<char>>>) -> Seq<u8>;

/// All rows have as many fields as the first one.
pub open spec fn uniform_width(rows: Seq<Seq<Seq<char>>>) -> bool {
    forall|i: int| 0 <= i < rows.len() ==> (#[trigger] rows[i]).len() == rows[0].len()
}

/// Runs `csv::Reader::records` over `bytes` with the given `has_headers` and
/// `flexible` settings and collects the string records up to the first one
/// that the reader rejects. The contract only names the outcome.
#[verifier::external_body]
pub(crate) fn read_rows(bytes: &Vec<u8>, has_headers: bool, flexible: bool) -> (out: (
    Vec<Vec<String>>,
    Option<csv::Error>,
))
    ensures
        out.0.deep_view() == csv_decode(bytes@, has_headers, flexible).0,
        out.1.is_some() == csv_decode(bytes@, has_headers, flexible).1,
{
    let mut reader = csv::ReaderBuilder::new().has_headers(has_headers).flexible(
        flexible,
    ).from_reader(bytes.as_slice());
    let mut rows = Vec::new();
    for record in reader.records() {
        match record {
            Ok(fields) => rows.push(fields.iter().map(|field| field.to_string()).collect()),
            Err(error) => return (rows, Some(error)),
        }
    }
    (rows, None)
}

/// Writes `rows` with `csv::Writer::write_record` into memory and returns the
/// bytes. The writer refuses a record only when it is not flexible and the
/// record's field count differs from the first record's.
#[verifier::external_body]
pub(crate) fn write_rows(rows: &Vec<Vec<String>>, flexible: bool) -> (out: Result<
    Vec<u8>,
    csv::Error,
>)
    ensures
        out is Ok <==> flexible || uniform_width(rows.deep_view()),
        out is Ok ==> out->Ok_0@ == csv_encode(rows.deep_view()),
{
    let mut writer = csv::WriterBuilder::new().flexible(flexible).from_writer(Vec::new());
    for row in rows.iter() {
        writer.write_record(row.iter())?;
    }
    writer.into_inner().map_err(|error| csv::Error::from(error.into_error()))
}

} // verus!
