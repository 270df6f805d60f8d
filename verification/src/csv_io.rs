//! The boundary to the `csv` crate: the writer and the reader as Verus sees
//! them. Nothing in this file is proved; each contract restates what the
//! crate's source shows.

use vstd::prelude::*;
use crate::record::fields_view;

verus! {

/// A `csv::Writer` that writes into a byte vector, held as an opaque value.
#[verifier::external_body]
pub struct RecordWriter {
    inner: csv::Writer<Vec<u8>>,
}

/// `csv::Reader`, carried through as an opaque value.
#[verifier::external_type_specification]
#[verifier::external_body]
#[verifier::reject_recursive_types(R)]
pub struct ExReader<R>(csv::Reader<R>);

/// `csv::Error`, carried through as an opaque value.
#[verifier::external_type_specification]
#[verifier::external_body]
pub struct ExCsvError(csv::Error);

/// The records that a writer has accepted so far, oldest first, each as the
/// texts of its fields.
pub uninterp spec fn written(w: RecordWriter) -> Seq<Seq<Seq<char>>>;

/// The bytes that a writer with the default configuration hands back after it
/// has accepted these records and nothing else.
pub uninterp spec fn csv_text(records: Seq<Seq<Seq<char>>>) -> Seq<u8>;

/// What a reader has still to deliver, next first: `Some` with the texts of
/// the fields for a record that it can read, `None` for one that it reports
/// as an error.
pub uninterp spec fn pending(r: csv::Reader<&[u8]>) -> Seq<Option<Seq<Seq<char>>>>;

/// What a reader delivers over these bytes, with the first record taken as
/// the header row and left out, and with records of any length accepted.
pub uninterp spec fn csv_records(data: Seq<u8>) -> Seq<Option<Seq<Seq<char>>>>;

/// `csv::Writer::from_writer` on an empty vector: a writer with the default
/// configuration that has accepted nothing yet.
#[verifier::external_body]
pub(crate) fn writer_new() -> (w: RecordWriter)
    ensures
        written(w) == Seq::<Seq<Seq<char>>>::empty(),
{
    RecordWriter { inner: csv::Writer::from_writer(Vec::new()) }
}

/// `csv::Writer::write_record`. The default writer takes the first record
/// whatever its length and refuses a later one exactly when its number of
/// fields differs from that of the first; a vector as the sink never fails.
/// A writer that refused a record is given up.
#[verifier::external_body]
pub(crate) fn writer_put(w: RecordWriter, fields: &Vec<String>) -> (r: Result<
    RecordWriter,
    csv::Error,
>)
    ensures
        r is Ok <==> (written(w).len() == 0 || written(w)[0].len() == fields@.len()),
        r matches Ok(after) ==> written(after) == written(w).push(fields_view(fields@)),
{
    let mut w = w;
    w.inner.write_record(fields)?;
    Ok(w)
}

/// `csv::Writer::into_inner`: flushes what is buffered and hands the sink
/// back. It fails only when the sink refuses a write, which a vector never
/// does.
#[verifier::external_body]
pub(crate) fn writer_finish(w: RecordWriter) -> (r: Option<Vec<u8>>)
    ensures
        r is Some,
        r matches Some(bytes) ==> bytes@ == csv_text(written(w)),
{
    w.inner.into_inner().ok()
}

/// `csv::ReaderBuilder::from_reader` with `flexible(true)` and the other
/// settings at their defaults: the first record is the header row and is
/// never delivered, and records may differ in length.
#[verifier::external_body]
pub(crate) fn reader_open<'a>(data: &'a [u8]) -> (r: csv::Reader<&'a [u8]>)
    ensures
        pending(r) == csv_records(data@),
{
    csv::ReaderBuilder::new().flexible(true).from_reader(data)
}

/// One step of `csv::Reader::records`: the next record with its fields
/// copied out, the error that the reader reports in its place, or nothing
/// once the input is used up.
#[verifier::external_body]
pub(crate) fn reader_next(r: &mut csv::Reader<&[u8]>) -> (out: Option<
    Result<Vec<String>, csv::Error>,
>)
    ensures
        out is None <==> pending(*old(r)).len() == 0,
        out is None ==> pending(*final(r)) == pending(*old(r)),
        out is Some ==> pending(*final(r)) == pending(*old(r)).drop_first(),
        out matches Some(Ok(fields)) ==> pending(*old(r))[0] == Some(fields_view(fields@)),
        out matches Some(Err(_)) ==> pending(*old(r))[0] is None,
{
    r.records().next().map(|read| read.map(|record| record.iter().map(String::from).collect()))
}

/// `csv::Error` shown as text, as its `Display` writes it.
#[verifier::external_body]
pub(crate) fn error_text(e: &csv::Error) -> (r: String) {
    e.to_string()
}

} // verus!
