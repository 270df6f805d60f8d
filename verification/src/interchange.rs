//! Bulk exchange of the timetable as CSV text.
//!
//! Export turns the entries into the bytes of a CSV table; import turns the
//! bytes of a CSV table into entries and leaves the store alone. Reading and
//! writing the file is the caller's business.

use vstd::prelude::*;
use crate::course::{Course, views};
use crate::csv_io::{
    csv_records, csv_text, error_text, pending, reader_next, reader_open, writer_finish,
    writer_new, writer_put, written,
};
use crate::error::{describe, StoreError};
use crate::record::{
    courses_from_records, export_records, export_rows, fields_view, lemma_export_rows_width,
    records_view, rows_courses, COLUMNS,
};
use crate::store::AppState;

verus! {

/// Every record of the table can be read.
pub open spec fn all_readable(outcomes: Seq<Option<Seq<Seq<char>>>>) -> bool {
    forall|i: int| 0 <= i < outcomes.len() ==> (#[trigger] outcomes[i]) is Some
}

/// The rows of a table whose records can all be read.
pub open spec fn readable_rows(outcomes: Seq<Option<Seq<Seq<char>>>>) -> Seq<Seq<Seq<char>>>
    recommends
        all_readable(outcomes),
{
    outcomes.map_values(
        |o: Option<Seq<Seq<char>>>|
            match o {
                Some(row) => row,
                None => Seq::empty(),
            },
    )
}

/// How the message of a record that cannot be read begins.
pub open spec fn parse_failure_opening() -> Seq<char> {
    "Failed to parse CSV record: "@
}

/// `text` begins with `opening`.
pub open spec fn begins_with(text: Seq<char>, opening: Seq<char>) -> bool {
    opening.len() <= text.len() && text.subrange(0, opening.len() as int) == opening
}

/// The entries as a CSV table: the header row, then one row per entry in the
/// order of the store, as the bytes of UTF-8 text. The rows all have eight
/// columns, so the writer takes every one of them and the export succeeds.
pub fn export_to_csv(state: &AppState) -> (r: Result<Vec<u8>, StoreError>)
    ensures
        r is Ok,
        r matches Ok(bytes) ==> bytes@ == csv_text(export_rows(state@.courses)),
{
    let records = export_records(state.courses());
    let ghost rows = records_view(records@);
    proof {
        lemma_export_rows_width(state@.courses);
    }
    let mut writer = writer_new();
    for i in 0..records.len()
        invariant
            rows == records_view(records@),
            rows == export_rows(state@.courses),
            forall|k: int| 0 <= k < rows.len() ==> (#[trigger] rows[k]).len() == COLUMNS,
            written(writer) == rows.take(i as int),
    {
        let ghost before = written(writer);
        proof {
            assert(rows[i as int] == fields_view(records@[i as int]@));
            assert(i > 0 ==> before[0] == rows[0]);
        }
        writer = match writer_put(writer, &records[i]) {
            Ok(next) => next,
            Err(e) => {
                let opening = if i == 0 {
                    "Failed to write header: "
                } else {
                    "Failed to write record: "
                };
                return Err(
                    StoreError::Serialization(describe(opening, error_text(&e).as_str())),
                );
            },
        };
        proof {
            assert(rows.take(i + 1) =~= before.push(rows[i as int]));
        }
    }
    proof {
        assert(rows.take(records@.len() as int) == rows);
    }
    match writer_finish(writer) {
        Some(bytes) => Ok(bytes),
        None => Err(StoreError::Io(String::from_str("Failed to flush CSV"))),
    }
}

/// The records of a CSV table, header row left out, each as its fields. The
/// call fails with `Parse` as soon as the reader reports a record that it
/// cannot read, and then hands out none of the records before it.
pub fn read_records(data: &[u8]) -> (r: Result<Vec<Vec<String>>, StoreError>)
    ensures
        r is Ok <==> all_readable(csv_records(data@)),
        r matches Ok(records) ==> records_view(records@) == readable_rows(csv_records(data@)),
        r matches Err(e) ==> e matches StoreError::Parse(m) && begins_with(
            m@,
            parse_failure_opening(),
        ),
{
    let ghost all = csv_records(data@);
    let ghost mut read: int = 0;
    let mut reader = reader_open(data);
    let mut records: Vec<Vec<String>> = Vec::new();
    loop
        invariant
            all == csv_records(data@),
            0 <= read <= all.len(),
            pending(reader) == all.skip(read),
            all_readable(all.take(read)),
            records_view(records@) == readable_rows(all.take(read)),
        ensures
            read == all.len(),
        decreases all.len() - read,
    {
        let ghost before = records_view(records@);
        match reader_next(&mut reader) {
            None => {
                break ;
            },
            Some(Ok(fields)) => {
                records.push(fields);
                proof {
                    assert(all.skip(read)[0] == all[read]);
                    assert(all.skip(read).drop_first() == all.skip(read + 1));
                    assert(all.take(read + 1) == all.take(read).push(all[read]));
                    assert(records_view(records@) =~= before.push(all[read]->0));
                    assert(readable_rows(all.take(read + 1)) =~= before.push(all[read]->0));
                    read = read + 1;
                }
            },
            Some(Err(e)) => {
                proof {
                    assert(all.skip(read)[0] == all[read]);
                }
                let message = describe("Failed to parse CSV record: ", error_text(&e).as_str());
                assert(message@.subrange(0, parse_failure_opening().len() as int)
                    =~= parse_failure_opening());
                return Err(StoreError::Parse(message));
            },
        }
    }
    proof {
        assert(all.take(read) == all);
    }
    Ok(records)
}

/// The entries that a CSV table carries, in the order of its rows. The first
/// row is the header and is never an entry. Rows with fewer than eight
/// columns are passed over; a numeric column that holds no number counts as
/// 1. The store is not touched: adding the entries is a call of its own.
pub fn import_from_csv(data: &[u8]) -> (r: Result<Vec<Course>, StoreError>)
    ensures
        r is Ok <==> all_readable(csv_records(data@)),
        r matches Ok(courses) ==> views(courses@) == rows_courses(
            readable_rows(csv_records(data@)),
        ),
        r matches Err(e) ==> e matches StoreError::Parse(m) && begins_with(
            m@,
            parse_failure_opening(),
        ),
{
    match read_records(data) {
        Ok(records) => Ok(courses_from_records(&records)),
        Err(e) => Err(e),
    }
}

} // verus!
