//! Delimited text, read and written by `csv`.

use vstd::prelude::*;
use crate::config::names_view;
use crate::error::ProcessorError;

verus! {

#[verifier::external_type_specification]
#[verifier::external_body]
pub struct ExCsvError(csv::Error);

/// The rows that `csv` reads from a text, the first row included, if the
/// text is well-formed delimited text.
pub uninterp spec fn csv_parse(text: Seq<char>) -> Option<Seq<Seq<Seq<char>>>>;

/// The bytes that `csv` writes for rows, if it accepts the rows.
pub uninterp spec fn csv_encode(rows: Seq<Seq<Seq<char>>>) -> Option<Seq<u8>>;

/// Whether all rows have as many fields as the first.
pub open spec fn uniform_width(rows: Seq<Seq<Seq<char>>>) -> bool {
    forall|i: int| 0 <= i < rows.len() ==> (#[trigger] rows[i]).len() == rows[0].len()
}

/// The fields of each row of a table.
pub open spec fn table_view(rows: Seq<Vec<String>>) -> Seq<Seq<Seq<char>>> {
    Seq::new(rows.len(), |i: int| names_view(rows[i]@))
}

/// A `csv::Reader` over the text, built without a header row, and its
/// `records`: all rows of the text as strings, or the first error that the
/// reader met. The outcome is a function of the text alone.
#[verifier::external_body]
fn read_all(text: &str) -> (r: Result<Vec<Vec<String>>, csv::Error>)
    ensures
        match r {
            Ok(rows) => csv_parse(text@) == Some(table_view(rows@)),
            Err(_) => csv_parse(text@) is None,
        },
{
    let mut reader = csv::ReaderBuilder::new().has_headers(false).from_reader(text.as_bytes());
    let mut rows = Vec::new();
    for record in reader.records() {
        rows.push(record?.iter().map(|field| field.to_string()).collect());
    }
    Ok(rows)
}

/// A `csv::Writer` over a byte vector, `write_record` for each row, and
/// `flush`: the bytes written, or the first error that the writer met. The
/// outcome is a function of the rows alone. A byte vector takes every
/// write, so the writer refuses only a row that has another number of
/// fields than the first: rows of one width are written.
#[verifier::external_body]
fn write_all(rows: &Vec<Vec<String>>) -> (r: Result<Vec<u8>, csv::Error>)
    ensures
        match r {
            Ok(bytes) => csv_encode(table_view(rows@)) == Some(bytes@),
            Err(_) => csv_encode(table_view(rows@)) is None,
        },
        uniform_width(table_view(rows@)) ==> r is Ok,
{
    let mut writer = csv::Writer::from_writer(Vec::new());
    for row in rows {
        writer.write_record(row)?;
    }
    writer.flush()?;
    Ok(writer.get_ref().clone())
}

/// `csv::Error` printed by `to_string`: what the error says.
#[verifier::external_body]
fn describe(error: &csv::Error) -> (text: String) {
    error.to_string()
}

/// Reads all rows of a delimited text. Fails with `ParseError` where the
/// text is malformed.
pub fn read_rows(text: &str) -> (r: Result<Vec<Vec<String>>, ProcessorError>)
    ensures
        match r {
            Ok(rows) => csv_parse(text@) == Some(table_view(rows@)),
            Err(e) => e is ParseError && csv_parse(text@) is None,
        },
{
    match read_all(text) {
        Ok(rows) => Ok(rows),
        Err(e) => Err(ProcessorError::ParseError(describe(&e))),
    }
}

/// Writes rows as delimited text. Fails with `SinkError` where the rows
/// cannot be written; rows that all have as many fields as the first can.
pub fn write_rows(rows: &Vec<Vec<String>>) -> (r: Result<Vec<u8>, ProcessorError>)
    ensures
        match r {
            Ok(bytes) => csv_encode(table_view(rows@)) == Some(bytes@),
            Err(e) => e is SinkError && csv_encode(table_view(rows@)) is None,
        },
        uniform_width(table_view(rows@)) ==> r is Ok,
{
    match write_all(rows) {
        Ok(bytes) => Ok(bytes),
        Err(e) => Err(ProcessorError::SinkError(describe(&e))),
    }
}

} // verus!
