//! Output: what is handed to a sink for a job's final record set.

use vstd::prelude::*;
use vstd::string::StringExecFns;
use crate::clock::rfc3339_text;
use crate::config::{names_view, OutputFormat};
use crate::delimited::{csv_encode, table_view, uniform_width, write_rows};
use crate::error::ProcessorError;
use crate::ingest::success;
use crate::json::canonical_text;
use crate::record::{records_view, DataRecord, Record};
use crate::text::{decimal, unsigned_text};

verus! {

/// What a sink is to do with a job's output.
#[derive(Debug, PartialEq)]
pub enum Emission {
    /// Write the records to the file as structured text.
    StructuredFile { path: String, records: Vec<DataRecord> },
    /// Write the bytes to the file.
    DelimitedFile { path: String, content: Vec<u8> },
    /// Send the records to the endpoint, with the headers.
    Remote { endpoint: String, headers: Vec<(String, String)>, records: Vec<DataRecord> },
    /// The destination is known but nothing writes to it: do nothing.
    Unsupported,
}

/// The first row of delimited output.
pub open spec fn header_row() -> Seq<Seq<char>> {
    seq!["id"@, "timestamp"@, "source"@, "data"@]
}

/// The row of a record in delimited output: its identifier, its instant
/// in RFC 3339 (empty where the instant has no such form), its source, and
/// its payload as JSON text.
pub open spec fn record_row(r: Record) -> Seq<Seq<char>> {
    seq![
        r.id,
        match rfc3339_text(r.timestamp.secs as int, r.timestamp.nanos as int) {
            Some(t) => t,
            None => Seq::empty(),
        },
        r.source,
        canonical_text(r.data),
    ]
}

/// The rows of delimited output: the header, then a row for each record.
pub open spec fn output_rows(records: Seq<Record>) -> Seq<Seq<Seq<char>>> {
    Seq::new(
        records.len() + 1,
        |i: int|
            if i == 0 {
                header_row()
            } else {
                record_row(records[i - 1])
            },
    )
}

/// The rows of delimited output for the records.
pub fn rows_of(data: &Vec<DataRecord>) -> (rows: Vec<Vec<String>>)
    ensures
        table_view(rows@) == output_rows(records_view(data@)),
{
    let mut rows: Vec<Vec<String>> = Vec::new();
    let header = vec![
        String::from_str("id"),
        String::from_str("timestamp"),
        String::from_str("source"),
        String::from_str("data"),
    ];
    assert(names_view(header@) =~= header_row());
    rows.push(header);
    let mut i: usize = 0;
    while i < data.len()
        invariant
            i <= data.len(),
            rows.len() == i + 1,
            names_view(rows@[0]@) == header_row(),
            forall|k: int| 0 <= k < i ==> names_view((#[trigger] rows@[k + 1])@) == record_row(data@[k]@),
        decreases data.len() - i,
    {
        let record = &data[i];
        let instant = match record.timestamp.to_rfc3339() {
            Some(t) => t,
            None => String::new(),
        };
        let row = vec![record.id.clone(), instant, record.source.clone(), record.data.to_json_text()];
        assert(names_view(row@) =~= record_row(record@));
        rows.push(row);
        i += 1;
    }
    assert forall|i: int| 0 <= i < rows@.len() implies table_view(rows@)[i] == output_rows(
        records_view(data@),
    )[i] by {
        if i > 0 {
            assert(names_view(rows@[(i - 1) + 1]@) == record_row(data@[i - 1]@));
        }
    }
    assert(table_view(rows@) =~= output_rows(records_view(data@)));
    rows
}

/// Whether the headers are the same names and values.
pub open spec fn same_headers(a: Seq<(String, String)>, b: Seq<(String, String)>) -> bool {
    &&& a.len() == b.len()
    &&& forall|i: int| 0 <= i < a.len() ==> (#[trigger] a[i]).0@ == b[i].0@ && a[i].1@ == b[i].1@
}

/// Whether the emission is what the destination asks for the records:
/// structured text goes to `output.json`, delimited text to `output.csv`,
/// the remote destination gets the records and the caller's headers, and
/// for the columnar and the database destinations nothing is written.
pub open spec fn emits(emission: Emission, data: Vec<DataRecord>, output_format: OutputFormat) -> bool {
    match (output_format, emission) {
        (OutputFormat::Json, Emission::StructuredFile { path, records }) => path@ == "output.json"@
            && records == data,
        (OutputFormat::Csv, Emission::DelimitedFile { path, content }) => path@ == "output.csv"@
            && csv_encode(output_rows(records_view(data@))) == Some(content@),
        (OutputFormat::Api { endpoint, headers }, Emission::Remote { endpoint: to, headers: with, records }) =>
            to@ == endpoint@ && same_headers(with@, headers@) && records == data,
        (OutputFormat::Parquet, Emission::Unsupported) => true,
        (OutputFormat::Database { .. }, Emission::Unsupported) => true,
        _ => false,
    }
}

/// Whether the emission is what the destination asks for records of the
/// given models.
pub open spec fn emits_models(emission: Emission, records: Seq<Record>, output_format: OutputFormat) -> bool {
    match (output_format, emission) {
        (OutputFormat::Json, Emission::StructuredFile { path, records: held }) => path@ == "output.json"@
            && records_view(held@) == records,
        (OutputFormat::Csv, Emission::DelimitedFile { path, content }) => path@ == "output.csv"@
            && csv_encode(output_rows(records)) == Some(content@),
        (OutputFormat::Api { endpoint, headers }, Emission::Remote { endpoint: to, headers: with, records: held }) =>
            to@ == endpoint@ && same_headers(with@, headers@) && records_view(held@) == records,
        (OutputFormat::Parquet, Emission::Unsupported) => true,
        (OutputFormat::Database { .. }, Emission::Unsupported) => true,
        _ => false,
    }
}

/// The rows of delimited output all have four fields.
pub proof fn lemma_output_rows_uniform(records: Seq<Record>)
    ensures
        uniform_width(output_rows(records)),
{
    assert forall|i: int| 0 <= i < output_rows(records).len() implies (#[trigger] output_rows(records)[i]).len()
        == output_rows(records)[0].len() by {
        assert(header_row().len() == 4);
        if i > 0 {
            assert(record_row(records[i - 1]).len() == 4);
        }
    }
}

/// Decides what the sink is to do with the records of a finished pipeline:
/// structured text goes to `output.json`, delimited text to `output.csv`,
/// the remote destination gets the records and the caller's headers, and
/// for the columnar and the database destinations nothing is written.
pub fn output_results(data: Vec<DataRecord>, output_format: &OutputFormat) -> (emission: Emission)
    ensures
        emits(emission, data, *output_format),
        emits_models(emission, records_view(data@), *output_format),
{
    match output_format {
        OutputFormat::Json => Emission::StructuredFile { path: String::from_str("output.json"), records: data },
        OutputFormat::Csv => {
            let rows = rows_of(&data);
            proof {
                lemma_output_rows_uniform(records_view(data@));
            }
            match write_rows(&rows) {
                Ok(content) => Emission::DelimitedFile { path: String::from_str("output.csv"), content },
                Err(_) => unreached(),
            }
        },
        OutputFormat::Api { endpoint, headers } => {
            let mut with: Vec<(String, String)> = Vec::new();
            let mut i: usize = 0;
            while i < headers.len()
                invariant
                    i <= headers.len(),
                    with.len() == i,
                    forall|k: int|
                        0 <= k < i ==> (#[trigger] with@[k]).0@ == headers@[k].0@ && with@[k].1@
                            == headers@[k].1@,
                decreases headers.len() - i,
            {
                with.push((headers[i].0.clone(), headers[i].1.clone()));
                i += 1;
            }
            Emission::Remote { endpoint: endpoint.clone(), headers: with, records: data }
        },
        _ => Emission::Unsupported,
    }
}

/// What the sink's remote answer means: a success status is well; any
/// other is a `SinkError` that names the status.
pub fn remote_outcome(status: u16) -> (r: Result<(), ProcessorError>)
    ensures
        match r {
            Ok(_) => success(status),
            Err(ProcessorError::SinkError(text)) => !success(status) && text@ == "API request failed: "@
                + decimal(status as int),
            Err(_) => false,
        },
{
    if 200 <= status && status < 300 {
        Ok(())
    } else {
        Err(
            ProcessorError::SinkError(
                String::from_str("API request failed: ").concat(unsigned_text(status as u64).as_str()),
            ),
        )
    }
}

} // verus!
