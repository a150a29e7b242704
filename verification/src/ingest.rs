//! Ingestion: turning what an adapter read into records.

use vstd::prelude::*;
use vstd::string::StringExecFns;
use crate::clock::Timestamp;
use crate::config::names_view;
use crate::delimited::{csv_parse, read_rows, table_view};
use crate::error::ProcessorError;
use crate::ident::{fresh_id, ID_LENGTH};
use crate::json::json_parse;
use crate::record::{DataRecord, Record};
use crate::text::{chars_of, text_of, unsigned_text};
use crate::value::{entries_view, items_view, lemma_array_view, lemma_object_view, DataValue, Json};

verus! {

/// The line without the carriage return that ends it, if one does.
pub open spec fn without_return(line: Seq<char>) -> Seq<char> {
    if line.len() > 0 && line.last() == '\r' {
        line.drop_last()
    } else {
        line
    }
}

/// The lines of the text from position `i` on, where the line that holds
/// position `i` began at `start`. A line ends at a line feed, which is not
/// part of it, nor is a carriage return before the line feed. What follows
/// the last line feed is a line unless it is empty.
pub open spec fn lines_from(text: Seq<char>, start: int, i: int) -> Seq<Seq<char>>
    decreases text.len() - i,
{
    if i < 0 || i >= text.len() {
        if 0 <= start < text.len() {
            seq![text.subrange(start, text.len() as int)]
        } else {
            Seq::empty()
        }
    } else if text[i] == '\n' {
        seq![without_return(text.subrange(start, i))] + lines_from(text, i + 1, i + 1)
    } else {
        lines_from(text, start, i + 1)
    }
}

/// The lines of a text.
pub open spec fn lines_of(text: Seq<char>) -> Seq<Seq<char>> {
    lines_from(text, 0, 0)
}

/// The lines of a text.
pub fn split_lines(text: &str) -> (lines: Vec<String>)
    ensures
        names_view(lines@) == lines_of(text@),
{
    let chars = chars_of(text);
    let mut lines: Vec<String> = Vec::new();
    let mut start: usize = 0;
    let mut i: usize = 0;
    assert(names_view(lines@) + lines_from(chars@, 0, 0) =~= lines_from(chars@, 0, 0));
    while i < chars.len()
        invariant
            start <= i <= chars.len(),
            chars@ == text@,
            lines_of(chars@) == names_view(lines@) + lines_from(chars@, start as int, i as int),
        decreases chars.len() - i,
    {
        if chars[i] == '\n' {
            let ghost done = names_view(lines@);
            let stop = if i > start && chars[i - 1] == '\r' {
                i - 1
            } else {
                i
            };
            let line = text_of(&chars, start, stop);
            assert(line@ =~= without_return(chars@.subrange(start as int, i as int)));
            lines.push(line);
            assert(names_view(lines@) =~= done + seq![line@]);
            assert(done + (seq![line@] + lines_from(chars@, i + 1, i + 1)) =~= (done + seq![line@])
                + lines_from(chars@, i + 1, i + 1));
            start = i + 1;
        }
        i += 1;
    }
    if start < chars.len() {
        let ghost done = names_view(lines@);
        let line = text_of(&chars, start, chars.len());
        lines.push(line);
        assert(names_view(lines@) =~= done + seq![line@]);
    } else {
        assert(names_view(lines@) + Seq::<Seq<char>>::empty() =~= names_view(lines@));
    }
    lines
}

/// The payloads that a remote answer holds: the items of an array; the
/// items of the array in the `data` field of an object; or the answer
/// itself.
pub open spec fn payload_items(payload: Json) -> Seq<Json> {
    match payload {
        Json::Array(items) => items,
        Json::Object(_) => match payload.field("data"@) {
            Some(Json::Array(items)) => items,
            _ => seq![payload],
        },
        _ => seq![payload],
    }
}

/// The payloads that a remote answer holds, each a copy.
pub fn split_payload(payload: &DataValue) -> (out: Vec<DataValue>)
    ensures
        items_view(out@) == payload_items(payload@),
{
    let items: Option<&Vec<DataValue>> = match payload {
        DataValue::Array(items) => Some(items),
        DataValue::Object(_) => match payload.get("data") {
            Some(DataValue::Array(items)) => Some(items),
            _ => None,
        },
        _ => None,
    };
    let mut out: Vec<DataValue> = Vec::new();
    match items {
        Some(items) => {
            proof {
                lemma_array_view(*items);
            }
            let mut i: usize = 0;
            while i < items.len()
                invariant
                    i <= items.len(),
                    out.len() == i,
                    forall|k: int| 0 <= k < i ==> (#[trigger] out@[k])@ == items@[k]@,
                decreases items.len() - i,
            {
                out.push(items[i].duplicate());
                i += 1;
            }
            assert(items_view(out@) =~= items_view(items@));
        },
        None => {
            out.push(payload.duplicate());
            assert(items_view(out@) =~= seq![payload@]);
        },
    }
    out
}

/// The payload of a row: an object with a field for each column that both
/// the header and the row have, named by the header, holding the row's
/// text.
pub open spec fn row_object(header: Seq<Seq<char>>, row: Seq<Seq<char>>) -> Json {
    Json::Object(
        Seq::new(
            if header.len() <= row.len() {
                header.len()
            } else {
                row.len()
            },
            |j: int| (header[j], Json::String(row[j])),
        ),
    )
}

/// The payloads of a table: one for each row after the first, which is the
/// header.
pub open spec fn table_objects(rows: Seq<Seq<Seq<char>>>) -> Seq<Json> {
    if rows.len() == 0 {
        Seq::empty()
    } else {
        Seq::new((rows.len() - 1) as nat, |i: int| row_object(rows[0], rows[i + 1]))
    }
}

/// The payloads of a table.
pub fn objects_of(rows: &Vec<Vec<String>>) -> (out: Vec<DataValue>)
    ensures
        items_view(out@) == table_objects(table_view(rows@)),
{
    let mut out: Vec<DataValue> = Vec::new();
    if rows.len() == 0 {
        assert(items_view(out@) =~= table_objects(table_view(rows@)));
        return out;
    }
    let header = &rows[0];
    let mut i: usize = 1;
    while i < rows.len()
        invariant
            1 <= i <= rows.len(),
            header == rows@[0],
            out.len() == i - 1,
            forall|k: int|
                0 <= k < i - 1 ==> (#[trigger] out@[k])@ == row_object(
                    table_view(rows@)[0],
                    table_view(rows@)[k + 1],
                ),
        decreases rows.len() - i,
    {
        let row = &rows[i];
        let width = if header.len() <= row.len() {
            header.len()
        } else {
            row.len()
        };
        let mut fields: Vec<(String, DataValue)> = Vec::new();
        let mut j: usize = 0;
        while j < width
            invariant
                j <= width,
                width <= header.len(),
                width <= row.len(),
                fields.len() == j,
                forall|k: int|
                    0 <= k < j ==> (#[trigger] fields@[k]).0@ == header@[k]@ && fields@[k].1@ == Json::String(
                        row@[k]@,
                    ),
            decreases width - j,
        {
            fields.push((header[j].clone(), DataValue::String(row[j].clone())));
            j += 1;
        }
        proof {
            lemma_object_view(fields);
            assert(entries_view(fields@) =~= row_object(
                table_view(rows@)[0],
                table_view(rows@)[i as int],
            )->Object_0);
        }
        out.push(DataValue::Object(fields));
        i += 1;
    }
    assert(items_view(out@) =~= table_objects(table_view(rows@)));
    out
}

/// The payloads of the lines, in the lines' order, if every line is JSON.
pub open spec fn line_values(lines: Seq<Seq<char>>) -> Option<Seq<Json>>
    decreases lines.len(),
{
    if lines.len() == 0 {
        Some(Seq::empty())
    } else {
        match (line_values(lines.drop_last()), json_parse(lines.last())) {
            (Some(rest), Some(v)) => Some(rest.push(v)),
            _ => None,
        }
    }
}

/// Lines that begin with lines of which one is no JSON hold one that is no
/// JSON.
pub proof fn lemma_line_values_none(lines: Seq<Seq<char>>, i: int)
    requires
        0 <= i <= lines.len(),
        line_values(lines.take(i)) is None,
    ensures
        line_values(lines) is None,
    decreases lines.len() - i,
{
    if i < lines.len() {
        assert(lines.take(i + 1).drop_last() =~= lines.take(i));
        lemma_line_values_none(lines, i + 1);
    } else {
        assert(lines.take(i) =~= lines);
    }
}

/// Reads each line as JSON. Fails with `ParseError`, which names the first
/// line that is no JSON, where there is such a line.
pub fn values_of_lines(lines: &Vec<String>) -> (r: Result<Vec<DataValue>, ProcessorError>)
    ensures
        match r {
            Ok(out) => line_values(names_view(lines@)) == Some(items_view(out@)),
            Err(e) => e is ParseError && line_values(names_view(lines@)) is None,
        },
{
    let ghost all = names_view(lines@);
    let mut out: Vec<DataValue> = Vec::new();
    let mut i: usize = 0;
    assert(items_view(out@) =~= Seq::<Json>::empty());
    while i < lines.len()
        invariant
            i <= lines.len(),
            all == names_view(lines@),
            line_values(all.take(i as int)) == Some(items_view(out@)),
        decreases lines.len() - i,
    {
        let ghost before = items_view(out@);
        assert(all.take(i + 1).drop_last() =~= all.take(i as int));
        assert(all.take(i + 1).last() == lines@[i as int]@);
        match DataValue::from_json_text(lines[i].as_str()) {
            Some(v) => {
                out.push(v);
                assert(items_view(out@) =~= before.push(v@));
            },
            None => {
                proof {
                    lemma_line_values_none(all, i + 1);
                }
                let message = String::from_str("Line ").concat(unsigned_text(i as u64 + 1).as_str()).concat(
                    " is not JSON",
                );
                return Err(ProcessorError::ParseError(message));
            },
        }
        i += 1;
    }
    assert(all.take(lines@.len() as int) =~= all);
    Ok(out)
}

/// Whether a record is what ingestion makes of a payload: it holds the
/// payload, names its source, is not processed, has no metadata, and goes
/// by an identifier of the usual length.
pub open spec fn ingested(r: Record, data: Json, source: Seq<char>) -> bool {
    &&& r.data == data
    &&& r.source == source
    &&& !r.processed
    &&& r.metadata.len() == 0
    &&& r.id.len() == ID_LENGTH
}

/// Makes a record of each payload, each with a new identifier and the
/// current instant.
pub fn new_records(source_id: &str, values: Vec<DataValue>) -> (out: Vec<DataRecord>)
    ensures
        out.len() == values.len(),
        forall|i: int| 0 <= i < out.len() ==> ingested((#[trigger] out@[i])@, values@[i]@, source_id@),
{
    let ghost input = values@;
    let mut out: Vec<DataRecord> = Vec::new();
    for value in it: values
        invariant
            it.seq() == input,
            out.len() == it.index(),
            forall|i: int| 0 <= i < out.len() ==> ingested((#[trigger] out@[i])@, input[i]@, source_id@),
    {
        let record = DataRecord::new(fresh_id(), Timestamp::now(), value, source_id.to_owned());
        out.push(record);
    }
    out
}

/// The kinds of file that ingestion reads.
#[derive(Clone, Copy, Debug, PartialEq, Eq, Structural)]
pub enum FileFormat {
    /// Delimited text whose first row names the fields.
    Csv,
    /// One JSON value on each line.
    JsonLines,
    /// Any other file: it holds no records.
    Unknown,
}

/// Whether the text ends with the suffix.
pub open spec fn ends_with(text: Seq<char>, suffix: Seq<char>) -> bool {
    text.len() >= suffix.len() && text.subrange(text.len() - suffix.len(), text.len() as int) == suffix
}

/// The kind of file that a path names, by its extension.
pub open spec fn format_of(path: Seq<char>) -> FileFormat {
    if ends_with(path, ".csv"@) {
        FileFormat::Csv
    } else if ends_with(path, ".json"@) {
        FileFormat::JsonLines
    } else {
        FileFormat::Unknown
    }
}

/// Decides whether the text ends with the suffix.
pub fn has_suffix(text: &Vec<char>, suffix: &str) -> (r: bool)
    ensures
        r == ends_with(text@, suffix@),
{
    let tail = chars_of(suffix);
    if text.len() < tail.len() {
        return false;
    }
    let start = text.len() - tail.len();
    let mut i: usize = 0;
    while i < tail.len()
        invariant
            i <= tail.len(),
            start + tail.len() == text.len(),
            tail@ == suffix@,
            forall|k: int| 0 <= k < i ==> text@[start + k] == tail@[k],
        decreases tail.len() - i,
    {
        if text[start + i] != tail[i] {
            assert(text@.subrange(start as int, text@.len() as int)[i as int] != tail@[i as int]);
            return false;
        }
        i += 1;
    }
    assert(text@.subrange(start as int, text@.len() as int) =~= tail@);
    true
}

/// The kind of file that a path names.
pub fn file_format(path: &str) -> (format: FileFormat)
    ensures
        format == format_of(path@),
{
    let chars = chars_of(path);
    if has_suffix(&chars, ".csv") {
        FileFormat::Csv
    } else if has_suffix(&chars, ".json") {
        FileFormat::JsonLines
    } else {
        FileFormat::Unknown
    }
}

/// The payloads that a file of the given path and content holds, if the
/// content is well-formed.
pub open spec fn file_values(path: Seq<char>, content: Seq<char>) -> Option<Seq<Json>> {
    match format_of(path) {
        FileFormat::Csv => match csv_parse(content) {
            Some(rows) => Some(table_objects(rows)),
            None => None,
        },
        FileFormat::JsonLines => line_values(lines_of(content)),
        FileFormat::Unknown => Some(Seq::empty()),
    }
}

/// Reads the payloads of a file's content. Fails with `ParseError` where
/// delimited text is malformed or a line of a `.json` file is no JSON.
pub fn read_file_values(path: &str, content: &str) -> (r: Result<Vec<DataValue>, ProcessorError>)
    ensures
        match r {
            Ok(values) => file_values(path@, content@) == Some(items_view(values@)),
            Err(e) => e is ParseError && file_values(path@, content@) is None,
        },
{
    match file_format(path) {
        FileFormat::Csv => match read_rows(content) {
            Ok(rows) => Ok(objects_of(&rows)),
            Err(e) => Err(e),
        },
        FileFormat::JsonLines => {
            let lines = split_lines(content);
            values_of_lines(&lines)
        },
        FileFormat::Unknown => {
            let values: Vec<DataValue> = Vec::new();
            assert(items_view(values@) =~= Seq::<Json>::empty());
            Ok(values)
        },
    }
}

/// Whether a status of a remote answer is a success.
pub open spec fn success(status: u16) -> bool {
    200 <= status < 300
}

/// The payloads that a remote answer with the given body holds, if the
/// body is JSON.
pub open spec fn answer_values(body: Seq<char>) -> Option<Seq<Json>> {
    match json_parse(body) {
        Some(payload) => Some(payload_items(payload)),
        None => None,
    }
}

/// Reads the payloads of a remote answer. Fails with `RemoteError` where
/// the status is no success, and with `ParseError` where the body is not
/// JSON.
pub fn read_answer_values(status: u16, body: &str) -> (r: Result<Vec<DataValue>, ProcessorError>)
    ensures
        match r {
            Ok(values) => success(status) && answer_values(body@) == Some(items_view(values@)),
            Err(ProcessorError::RemoteError { status: s }) => !success(status) && s == status,
            Err(ProcessorError::ParseError(_)) => success(status) && answer_values(body@) is None,
            Err(_) => false,
        },
{
    if status < 200 || status >= 300 {
        return Err(ProcessorError::RemoteError { status });
    }
    match DataValue::from_json_text(body) {
        Some(payload) => Ok(split_payload(&payload)),
        None => Err(ProcessorError::ParseError("Response body is not JSON".to_owned())),
    }
}

} // verus!
