use data_processor::clock::Timestamp;
use data_processor::config::OutputFormat;
use data_processor::delimited::{read_rows, write_rows};
use data_processor::error::{Missing, ProcessorError};
use data_processor::ingest::{
    file_format, new_records, objects_of, read_answer_values, read_file_values, split_lines, split_payload,
    values_of_lines, FileFormat,
};
use data_processor::processor::DataProcessor;
use data_processor::record::DataRecord;
use data_processor::sink::{output_results, remote_outcome, rows_of, Emission};
use data_processor::store::RecordStore;
use data_processor::value::DataValue;

const T0: Timestamp = Timestamp { secs: 0, nanos: 0 };

fn text(t: &str) -> DataValue {
    DataValue::String(t.to_string())
}

fn object(fields: Vec<(&str, DataValue)>) -> DataValue {
    DataValue::Object(fields.into_iter().map(|(k, v)| (k.to_string(), v)).collect())
}

fn strings(list: Vec<&str>) -> Vec<String> {
    list.into_iter().map(|n| n.to_string()).collect()
}

#[test]
fn splits_lines_as_a_buffered_reader_does() {
    assert_eq!(split_lines("a\nb"), strings(vec!["a", "b"]));
    assert_eq!(split_lines("a\nb\n"), strings(vec!["a", "b"]));
    assert_eq!(split_lines("a\r\nb\r\n"), strings(vec!["a", "b"]));
    assert_eq!(split_lines("a\n\nb"), strings(vec!["a", "", "b"]));
    assert_eq!(split_lines("\n"), strings(vec![""]));
    assert_eq!(split_lines(""), strings(vec![]));
    assert_eq!(split_lines("a\r"), strings(vec!["a\r"]));
    assert_eq!(split_lines("a\r\r\n"), strings(vec!["a\r"]));
}

#[test]
fn tells_the_kind_of_file_by_its_extension() {
    assert_eq!(file_format("data/sample.csv"), FileFormat::Csv);
    assert_eq!(file_format("data/sample.json"), FileFormat::JsonLines);
    assert_eq!(file_format(".csv"), FileFormat::Csv);
    assert_eq!(file_format("sample.CSV"), FileFormat::Unknown);
    assert_eq!(file_format("sample.csv.bak"), FileFormat::Unknown);
    assert_eq!(file_format("csv"), FileFormat::Unknown);
    assert_eq!(file_format(""), FileFormat::Unknown);
}

#[test]
fn reads_delimited_text() {
    let rows = read_rows("name,age\nbob,30\n\"amy, the second\",25\n").unwrap();
    assert_eq!(
        rows,
        vec![strings(vec!["name", "age"]), strings(vec!["bob", "30"]), strings(vec!["amy, the second", "25"])]
    );
    assert_eq!(read_rows("").unwrap(), Vec::<Vec<String>>::new());
    let error = read_rows("a,b\n1,2,3\n").unwrap_err();
    match error {
        ProcessorError::ParseError(message) => assert!(message.contains("CSV error")),
        other => panic!("unexpected error {:?}", other),
    }
}

#[test]
fn writes_delimited_text() {
    let rows = vec![strings(vec!["id", "note"]), strings(vec!["1", "a \"quoted\", word"])];
    assert_eq!(write_rows(&rows).unwrap(), b"id,note\n1,\"a \"\"quoted\"\", word\"\n".to_vec());
    assert_eq!(write_rows(&Vec::new()).unwrap(), Vec::<u8>::new());
    let uneven = vec![strings(vec!["a", "b"]), strings(vec!["1"])];
    assert!(matches!(write_rows(&uneven), Err(ProcessorError::SinkError(_))));
}

#[test]
fn the_header_row_names_the_fields() {
    let rows = vec![strings(vec!["name", "age"]), strings(vec!["bob", "30"]), strings(vec!["amy", "25"])];
    assert_eq!(
        objects_of(&rows),
        vec![
            object(vec![("name", text("bob")), ("age", text("30"))]),
            object(vec![("name", text("amy")), ("age", text("25"))]),
        ]
    );
    assert_eq!(objects_of(&vec![strings(vec!["name"])]), Vec::<DataValue>::new());
    assert_eq!(objects_of(&Vec::new()), Vec::<DataValue>::new());
    let uneven = vec![strings(vec!["a", "b"]), strings(vec!["1"]), strings(vec!["1", "2", "3"])];
    assert_eq!(
        objects_of(&uneven),
        vec![object(vec![("a", text("1"))]), object(vec![("a", text("1")), ("b", text("2"))])]
    );
}

#[test]
fn every_line_is_read_as_json() {
    let lines = strings(vec!["{\"a\":1}", "[2]", "3"]);
    assert_eq!(
        values_of_lines(&lines),
        Ok(vec![
            object(vec![("a", DataValue::Number(1))]),
            DataValue::Array(vec![DataValue::Number(2)]),
            DataValue::Number(3),
        ])
    );
    assert_eq!(values_of_lines(&Vec::new()), Ok(vec![]));
}

#[test]
fn a_line_that_is_no_json_is_a_parse_error() {
    let lines = strings(vec!["{\"a\":1}", "not json", "[2]"]);
    assert_eq!(values_of_lines(&lines), Err(ProcessorError::ParseError("Line 2 is not JSON".to_string())));
    let blank = strings(vec!["1", "", "3"]);
    assert_eq!(values_of_lines(&blank), Err(ProcessorError::ParseError("Line 2 is not JSON".to_string())));
    let last = strings(vec!["1", "2", "{"]);
    assert_eq!(values_of_lines(&last), Err(ProcessorError::ParseError("Line 3 is not JSON".to_string())));
}

#[test]
fn reads_the_payloads_of_a_file() {
    assert_eq!(
        read_file_values("people.csv", "name\nbob\n"),
        Ok(vec![object(vec![("name", text("bob"))])])
    );
    assert_eq!(
        read_file_values("people.json", "{\"name\":\"bob\"}\r\n{\"name\":\"amy\"}\n"),
        Ok(vec![object(vec![("name", text("bob"))]), object(vec![("name", text("amy"))])])
    );
    assert_eq!(
        read_file_values("people.json", "{\"name\":\"bob\"}\r\noops\n"),
        Err(ProcessorError::ParseError("Line 2 is not JSON".to_string()))
    );
    assert_eq!(read_file_values("people.txt", "name\nbob\n"), Ok(vec![]));
    assert!(matches!(read_file_values("people.csv", "a\n1,2\n"), Err(ProcessorError::ParseError(_))));
}

#[test]
fn takes_a_remote_answer_apart() {
    let array = DataValue::Array(vec![DataValue::Number(1), text("x")]);
    assert_eq!(split_payload(&array), vec![DataValue::Number(1), text("x")]);
    let wrapped = object(vec![("data", DataValue::Array(vec![object(vec![("a", DataValue::Null)])]))]);
    assert_eq!(split_payload(&wrapped), vec![object(vec![("a", DataValue::Null)])]);
    let single = object(vec![("data", text("no array")), ("b", DataValue::Number(2))]);
    assert_eq!(split_payload(&single), vec![single.duplicate()]);
    assert_eq!(split_payload(&text("scalar")), vec![text("scalar")]);
    assert_eq!(split_payload(&DataValue::Array(vec![])), Vec::<DataValue>::new());
}

#[test]
fn reads_a_remote_answer() {
    assert_eq!(read_answer_values(200, "[1, 2]"), Ok(vec![DataValue::Number(1), DataValue::Number(2)]));
    assert_eq!(read_answer_values(299, "{\"data\": [true]}"), Ok(vec![DataValue::Bool(true)]));
    assert_eq!(read_answer_values(404, "[1, 2]"), Err(ProcessorError::RemoteError { status: 404 }));
    assert_eq!(read_answer_values(199, "[1, 2]"), Err(ProcessorError::RemoteError { status: 199 }));
    assert_eq!(read_answer_values(300, "[1, 2]"), Err(ProcessorError::RemoteError { status: 300 }));
    assert_eq!(ProcessorError::RemoteError { status: 404 }.message(), "API request failed: 404");
    assert!(matches!(read_answer_values(200, "<html>"), Err(ProcessorError::ParseError(_))));
}

#[test]
fn makes_records_of_payloads() {
    let records = new_records("feed", vec![DataValue::Number(1), text("x")]);
    assert_eq!(records.len(), 2);
    assert_eq!(records[0].data, DataValue::Number(1));
    assert_eq!(records[1].data, text("x"));
    for r in &records {
        assert_eq!(r.source, "feed");
        assert!(!r.processed);
        assert!(r.metadata.is_empty());
        assert_eq!(r.id.chars().count(), 36);
        assert!(r.timestamp.secs > 1_600_000_000);
    }
    assert_ne!(records[0].id, records[1].id);
}

#[test]
fn the_service_ingests_files_and_answers() {
    let mut p = DataProcessor::starting_at(T0);
    assert_eq!(p.load_data_from_file("sample", "data/sample.csv", Some("a,b\n1,2\n3,4\n")), Ok(2));
    assert_eq!(p.load_data_from_file("lines", "data/lines.json", Some("1\n2\n3")), Ok(3));
    assert_eq!(p.load_data_from_file("none", "data/readme.md", Some("1\n2\n")), Ok(0));
    assert!(matches!(
        p.load_data_from_file("bad", "bad.csv", Some("a,b\n1\n")),
        Err(ProcessorError::ParseError(_))
    ));
    assert_eq!(
        p.load_data_from_file("gone", "gone.csv", None),
        Err(ProcessorError::NotFound(Missing::File))
    );
    assert_eq!(
        p.load_data_from_file("lines", "data/lines.json", Some("{\"a\":1}\nnot-json\n")),
        Err(ProcessorError::ParseError("Line 2 is not JSON".to_string()))
    );
    assert_eq!(p.load_data_from_file("lines", "data/lines.json", Some("4\n5\n")), Ok(2));
    assert_eq!(p.load_data_from_api("api", 200, "{\"data\":[{\"x\":1},{\"x\":2}]}"), Ok(2));
    assert_eq!(p.load_data_from_api("api", 503, "[]"), Err(ProcessorError::RemoteError { status: 503 }));
    assert!(matches!(p.load_data_from_api("api", 200, "{"), Err(ProcessorError::ParseError(_))));
    assert_eq!(p.load_data_from_file("sample", "data/sample.csv", Some("a,b\n5,6\n")), Ok(1));
}

#[test]
fn the_store_keeps_one_set_for_each_name() {
    let record = |id: &str| DataRecord::new(id.to_string(), T0, DataValue::Null, "s".to_string());
    let mut store = RecordStore::new();
    assert_eq!(store.len(), 0);
    assert!(store.first().is_none());
    assert!(store.get("a").is_none());
    store.insert("a".to_string(), vec![record("1")]);
    store.insert("b".to_string(), vec![record("2"), record("3")]);
    store.insert("a".to_string(), vec![record("4"), record("5"), record("6")]);
    assert_eq!(store.len(), 2);
    assert_eq!(store.get("a").unwrap().len(), 3);
    assert_eq!(store.get("b").unwrap().len(), 2);
    assert_eq!(store.first().unwrap()[0].id, "4");
    assert!(store.get("c").is_none());
}

fn two_records() -> Vec<DataRecord> {
    vec![
        DataRecord::new("r1".to_string(), T0, object(vec![("a", DataValue::Number(1))]), "src".to_string()),
        DataRecord::new(
            "r2".to_string(),
            Timestamp { secs: i64::MAX, nanos: 0 },
            text("plain"),
            "src".to_string(),
        ),
    ]
}

#[test]
fn delimited_output_has_a_header_and_a_row_for_each_record() {
    assert_eq!(
        rows_of(&two_records()),
        vec![
            strings(vec!["id", "timestamp", "source", "data"]),
            strings(vec!["r1", "1970-01-01T00:00:00+00:00", "src", "{\"a\":1}"]),
            strings(vec!["r2", "", "src", "\"plain\""]),
        ]
    );
    match output_results(two_records(), &OutputFormat::Csv) {
        Emission::DelimitedFile { path, content } => {
            assert_eq!(path, "output.csv");
            assert_eq!(
                String::from_utf8(content).unwrap(),
                "id,timestamp,source,data\nr1,1970-01-01T00:00:00+00:00,src,\"{\"\"a\"\":1}\"\nr2,,src,\"\"\"plain\"\"\"\n"
            );
        },
        other => panic!("unexpected emission {:?}", other),
    }
}

#[test]
fn each_destination_gets_its_emission() {
    assert_eq!(
        output_results(two_records(), &OutputFormat::Json),
        Emission::StructuredFile { path: "output.json".to_string(), records: two_records() }
    );
    let headers = vec![("X-Trace".to_string(), "yes".to_string())];
    let api = OutputFormat::Api { endpoint: "http://sink.example/in".to_string(), headers: headers.clone() };
    assert_eq!(
        output_results(two_records(), &api),
        Emission::Remote { endpoint: "http://sink.example/in".to_string(), headers, records: two_records() }
    );
    assert_eq!(output_results(two_records(), &OutputFormat::Parquet), Emission::Unsupported);
    let database = OutputFormat::Database { connection_string: "db://x".to_string(), table: "t".to_string() };
    assert_eq!(output_results(two_records(), &database), Emission::Unsupported);
}

#[test]
fn a_remote_sink_fails_on_a_status_that_is_no_success() {
    assert_eq!(remote_outcome(200), Ok(()));
    assert_eq!(remote_outcome(204), Ok(()));
    assert_eq!(remote_outcome(500), Err(ProcessorError::SinkError("API request failed: 500".to_string())));
    assert_eq!(remote_outcome(199), Err(ProcessorError::SinkError("API request failed: 199".to_string())));
    assert_eq!(remote_outcome(300).unwrap_err().kind(), "SinkError");
}
