use data_processor::clock::Timestamp;
use data_processor::ident::fresh_id;
use data_processor::pattern::matches_pattern;
use data_processor::text::{signed_text, unsigned_text};
use data_processor::value::DataValue;

fn text(s: &str) -> DataValue {
    DataValue::String(s.to_string())
}

#[test]
fn renders_compact_json_with_sorted_names() {
    let v = DataValue::Object(vec![
        ("b".to_string(), DataValue::Number(2)),
        ("a".to_string(), DataValue::Array(vec![DataValue::Null, DataValue::Bool(true), text("x")])),
    ]);
    assert_eq!(v.to_json_text(), "{\"a\":[null,true,\"x\"],\"b\":2}");
}

#[test]
fn renders_the_first_of_two_fields_with_one_name() {
    let v = DataValue::Object(vec![
        ("a".to_string(), DataValue::Number(1)),
        ("a".to_string(), DataValue::Number(2)),
    ]);
    assert_eq!(v.to_json_text(), "{\"a\":1}");
    assert_eq!(v.get("a"), Some(&DataValue::Number(1)));
}

#[test]
fn renders_strings_with_escapes() {
    assert_eq!(text("a\"b\n").to_json_text(), "\"a\\\"b\\n\"");
    assert_eq!(DataValue::Number(-7).to_json_text(), "-7");
    assert_eq!(DataValue::Null.to_json_text(), "null");
}

#[test]
fn reads_json_text() {
    let v = DataValue::from_json_text("{\"name\": \"bob\", \"tags\": [1, false, null]}");
    let expected = DataValue::Object(vec![
        ("name".to_string(), text("bob")),
        (
            "tags".to_string(),
            DataValue::Array(vec![DataValue::Number(1), DataValue::Bool(false), DataValue::Null]),
        ),
    ]);
    assert_eq!(v, Some(expected));
}

#[test]
fn rejects_text_that_is_no_json() {
    assert_eq!(DataValue::from_json_text("{\"name\": "), None);
    assert_eq!(DataValue::from_json_text(""), None);
    assert_eq!(DataValue::from_json_text("bob"), None);
}

#[test]
fn carries_numbers_that_are_no_64_bit_integers() {
    let v = DataValue::from_json_text("1.5").unwrap();
    assert_eq!(v, DataValue::Decimal("1.5".to_string()));
    assert_eq!(v.kind_name(), "number");
    assert_eq!(v.to_json_text(), "1.5");
    let big = DataValue::from_json_text("18446744073709551615").unwrap();
    assert_eq!(big, DataValue::Decimal("18446744073709551615".to_string()));
    assert_eq!(big.to_json_text(), "18446744073709551615");
    assert_eq!(DataValue::Decimal("no number".to_string()).to_json_text(), "null");
}

#[test]
fn names_the_kinds() {
    assert_eq!(DataValue::Null.kind_name(), "null");
    assert_eq!(DataValue::Bool(true).kind_name(), "boolean");
    assert_eq!(DataValue::Number(1).kind_name(), "number");
    assert_eq!(text("a").kind_name(), "string");
    assert_eq!(DataValue::Array(vec![]).kind_name(), "array");
    assert_eq!(DataValue::Object(vec![]).kind_name(), "object");
}

#[test]
fn gets_a_field_of_an_object_only() {
    let v = DataValue::Object(vec![("a".to_string(), DataValue::Number(1))]);
    assert_eq!(v.get("a"), Some(&DataValue::Number(1)));
    assert_eq!(v.get("b"), None);
    assert_eq!(DataValue::Array(vec![DataValue::Number(1)]).get("a"), None);
    assert_eq!(text("a").get("a"), None);
}

#[test]
fn sets_a_field_in_place_or_at_the_end() {
    let v = DataValue::Object(vec![
        ("a".to_string(), DataValue::Number(1)),
        ("b".to_string(), DataValue::Number(2)),
    ]);
    let v = v.with_field("a".to_string(), DataValue::Number(9));
    assert_eq!(
        v,
        DataValue::Object(vec![
            ("a".to_string(), DataValue::Number(9)),
            ("b".to_string(), DataValue::Number(2)),
        ])
    );
    let v = v.with_field("c".to_string(), DataValue::Null);
    assert_eq!(
        v,
        DataValue::Object(vec![
            ("a".to_string(), DataValue::Number(9)),
            ("b".to_string(), DataValue::Number(2)),
            ("c".to_string(), DataValue::Null),
        ])
    );
    assert_eq!(text("x").with_field("a".to_string(), DataValue::Null), text("x"));
}

#[test]
fn duplicates_and_compares_deeply() {
    let v = DataValue::Object(vec![(
        "a".to_string(),
        DataValue::Array(vec![DataValue::Number(1), text("x"), DataValue::Decimal("2.5".to_string())]),
    )]);
    let copy = v.duplicate();
    assert_eq!(copy, v);
    assert!(copy.same(&v));
    let other = DataValue::Object(vec![(
        "a".to_string(),
        DataValue::Array(vec![DataValue::Number(1), text("y"), DataValue::Decimal("2.5".to_string())]),
    )]);
    assert!(!other.same(&v));
    assert!(!DataValue::Number(1).same(&DataValue::Decimal("1".to_string())));
    assert!(DataValue::Null.is_null());
    assert!(!DataValue::Bool(false).is_null());
}

#[test]
fn prints_decimal_text() {
    assert_eq!(signed_text(0), "0");
    assert_eq!(signed_text(-42), "-42");
    assert_eq!(signed_text(i64::MIN), "-9223372036854775808");
    assert_eq!(signed_text(i64::MAX), "9223372036854775807");
    assert_eq!(unsigned_text(1005), "1005");
    assert_eq!(unsigned_text(u64::MAX), "18446744073709551615");
}

#[test]
fn prints_instants_as_rfc3339() {
    assert_eq!(
        Timestamp { secs: 0, nanos: 0 }.to_rfc3339(),
        Some("1970-01-01T00:00:00+00:00".to_string())
    );
    assert_eq!(
        Timestamp { secs: 1431648000, nanos: 500_000_000 }.to_rfc3339(),
        Some("2015-05-15T00:00:00.500+00:00".to_string())
    );
    assert_eq!(Timestamp { secs: i64::MAX, nanos: 0 }.to_rfc3339(), None);
}

#[test]
fn measures_elapsed_milliseconds() {
    let a = Timestamp { secs: 10, nanos: 900_000_000 };
    let b = Timestamp { secs: 12, nanos: 100_000_000 };
    assert_eq!(a.elapsed_ms(&b), 1200);
    assert_eq!(b.elapsed_ms(&a), 0);
    assert_eq!(a.elapsed_ms(&a), 0);
}

#[test]
fn reads_the_clock() {
    let now = Timestamp::now();
    assert!(now.nanos < 1_000_000_000);
    assert!(now.secs > 1_600_000_000);
    let later = Timestamp::now();
    assert!((now.secs, now.nanos) <= (later.secs, later.nanos));
}

#[test]
fn draws_identifiers_of_36_characters() {
    let a = fresh_id();
    let b = fresh_id();
    assert_eq!(a.chars().count(), 36);
    assert_eq!(b.chars().count(), 36);
    assert_ne!(a, b);
    assert_eq!(a.chars().filter(|c| *c == '-').count(), 4);
}

#[test]
fn matches_regular_expressions() {
    assert_eq!(matches_pattern("^[a-z]+@[a-z]+\\.com$", "bob@example.com"), Some(true));
    assert_eq!(matches_pattern("^[a-z]+@[a-z]+\\.com$", "bob"), Some(false));
    assert_eq!(matches_pattern("b+", "abba"), Some(true));
    assert_eq!(matches_pattern("(", "abba"), None);
}

#[test]
fn what_counts_of_a_value_has_the_first_field_of_each_name() {
    let nested = DataValue::Object(vec![
        ("a".to_string(), DataValue::Number(1)),
        (
            "b".to_string(),
            DataValue::Array(vec![DataValue::Object(vec![
                ("x".to_string(), text("first")),
                ("x".to_string(), text("second")),
                ("y".to_string(), DataValue::Null),
            ])]),
        ),
        ("a".to_string(), DataValue::Number(2)),
        ("b".to_string(), DataValue::Null),
    ]);
    let counted = DataValue::Object(vec![
        ("a".to_string(), DataValue::Number(1)),
        (
            "b".to_string(),
            DataValue::Array(vec![DataValue::Object(vec![
                ("x".to_string(), text("first")),
                ("y".to_string(), DataValue::Null),
            ])]),
        ),
    ]);
    assert_eq!(nested.canonical(), counted);
    assert_eq!(counted.canonical(), counted);
    assert_eq!(nested.to_json_text(), "{\"a\":1,\"b\":[{\"x\":\"first\",\"y\":null}]}");
    assert_eq!(text("a").canonical(), text("a"));
}
