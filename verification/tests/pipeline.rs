use data_processor::aggregate::aggregate;
use data_processor::clock::Timestamp;
use data_processor::config::{AggregateFunction, Operation, ValidationRule, ValidationType};
use data_processor::dedup::{deduplicate, key_of};
use data_processor::error::{Missing, ProcessorError};
use data_processor::join::{join, merge};
use data_processor::ops::{execute_operation, filter};
use data_processor::record::{duplicate_records, DataRecord};
use data_processor::sorting::sort;
use data_processor::store::RecordStore;
use data_processor::transform::transform;
use data_processor::value::DataValue;

const EPOCH: Timestamp = Timestamp { secs: 0, nanos: 0 };

fn s(text: &str) -> DataValue {
    DataValue::String(text.to_string())
}

fn object(fields: Vec<(&str, DataValue)>) -> DataValue {
    DataValue::Object(fields.into_iter().map(|(k, v)| (k.to_string(), v)).collect())
}

fn record(id: &str, fields: Vec<(&str, DataValue)>) -> DataRecord {
    DataRecord::new(id.to_string(), EPOCH, object(fields), "test".to_string())
}

fn ids(records: &Vec<DataRecord>) -> Vec<String> {
    records.iter().map(|r| r.id.clone()).collect()
}

fn names(list: Vec<&str>) -> Vec<String> {
    list.into_iter().map(|n| n.to_string()).collect()
}

fn amounts() -> Vec<DataRecord> {
    vec![
        record("a", vec![("amount", DataValue::Number(3))]),
        record("b", vec![("amount", DataValue::Number(1))]),
        record("c", vec![("amount", DataValue::Number(2))]),
    ]
}

#[test]
fn filter_keeps_the_records_that_meet_the_condition() {
    assert_eq!(ids(&filter(amounts(), "amount >= 2")), vec!["a", "c"]);
    assert_eq!(ids(&filter(amounts(), "true")), vec!["a", "b", "c"]);
    assert_eq!(ids(&filter(amounts(), "false")), Vec::<String>::new());
    assert_eq!(ids(&filter(amounts(), "other == 1")), Vec::<String>::new());
    assert_eq!(ids(&filter(amounts(), "no condition at all")), Vec::<String>::new());
    assert_eq!(ids(&filter(Vec::new(), "true")), Vec::<String>::new());
}

#[test]
fn transform_replaces_the_field_where_it_is_there() {
    let data = vec![
        record("a", vec![("amount", DataValue::Number(3)), ("name", s("x"))]),
        record("b", vec![("name", s("y"))]),
        record("c", vec![("amount", s("seven"))]),
    ];
    let (out, errors) = transform(data, "amount", "amount * 10", EPOCH);
    assert_eq!(out[0].data, object(vec![("amount", DataValue::Number(30)), ("name", s("x"))]));
    assert_eq!(out[1].data, object(vec![("name", s("y"))]));
    assert_eq!(out[2].data, object(vec![("amount", s("seven"))]));
    assert_eq!(ids(&out), vec!["a", "b", "c"]);
    assert_eq!(out[0].source, "test");
    assert_eq!(errors.len(), 1);
    assert_eq!(errors[0].error_type, "TransformError");
    assert_eq!(errors[0].message, "Expression has no value for field amount");
    assert_eq!(errors[0].record_id, Some("c".to_string()));
    assert_eq!(errors[0].timestamp, EPOCH);
    assert_eq!(errors[0].context, vec![("expression".to_string(), s("amount * 10"))]);
}

#[test]
fn transform_by_a_text_that_is_no_expression_changes_nothing() {
    let (out, errors) = transform(amounts(), "amount", "amount ** 2", EPOCH);
    assert_eq!(out, amounts());
    assert_eq!(errors.len(), 3);
}

#[test]
fn transform_handles_many_records() {
    let data: Vec<DataRecord> =
        (0..2000).map(|i| record(&format!("r{}", i), vec![("n", DataValue::Number(i))])).collect();
    let (out, errors) = transform(data, "n", "n + 1", EPOCH);
    assert_eq!(out.len(), 2000);
    assert!(errors.is_empty());
    for (i, r) in out.iter().enumerate() {
        assert_eq!(r.id, format!("r{}", i));
        assert_eq!(r.data, object(vec![("n", DataValue::Number(i as i64 + 1))]));
    }
}

#[test]
fn sort_orders_by_number() {
    assert_eq!(ids(&sort(amounts(), &names(vec!["amount"]), true)), vec!["b", "c", "a"]);
    assert_eq!(ids(&sort(amounts(), &names(vec!["amount"]), false)), vec!["a", "c", "b"]);
    assert_eq!(ids(&sort(amounts(), &names(vec![]), true)), vec!["a", "b", "c"]);
    assert_eq!(ids(&sort(Vec::new(), &names(vec!["amount"]), true)), Vec::<String>::new());
}

#[test]
fn sort_compares_numbers_as_numbers() {
    let data = vec![
        record("ten", vec![("n", DataValue::Number(10))]),
        record("nine", vec![("n", DataValue::Number(9))]),
        record("minus", vec![("n", DataValue::Number(-1))]),
    ];
    assert_eq!(ids(&sort(data, &names(vec!["n"]), true)), vec!["minus", "nine", "ten"]);
}

#[test]
fn sort_is_stable() {
    let data = vec![
        record("a", vec![("k", DataValue::Number(1))]),
        record("b", vec![("k", DataValue::Number(0))]),
        record("c", vec![("k", DataValue::Number(1))]),
        record("d", vec![("k", DataValue::Number(0))]),
        record("e", vec![("k", DataValue::Number(1))]),
    ];
    assert_eq!(ids(&sort(duplicate_records(&data), &names(vec!["k"]), true)), vec!["b", "d", "a", "c", "e"]);
    assert_eq!(ids(&sort(data, &names(vec!["k"]), false)), vec!["a", "c", "e", "b", "d"]);
}

#[test]
fn sort_breaks_ties_by_later_fields() {
    let data = vec![
        record("a", vec![("k", DataValue::Number(1)), ("n", s("z"))]),
        record("b", vec![("k", DataValue::Number(0)), ("n", s("y"))]),
        record("c", vec![("k", DataValue::Number(1)), ("n", s("x"))]),
        record("d", vec![("k", DataValue::Number(0)), ("n", s("y"))]),
    ];
    assert_eq!(ids(&sort(duplicate_records(&data), &names(vec!["k", "n"]), true)), vec!["b", "d", "c", "a"]);
    assert_eq!(ids(&sort(data, &names(vec!["k", "n"]), false)), vec!["a", "c", "b", "d"]);
}

#[test]
fn sort_puts_missing_fields_first_and_other_kinds_in_order() {
    let data = vec![
        record("array", vec![("k", DataValue::Array(vec![DataValue::Number(1)]))]),
        record("string", vec![("k", s("a"))]),
        record("number", vec![("k", DataValue::Number(100))]),
        record("bool", vec![("k", DataValue::Bool(false))]),
        record("null", vec![("k", DataValue::Null)]),
        record("missing", vec![]),
        record("decimal", vec![("k", DataValue::Decimal("0.5".to_string()))]),
    ];
    assert_eq!(
        ids(&sort(data, &names(vec!["k"]), true)),
        vec!["null", "missing", "bool", "number", "string", "decimal", "array"]
    );
}

#[test]
fn deduplicate_keeps_the_first_of_each_key() {
    let data = vec![
        record("a", vec![("k", DataValue::Number(1)), ("v", s("x"))]),
        record("b", vec![("k", DataValue::Number(2)), ("v", s("x"))]),
        record("c", vec![("k", DataValue::Number(1)), ("v", s("y"))]),
        record("d", vec![("v", s("x"))]),
        record("e", vec![("k", DataValue::Null), ("v", s("x"))]),
        record("f", vec![("k", DataValue::Number(2)), ("v", s("x"))]),
    ];
    assert_eq!(ids(&deduplicate(duplicate_records(&data), &names(vec!["k"]))), vec!["a", "b", "d"]);
    assert_eq!(
        ids(&deduplicate(duplicate_records(&data), &names(vec!["k", "v"]))),
        vec!["a", "b", "c", "d"]
    );
    assert_eq!(ids(&deduplicate(duplicate_records(&data), &names(vec![]))), vec!["a"]);
    assert_eq!(key_of(&data[0], &names(vec!["k", "v", "w"])), vec!["1", "\"x\"", "null"]);
}

#[test]
fn deduplicate_is_idempotent() {
    let data = vec![
        record("a", vec![("k", s("x"))]),
        record("b", vec![("k", s("x"))]),
        record("c", vec![("k", s("y"))]),
        record("d", vec![("k", s("x"))]),
    ];
    let once = deduplicate(data, &names(vec!["k"]));
    let twice = deduplicate(duplicate_records(&once), &names(vec!["k"]));
    assert_eq!(ids(&once), vec!["a", "c"]);
    assert_eq!(twice, once);
}

fn staff() -> Vec<DataRecord> {
    vec![
        record("a", vec![("dept", s("ops")), ("pay", DataValue::Number(10)), ("name", s("amy"))]),
        record("b", vec![("dept", s("dev")), ("pay", DataValue::Number(7)), ("name", s("bob"))]),
        record("c", vec![("dept", s("ops")), ("pay", DataValue::Number(-3)), ("name", s("cat"))]),
        record("d", vec![("dept", s("ops")), ("pay", s("much")), ("name", s("dan"))]),
        record("e", vec![("dept", s("dev")), ("name", s("eve"))]),
        record("f", vec![("name", s("fay"))]),
    ]
}

#[test]
fn aggregate_yields_one_record_for_each_key() {
    let out = aggregate(&staff(), &names(vec!["dept"]), &vec![AggregateFunction::Count]);
    assert_eq!(ids(&out), vec!["a", "b", "f"]);
    assert_eq!(out[0].data, object(vec![("dept", s("ops")), ("count", DataValue::Number(3))]));
    assert_eq!(out[1].data, object(vec![("dept", s("dev")), ("count", DataValue::Number(2))]));
    assert_eq!(out[2].data, object(vec![("dept", DataValue::Null), ("count", DataValue::Number(1))]));
    assert_eq!(out[0].source, "test");
    assert_eq!(out[0].timestamp, EPOCH);
}

#[test]
fn aggregate_computes_the_functions() {
    let functions = vec![
        AggregateFunction::Count,
        AggregateFunction::Sum { field: "pay".to_string() },
        AggregateFunction::Average { field: "pay".to_string() },
        AggregateFunction::Min { field: "pay".to_string() },
        AggregateFunction::Max { field: "pay".to_string() },
        AggregateFunction::Custom { name: "first".to_string(), expression: "name + \"!\"".to_string() },
        AggregateFunction::Custom { name: "none".to_string(), expression: "pay + name".to_string() },
    ];
    let out = aggregate(&staff(), &names(vec!["dept"]), &functions);
    assert_eq!(
        out[0].data,
        object(vec![
            ("dept", s("ops")),
            ("count", DataValue::Number(3)),
            ("sum_pay", DataValue::Number(7)),
            ("avg_pay", DataValue::Number(3)),
            ("min_pay", DataValue::Number(-3)),
            ("max_pay", DataValue::Number(10)),
            ("first", s("amy!")),
            ("none", DataValue::Null),
        ])
    );
    assert_eq!(
        out[2].data,
        object(vec![
            ("dept", DataValue::Null),
            ("count", DataValue::Number(1)),
            ("sum_pay", DataValue::Number(0)),
            ("avg_pay", DataValue::Null),
            ("min_pay", DataValue::Null),
            ("max_pay", DataValue::Null),
            ("first", s("fay!")),
            ("none", DataValue::Null),
        ])
    );
}

#[test]
fn aggregate_rounds_the_average_toward_zero() {
    let data = vec![
        record("a", vec![("n", DataValue::Number(-3))]),
        record("b", vec![("n", DataValue::Number(-4))]),
    ];
    let out = aggregate(&data, &names(vec![]), &vec![AggregateFunction::Average { field: "n".to_string() }]);
    assert_eq!(out.len(), 1);
    assert_eq!(out[0].data, object(vec![("avg_n", DataValue::Number(-3))]));
}

#[test]
fn aggregate_gives_null_for_a_sum_that_is_no_64_bit_integer() {
    let data = vec![
        record("a", vec![("n", DataValue::Number(i64::MAX))]),
        record("b", vec![("n", DataValue::Number(1))]),
    ];
    let functions = vec![
        AggregateFunction::Sum { field: "n".to_string() },
        AggregateFunction::Average { field: "n".to_string() },
    ];
    let out = aggregate(&data, &names(vec![]), &functions);
    assert_eq!(
        out[0].data,
        object(vec![("sum_n", DataValue::Null), ("avg_n", DataValue::Number(4611686018427387904))])
    );
}

#[test]
fn aggregate_counts_the_distinct_keys() {
    let data: Vec<DataRecord> = (0..50)
        .map(|i| record(&format!("r{}", i), vec![("k", DataValue::Number(i % 7)), ("j", DataValue::Number(i % 2))]))
        .collect();
    assert_eq!(aggregate(&data, &names(vec!["k"]), &vec![]).len(), 7);
    assert_eq!(aggregate(&data, &names(vec!["j"]), &vec![]).len(), 2);
    assert_eq!(aggregate(&data, &names(vec!["k", "j"]), &vec![]).len(), 14);
    assert_eq!(aggregate(&data, &names(vec![]), &vec![]).len(), 1);
    assert_eq!(aggregate(&Vec::new(), &names(vec!["k"]), &vec![]).len(), 0);
}

#[test]
fn join_merges_the_first_match() {
    let users = vec![
        record("u1", vec![("user", DataValue::Number(1)), ("name", s("amy")), ("x", s("theirs"))]),
        record("u2", vec![("user", DataValue::Number(2)), ("name", s("bob"))]),
        record("u3", vec![("user", DataValue::Number(1)), ("name", s("late"))]),
    ];
    let data = vec![
        record("a", vec![("user", DataValue::Number(1)), ("x", s("mine"))]),
        record("b", vec![("user", DataValue::Number(3))]),
        record("c", vec![("other", DataValue::Number(1))]),
        record("d", vec![("user", s("2"))]),
        record("e", vec![("user", DataValue::Number(2))]),
    ];
    let out = join(data, &users, "user");
    assert_eq!(ids(&out), vec!["a", "b", "c", "d", "e"]);
    assert_eq!(
        out[0].data,
        object(vec![("user", DataValue::Number(1)), ("x", s("mine")), ("name", s("amy"))])
    );
    assert_eq!(out[1].data, object(vec![("user", DataValue::Number(3))]));
    assert_eq!(out[2].data, object(vec![("other", DataValue::Number(1))]));
    assert_eq!(out[3].data, object(vec![("user", s("2"))]));
    assert_eq!(out[4].data, object(vec![("user", DataValue::Number(2)), ("name", s("bob"))]));
}

#[test]
fn merge_leaves_values_that_are_no_objects() {
    assert_eq!(merge(s("x"), &object(vec![("a", DataValue::Null)])), s("x"));
    assert_eq!(merge(object(vec![("a", DataValue::Null)]), &s("x")), object(vec![("a", DataValue::Null)]));
    assert_eq!(
        merge(
            object(vec![("a", DataValue::Number(1))]),
            &object(vec![("b", DataValue::Number(2)), ("a", DataValue::Number(3)), ("b", DataValue::Number(4))])
        ),
        object(vec![("a", DataValue::Number(1)), ("b", DataValue::Number(2))])
    );
}

#[test]
fn execute_operation_runs_each_kind() {
    let mut store = RecordStore::new();
    store.insert(
        "extra".to_string(),
        vec![record("x", vec![("amount", DataValue::Number(1)), ("label", s("one"))])],
    );
    let run = |op: Operation| execute_operation(&op, amounts(), &store, EPOCH).unwrap();
    let out = run(Operation::Filter { condition: "amount < 3".to_string() });
    assert_eq!(ids(&out.records), vec!["b", "c"]);
    assert!(out.errors.is_empty());
    let out = run(Operation::Sort { fields: names(vec!["amount"]), ascending: false });
    assert_eq!(ids(&out.records), vec!["a", "c", "b"]);
    let out = run(Operation::Deduplicate { fields: names(vec!["other"]) });
    assert_eq!(ids(&out.records), vec!["a"]);
    let out = run(Operation::Transform { field: "amount".to_string(), expression: "amount - 1".to_string() });
    assert_eq!(out.records[0].data, object(vec![("amount", DataValue::Number(2))]));
    let out = run(Operation::Aggregate {
        group_by: names(vec![]),
        functions: vec![AggregateFunction::Sum { field: "amount".to_string() }],
    });
    assert_eq!(out.records.len(), 1);
    assert_eq!(out.records[0].data, object(vec![("sum_amount", DataValue::Number(6))]));
    let out = run(Operation::Join { source: "extra".to_string(), on: "amount".to_string() });
    assert_eq!(out.records[1].data, object(vec![("amount", DataValue::Number(1)), ("label", s("one"))]));
    assert_eq!(out.records[0].data, object(vec![("amount", DataValue::Number(3))]));
    let out = run(Operation::Validate {
        rules: vec![ValidationRule {
            field: "amount".to_string(),
            rule_type: ValidationType::Range { min: 2, max: 5 },
            parameters: Vec::new(),
        }],
    });
    assert_eq!(out.records, amounts());
    assert_eq!(out.errors.len(), 1);
    assert_eq!(out.errors[0].record_id, Some("b".to_string()));
}

#[test]
fn join_with_an_unknown_set_is_not_found() {
    let store = RecordStore::new();
    let op = Operation::Join { source: "nowhere".to_string(), on: "amount".to_string() };
    assert_eq!(
        execute_operation(&op, amounts(), &store, EPOCH),
        Err(ProcessorError::NotFound(Missing::Source))
    );
}

#[test]
fn labels_name_the_operations() {
    assert_eq!(Operation::Filter { condition: String::new() }.label(), "Filter");
    assert_eq!(Operation::Transform { field: String::new(), expression: String::new() }.label(), "Transform");
    assert_eq!(Operation::Aggregate { group_by: vec![], functions: vec![] }.label(), "Aggregate");
    assert_eq!(Operation::Join { source: String::new(), on: String::new() }.label(), "Join");
    assert_eq!(Operation::Sort { fields: vec![], ascending: true }.label(), "Sort");
    assert_eq!(Operation::Deduplicate { fields: vec![] }.label(), "Deduplicate");
    assert_eq!(Operation::Validate { rules: vec![] }.label(), "Validate");
}

#[test]
fn operations_keep_identifier_source_and_instant() {
    let store = RecordStore::new();
    let operations = vec![
        Operation::Filter { condition: "amount != 2".to_string() },
        Operation::Transform { field: "amount".to_string(), expression: "amount * amount".to_string() },
        Operation::Sort { fields: names(vec!["amount"]), ascending: false },
        Operation::Deduplicate { fields: names(vec!["amount"]) },
        Operation::Aggregate { group_by: names(vec!["amount"]), functions: vec![AggregateFunction::Count] },
        Operation::Validate { rules: Vec::new() },
    ];
    let mut data = amounts();
    for op in &operations {
        data = execute_operation(op, data, &store, EPOCH).unwrap().records;
        for r in &data {
            assert!(amounts().iter().any(|o| o.id == r.id && o.source == r.source && o.timestamp == r.timestamp));
        }
    }
    assert_eq!(ids(&data), vec!["a", "b"]);
}
