//! The aggregate operation: one record per distinct composite key.

use vstd::prelude::*;
use vstd::string::StringExecFns;
use crate::config::{names_view, AggregateFunction};
use crate::dedup::{
    all_keys, composite_key, deduplicate_records, keys_of_all, lemma_deduplicate_counts_keys,
    lemma_has_key_of_keys, same_key, seen_before,
};
use crate::expr::{expression_value, Expression};
use crate::record::{records_view, DataRecord, Record};
use crate::value::{duplicate_entries, entries_view, lemma_object_view, DataValue, Json};

verus! {

/// What the numeric functions need to know of a group and a field.
pub struct Tally {
    /// How many members of the group hold an integer in the field.
    pub numbers: int,
    /// The sum of those integers.
    pub sum: int,
    /// The least of them, if there is any.
    pub min: Option<int>,
    /// The greatest of them, if there is any.
    pub max: Option<int>,
}

/// The number of records that have the key.
pub open spec fn group_size(records: Seq<Record>, group_by: Seq<Seq<char>>, key: Seq<Seq<char>>) -> int
    decreases records.len(),
{
    if records.len() == 0 {
        0
    } else if composite_key(records.last(), group_by) == key {
        group_size(records.drop_last(), group_by, key) + 1
    } else {
        group_size(records.drop_last(), group_by, key)
    }
}

/// The tally with one more integer.
pub open spec fn tally_with(t: Tally, n: int) -> Tally {
    Tally {
        numbers: t.numbers + 1,
        sum: t.sum + n,
        min: match t.min {
            Some(m) => if n < m {
                Some(n)
            } else {
                Some(m)
            },
            None => Some(n),
        },
        max: match t.max {
            Some(m) => if n > m {
                Some(n)
            } else {
                Some(m)
            },
            None => Some(n),
        },
    }
}

/// The tally of a field over the records that have the key. A member whose
/// field is missing or holds no integer does not count.
pub open spec fn tally(
    records: Seq<Record>,
    group_by: Seq<Seq<char>>,
    key: Seq<Seq<char>>,
    field: Seq<char>,
) -> Tally
    decreases records.len(),
{
    if records.len() == 0 {
        Tally { numbers: 0, sum: 0, min: None, max: None }
    } else {
        let t = tally(records.drop_last(), group_by, key, field);
        if composite_key(records.last(), group_by) == key {
            match records.last().data.field(field) {
                Some(Json::Number(n)) => tally_with(t, n),
                _ => t,
            }
        } else {
            t
        }
    }
}

/// The number as a value, or null where it is no 64-bit signed integer.
pub open spec fn number_or_null(n: int) -> Json {
    if i64::MIN <= n <= i64::MAX {
        Json::Number(n)
    } else {
        Json::Null
    }
}

/// The quotient rounded toward zero.
pub open spec fn quotient(sum: int, count: int) -> int {
    if sum >= 0 {
        sum / count
    } else {
        -((-sum) / count)
    }
}

/// The name of the field that holds a function's result.
pub open spec fn function_name(f: AggregateFunction) -> Seq<char> {
    match f {
        AggregateFunction::Count => "count"@,
        AggregateFunction::Sum { field } => "sum_"@ + field@,
        AggregateFunction::Average { field } => "avg_"@ + field@,
        AggregateFunction::Min { field } => "min_"@ + field@,
        AggregateFunction::Max { field } => "max_"@ + field@,
        AggregateFunction::Custom { name, .. } => name@,
    }
}

/// The result of a function for the group of `first`: the count of the
/// members; the sum of a field's integers (null where it is no 64-bit
/// integer); their average rounded toward zero, their least and their
/// greatest (null where the group holds no integer in the field); or the
/// value of an expression in the group's first record (null where it has
/// none).
pub open spec fn function_value(
    f: AggregateFunction,
    first: Record,
    records: Seq<Record>,
    group_by: Seq<Seq<char>>,
) -> Json {
    let key = composite_key(first, group_by);
    match f {
        AggregateFunction::Count => number_or_null(group_size(records, group_by, key)),
        AggregateFunction::Sum { field } => number_or_null(tally(records, group_by, key, field@).sum),
        AggregateFunction::Average { field } => {
            let t = tally(records, group_by, key, field@);
            if t.numbers == 0 {
                Json::Null
            } else {
                number_or_null(quotient(t.sum, t.numbers))
            }
        },
        AggregateFunction::Min { field } => match tally(records, group_by, key, field@).min {
            Some(n) => number_or_null(n),
            None => Json::Null,
        },
        AggregateFunction::Max { field } => match tally(records, group_by, key, field@).max {
            Some(n) => number_or_null(n),
            None => Json::Null,
        },
        AggregateFunction::Custom { expression, .. } => match expression_value(expression@, first.data) {
            Some(v) => v,
            None => Json::Null,
        },
    }
}

/// The fields of a group's record: the group-by fields with their values in
/// the group's first record, then one field for each function.
pub open spec fn group_fields(
    first: Record,
    records: Seq<Record>,
    group_by: Seq<Seq<char>>,
    functions: Seq<AggregateFunction>,
) -> Seq<(Seq<char>, Json)> {
    Seq::new(group_by.len(), |i: int| (group_by[i], first.data.field_or_null(group_by[i]))) + Seq::new(
        functions.len(),
        |i: int| (function_name(functions[i]), function_value(functions[i], first, records, group_by)),
    )
}

/// The record that stands for a group: the group's first record with the
/// group's fields as its payload.
pub open spec fn group_record(
    first: Record,
    records: Seq<Record>,
    group_by: Seq<Seq<char>>,
    functions: Seq<AggregateFunction>,
) -> Record {
    first.with_data(Json::Object(group_fields(first, records, group_by, functions)))
}

/// One record for each distinct composite key, in the order in which the
/// keys first occur.
pub open spec fn aggregate_records(
    records: Seq<Record>,
    group_by: Seq<Seq<char>>,
    functions: Seq<AggregateFunction>,
) -> Seq<Record> {
    let firsts = deduplicate_records(records, group_by);
    Seq::new(firsts.len(), |g: int| group_record(firsts[g], records, group_by, functions))
}

/// What `measure` returns: a group's size and the tally of one field.
pub struct Measure {
    pub members: usize,
    pub numbers: usize,
    pub sum: i128,
    pub min: Option<i64>,
    pub max: Option<i64>,
}

impl Measure {
    /// The tally that the measure holds.
    pub open spec fn tally(self) -> Tally {
        Tally {
            numbers: self.numbers as int,
            sum: self.sum as int,
            min: match self.min {
                Some(n) => Some(n as int),
                None => None,
            },
            max: match self.max {
                Some(n) => Some(n as int),
                None => None,
            },
        }
    }
}

/// Measures the group of the record at `at`: counts its members and
/// tallies `field` over them.
pub fn measure(
    data: &Vec<DataRecord>,
    keys: &Vec<Vec<String>>,
    at: usize,
    field: &str,
    group_fields: &Vec<String>,
) -> (m: Measure)
    requires
        at < data.len(),
        keys.len() == data.len(),
        forall|i: int|
            0 <= i < data.len() ==> names_view((#[trigger] keys@[i])@) == composite_key(
                data@[i]@,
                names_view(group_fields@),
            ),
    ensures
        m.members == group_size(
            records_view(data@),
            names_view(group_fields@),
            composite_key(data@[at as int]@, names_view(group_fields@)),
        ),
        m.tally() == tally(
            records_view(data@),
            names_view(group_fields@),
            composite_key(data@[at as int]@, names_view(group_fields@)),
            field@,
        ),
        m.numbers <= data.len(),
        -(data.len() as int) * 9223372036854775808 <= m.sum <= (data.len() as int) * 9223372036854775808,
{
    let ghost group_by = names_view(group_fields@);
    let ghost all = records_view(data@);
    let ghost key = composite_key(data@[at as int]@, group_by);
    let mut m = Measure { members: 0, numbers: 0, sum: 0, min: None, max: None };
    let mut j: usize = 0;
    while j < data.len()
        invariant
            j <= data.len(),
            at < data.len(),
            keys.len() == data.len(),
            all == records_view(data@),
            key == composite_key(data@[at as int]@, group_by),
            forall|i: int|
                0 <= i < data.len() ==> names_view((#[trigger] keys@[i])@) == composite_key(
                    data@[i]@,
                    group_by,
                ),
            m.members == group_size(all.take(j as int), group_by, key),
            m.tally() == tally(all.take(j as int), group_by, key, field@),
            m.members <= j,
            m.numbers <= j,
            -(j as int) * 9223372036854775808 <= m.sum <= (j as int) * 9223372036854775808,
        decreases data.len() - j,
    {
        assert(all.take(j + 1).drop_last() =~= all.take(j as int));
        assert(all.take(j + 1).last() == data@[j as int]@);
        if same_key(&keys[j], &keys[at]) {
            m.members = m.members + 1;
            if let Some(DataValue::Number(n)) = data[j].data.get(field) {
                m.numbers = m.numbers + 1;
                m.sum = m.sum + *n as i128;
                m.min = match m.min {
                    Some(least) => if *n < least {
                        Some(*n)
                    } else {
                        Some(least)
                    },
                    None => Some(*n),
                };
                m.max = match m.max {
                    Some(greatest) => if *n > greatest {
                        Some(*n)
                    } else {
                        Some(greatest)
                    },
                    None => Some(*n),
                };
            }
        }
        j += 1;
    }
    assert(all.take(data@.len() as int) =~= all);
    m
}

/// The number as a value, or null where it is no 64-bit signed integer.
pub fn number_value(n: i128) -> (v: DataValue)
    ensures
        v@ == number_or_null(n as int),
{
    if -9223372036854775808 <= n && n <= 9223372036854775807 {
        DataValue::Number(n as i64)
    } else {
        DataValue::Null
    }
}

/// An optional integer as a value, null standing for none.
fn optional_number(n: Option<i64>) -> (v: DataValue)
    ensures
        v@ == match n {
            Some(n) => number_or_null(n as int),
            None => Json::Null,
        },
{
    match n {
        Some(n) => DataValue::Number(n),
        None => DataValue::Null,
    }
}

/// The quotient of a sum and a positive count, rounded toward zero.
fn divide(sum: i128, count: usize) -> (q: i128)
    requires
        count > 0,
        sum > i128::MIN,
    ensures
        q == quotient(sum as int, count as int),
{
    if sum >= 0 {
        sum / (count as i128)
    } else {
        let positive: i128 = -sum;
        let q: i128 = positive / (count as i128);
        assert(0 <= q <= positive) by (nonlinear_arith)
            requires
                q == positive as int / count as int,
                positive >= 0,
                count > 0,
        ;
        -q
    }
}

/// The name and the result of one function for the group of the record at
/// `at`.
pub fn evaluate(
    function: &AggregateFunction,
    data: &Vec<DataRecord>,
    keys: &Vec<Vec<String>>,
    at: usize,
    group_by: &Vec<String>,
) -> (out: (String, DataValue))
    requires
        at < data.len(),
        keys.len() == data.len(),
        forall|i: int|
            0 <= i < data.len() ==> names_view((#[trigger] keys@[i])@) == composite_key(
                data@[i]@,
                names_view(group_by@),
            ),
    ensures
        out.0@ == function_name(*function),
        out.1@ == function_value(
            *function,
            data@[at as int]@,
            records_view(data@),
            names_view(group_by@),
        ),
{
    match function {
        AggregateFunction::Count => {
            let m = measure(data, keys, at, "", group_by);
            (String::from_str("count"), number_value(m.members as i128))
        },
        AggregateFunction::Sum { field } => {
            let m = measure(data, keys, at, field.as_str(), group_by);
            (String::from_str("sum_").concat(field.as_str()), number_value(m.sum))
        },
        AggregateFunction::Average { field } => {
            let m = measure(data, keys, at, field.as_str(), group_by);
            let value = if m.numbers == 0 {
                DataValue::Null
            } else {
                number_value(divide(m.sum, m.numbers))
            };
            (String::from_str("avg_").concat(field.as_str()), value)
        },
        AggregateFunction::Min { field } => {
            let m = measure(data, keys, at, field.as_str(), group_by);
            (String::from_str("min_").concat(field.as_str()), optional_number(m.min))
        },
        AggregateFunction::Max { field } => {
            let m = measure(data, keys, at, field.as_str(), group_by);
            (String::from_str("max_").concat(field.as_str()), optional_number(m.max))
        },
        AggregateFunction::Custom { name, expression } => {
            let value = match Expression::parse(expression.as_str()) {
                Some(e) => match e.eval(&data[at].data) {
                    Some(v) => v,
                    None => DataValue::Null,
                },
                None => DataValue::Null,
            };
            (name.clone(), value)
        },
    }
}

/// The record that stands for the group of the record at `at`.
pub fn summarize(
    data: &Vec<DataRecord>,
    keys: &Vec<Vec<String>>,
    at: usize,
    group_by: &Vec<String>,
    functions: &Vec<AggregateFunction>,
) -> (out: DataRecord)
    requires
        at < data.len(),
        keys.len() == data.len(),
        forall|i: int|
            0 <= i < data.len() ==> names_view((#[trigger] keys@[i])@) == composite_key(
                data@[i]@,
                names_view(group_by@),
            ),
    ensures
        out@ == group_record(data@[at as int]@, records_view(data@), names_view(group_by@), functions@),
{
    let ghost names = names_view(group_by@);
    let ghost all = records_view(data@);
    let ghost first = data@[at as int]@;
    let ghost wanted = group_fields(first, all, names, functions@);
    let first_record = &data[at];
    let mut fields: Vec<(String, DataValue)> = Vec::new();
    let mut i: usize = 0;
    while i < group_by.len()
        invariant
            i <= group_by.len(),
            at < data.len(),
            first == data@[at as int]@,
            first_record == data@[at as int],
            names == names_view(group_by@),
            fields.len() == i,
            forall|k: int|
                0 <= k < i ==> (#[trigger] fields@[k]).0@ == names[k] && fields@[k].1@
                    == first.data.field_or_null(names[k]),
        decreases group_by.len() - i,
    {
        let value = match first_record.data.get(group_by[i].as_str()) {
            Some(v) => v.duplicate(),
            None => DataValue::Null,
        };
        fields.push((group_by[i].clone(), value));
        i += 1;
    }
    let mut j: usize = 0;
    while j < functions.len()
        invariant
            j <= functions.len(),
            at < data.len(),
            keys.len() == data.len(),
            forall|i: int|
                0 <= i < data.len() ==> names_view((#[trigger] keys@[i])@) == composite_key(data@[i]@, names),
            first == data@[at as int]@,
            all == records_view(data@),
            names == names_view(group_by@),
            fields.len() == group_by.len() + j,
            forall|k: int|
                0 <= k < group_by.len() ==> (#[trigger] fields@[k]).0@ == names[k] && fields@[k].1@
                    == first.data.field_or_null(names[k]),
            forall|k: int|
                group_by.len() <= k < group_by.len() + j ==> (#[trigger] fields@[k]).0@ == function_name(
                    functions@[k - group_by.len()],
                ) && fields@[k].1@ == function_value(functions@[k - group_by.len()], first, all, names),
        decreases functions.len() - j,
    {
        let pair = evaluate(&functions[j], data, keys, at, group_by);
        fields.push(pair);
        j += 1;
    }
    assert(entries_view(fields@) =~= wanted);
    proof {
        lemma_object_view(fields);
    }
    DataRecord {
        id: first_record.id.clone(),
        timestamp: first_record.timestamp,
        data: DataValue::Object(fields),
        source: first_record.source.clone(),
        processed: first_record.processed,
        metadata: duplicate_entries(&first_record.metadata),
    }
}

/// Partitions the records by the composite key of the `group_by` fields
/// and returns one record for each distinct key, in the order in which the
/// keys first occur: as many records as the input has distinct keys.
pub fn aggregate(data: &Vec<DataRecord>, group_by: &Vec<String>, functions: &Vec<AggregateFunction>) -> (out:
    Vec<DataRecord>)
    ensures
        records_view(out@) == aggregate_records(records_view(data@), names_view(group_by@), functions@),
        out@.len() == all_keys(records_view(data@), names_view(group_by@)).to_set().len(),
{
    let ghost names = names_view(group_by@);
    let ghost all = records_view(data@);
    let keys = keys_of_all(data, group_by);
    let mut out: Vec<DataRecord> = Vec::new();
    let mut at: usize = 0;
    assert(all.take(0) =~= Seq::<Record>::empty());
    while at < data.len()
        invariant
            at <= data.len(),
            names == names_view(group_by@),
            all == records_view(data@),
            keys.len() == data.len(),
            forall|i: int|
                0 <= i < data.len() ==> names_view((#[trigger] keys@[i])@) == composite_key(data@[i]@, names),
            out.len() == deduplicate_records(all.take(at as int), names).len(),
            forall|g: int|
                0 <= g < out.len() ==> (#[trigger] out@[g])@ == group_record(
                    deduplicate_records(all.take(at as int), names)[g],
                    all,
                    names,
                    functions@,
                ),
        decreases data.len() - at,
    {
        let seen = seen_before(&keys, at);
        proof {
            assert(all.take(at + 1).drop_last() =~= all.take(at as int));
            assert(all.take(at + 1).last() == data@[at as int]@);
            lemma_has_key_of_keys(all, names, keys@, at as int);
        }
        if !seen {
            let record = summarize(data, &keys, at, group_by, functions);
            out.push(record);
        }
        at += 1;
    }
    assert(all.take(data@.len() as int) =~= all);
    assert(records_view(out@) =~= aggregate_records(all, names, functions@));
    proof {
        lemma_aggregate_counts_keys(all, names, functions@);
    }
    out
}

/// An aggregation yields as many records as the records have distinct
/// composite keys of the `group_by` fields.
pub proof fn lemma_aggregate_counts_keys(
    records: Seq<Record>,
    group_by: Seq<Seq<char>>,
    functions: Seq<AggregateFunction>,
)
    ensures
        aggregate_records(records, group_by, functions).len() == all_keys(
            records,
            group_by,
        ).to_set().len(),
{
    lemma_deduplicate_counts_keys(records, group_by);
}

} // verus!
