//! The transform operation: a field's value replaced by what an expression
//! evaluates to, record by record.

use vstd::prelude::*;
use vstd::string::StringExecFns;
use rayon::iter::{IntoParallelRefMutIterator, ParallelIterator};
use crate::clock::Timestamp;
use crate::expr::{parse_expression, Expression, ExpressionModel};
use crate::record::{records_view, DataRecord, Record};
use crate::result::{errors_view, lemma_errors_view_push, ErrorModel, ProcessingError};
use crate::value::{DataValue, Json};

verus! {

/// The model of an expression that may be missing.
pub open spec fn expression_model(e: Option<Expression>) -> Option<ExpressionModel> {
    match e {
        Some(e) => Some(e@),
        None => None,
    }
}

/// The record after the transformation: where its payload has the field
/// and the expression has a value there, the field holds that value; else
/// the record is as it was.
pub open spec fn transform_with(r: Record, field: Seq<char>, e: Option<ExpressionModel>) -> Record {
    match (r.data.field(field), e) {
        (Some(_), Some(e)) => match e.eval(r.data) {
            Some(v) => r.with_data(r.data.with_field(field, v)),
            None => r,
        },
        _ => r,
    }
}

/// Whether the transformation has nothing to put into a field that is
/// there.
pub open spec fn transform_fails(r: Record, field: Seq<char>, e: Option<ExpressionModel>) -> bool {
    r.data.field(field) is Some && match e {
        Some(e) => e.eval(r.data) is None,
        None => true,
    }
}

/// The records after the transformation written in `expression`.
pub open spec fn transform_records(records: Seq<Record>, field: Seq<char>, expression: Seq<char>) -> Seq<
    Record,
> {
    Seq::new(records.len(), |i: int| transform_with(records[i], field, parse_expression(expression)))
}

/// The error recorded for a record whose field could not be transformed.
pub open spec fn transform_error(r: Record, field: Seq<char>, expression: Seq<char>, now: Timestamp) -> ErrorModel {
    ErrorModel {
        error_type: "TransformError"@,
        message: "Expression has no value for field "@ + field,
        record_id: Some(r.id),
        timestamp: now,
        context: seq![("expression"@, Json::String(expression))],
    }
}

/// The errors of the transformation, in the records' order.
pub open spec fn transform_errors(
    records: Seq<Record>,
    field: Seq<char>,
    expression: Seq<char>,
    now: Timestamp,
) -> Seq<ErrorModel>
    decreases records.len(),
{
    if records.len() == 0 {
        Seq::empty()
    } else {
        let rest = transform_errors(records.drop_last(), field, expression, now);
        if transform_fails(records.last(), field, parse_expression(expression)) {
            rest.push(transform_error(records.last(), field, expression, now))
        } else {
            rest
        }
    }
}

/// Transforms one record in place.
pub fn transform_record(record: &mut DataRecord, field: &str, expression: &Option<Expression>)
    ensures
        final(record)@ == transform_with(old(record)@, field@, expression_model(*expression)),
{
    if record.data.get(field).is_some() {
        if let Some(e) = expression {
            if let Some(v) = e.eval(&record.data) {
                let mut data = DataValue::Null;
                std::mem::swap(&mut record.data, &mut data);
                record.data = data.with_field(field.to_owned(), v);
            }
        }
    }
}

/// Whether the transformation would fail on the record.
pub fn fails_on(record: &DataRecord, field: &str, expression: &Option<Expression>) -> (r: bool)
    ensures
        r == transform_fails(record@, field@, expression_model(*expression)),
{
    if record.data.get(field).is_some() {
        match expression {
            Some(e) => e.eval(&record.data).is_none(),
            None => true,
        }
    } else {
        false
    }
}

/// `rayon`'s `par_iter_mut` and `for_each` with `transform_record` as the
/// operation: every record of the vector is transformed once, on some
/// thread of the pool, and stays at its place. What becomes of one record
/// is what `transform_record` is proved to do.
#[verifier::external_body]
fn transform_each(data: &mut Vec<DataRecord>, field: &str, expression: &Option<Expression>)
    ensures
        final(data)@.len() == old(data)@.len(),
        forall|i: int|
            0 <= i < old(data)@.len() ==> (#[trigger] final(data)@[i])@ == transform_with(
                old(data)@[i]@,
                field@,
                expression_model(*expression),
            ),
{
    data.par_iter_mut().for_each(|record| transform_record(record, field, expression));
}

/// Replaces, in every record that has `field`, the field's value by the
/// value of `expression`. Returns the records and an error for each record
/// where the expression had no value.
pub fn transform(data: Vec<DataRecord>, field: &str, expression: &str, now: Timestamp) -> (out: (
    Vec<DataRecord>,
    Vec<ProcessingError>,
))
    ensures
        records_view(out.0@) == transform_records(records_view(data@), field@, expression@),
        errors_view(out.1@) == transform_errors(records_view(data@), field@, expression@, now),
{
    let parsed = Expression::parse(expression);
    let mut errors: Vec<ProcessingError> = Vec::new();
    let mut i: usize = 0;
    assert(errors_view(errors@) =~= transform_errors(records_view(data@).take(0), field@, expression@, now));
    while i < data.len()
        invariant
            i <= data.len(),
            expression_model(parsed) == parse_expression(expression@),
            errors_view(errors@) == transform_errors(
                records_view(data@).take(i as int),
                field@,
                expression@,
                now,
            ),
        decreases data.len() - i,
    {
        assert(records_view(data@).take(i + 1).drop_last() =~= records_view(data@).take(i as int));
        if fails_on(&data[i], field, &parsed) {
            let context = vec![(String::from_str("expression"), DataValue::String(expression.to_owned()))];
            let error = ProcessingError {
                error_type: String::from_str("TransformError"),
                message: String::from_str("Expression has no value for field ").concat(field),
                record_id: Some(data[i].id.clone()),
                timestamp: now,
                context,
            };
            assert(error@.context =~= seq![("expression"@, Json::String(expression@))]);
            proof {
                lemma_errors_view_push(errors@, error);
            }
            errors.push(error);
        }
        i += 1;
    }
    assert(records_view(data@).take(data@.len() as int) =~= records_view(data@));
    let ghost before = data@;
    let mut data = data;
    transform_each(&mut data, field, &parsed);
    assert(records_view(data@) =~= transform_records(records_view(before), field@, expression@));
    (data, errors)
}

} // verus!
