//! The operation pipeline: what each operation makes of a record sequence.

use vstd::prelude::*;
use crate::aggregate::{aggregate, aggregate_records};
use crate::clock::Timestamp;
use crate::config::{names_view, Operation};
use crate::dedup::{deduplicate, deduplicate_records, lemma_deduplicate_selects};
use crate::error::{Missing, ProcessorError};
use crate::expr::{condition_holds, parse_condition, Condition};
use crate::join::{join, join_records};
use crate::record::{lemma_records_view_push, records_view, DataRecord, Record};
use crate::result::{errors_view, ErrorModel, ProcessingError};
use crate::sorting::{lemma_sort_permutes, sort, sort_records};
use crate::store::{source_from, RecordStore};
use crate::transform::{transform, transform_errors, transform_records};
use crate::validation::{validate, validation_errors};

verus! {

/// The records of which the condition written in `condition` holds, in
/// their order.
pub open spec fn filter_records(records: Seq<Record>, condition: Seq<char>) -> Seq<Record> {
    records.filter(|r: Record| condition_holds(condition, r.data))
}

/// Keeps the records of which the condition holds. A text that is no
/// condition holds of no record.
pub fn filter(data: Vec<DataRecord>, condition: &str) -> (out: Vec<DataRecord>)
    ensures
        records_view(out@) == filter_records(records_view(data@), condition@),
{
    let ghost input = data@;
    let ghost keep = |r: Record| condition_holds(condition@, r.data);
    let parsed = Condition::parse(condition);
    let mut out: Vec<DataRecord> = Vec::new();
    for record in it: data
        invariant
            it.seq() == input,
            match parsed {
                Some(c) => parse_condition(condition@) == Some(c@),
                None => parse_condition(condition@) is None,
            },
            keep == |r: Record| condition_holds(condition@, r.data),
            records_view(out@) == records_view(input.take(it.index())).filter(keep),
    {
        let kept = match &parsed {
            Some(c) => c.holds(&record.data),
            None => false,
        };
        proof {
            let before = records_view(input.take(it.index()));
            let after = records_view(input.take(it.index() + 1));
            assert(after =~= before.push(record@));
            assert(after.drop_last() =~= before);
            reveal(Seq::filter);
            lemma_records_view_push(out@, record);
        }
        if kept {
            out.push(record);
        }
    }
    assert(input.take(input.len() as int) =~= input);
    out
}

/// What an operation makes of a record sequence, given the sets of the
/// record store. A join with a set that the store does not hold makes
/// nothing.
pub open spec fn apply_operation(
    operation: Operation,
    records: Seq<Record>,
    store: Seq<(Seq<char>, Seq<Record>)>,
) -> Option<Seq<Record>> {
    match operation {
        Operation::Filter { condition } => Some(filter_records(records, condition@)),
        Operation::Transform { field, expression } => Some(
            transform_records(records, field@, expression@),
        ),
        Operation::Sort { fields, ascending } => Some(sort_records(records, names_view(fields@), ascending)),
        Operation::Deduplicate { fields } => Some(deduplicate_records(records, names_view(fields@))),
        Operation::Aggregate { group_by, functions } => Some(
            aggregate_records(records, names_view(group_by@), functions@),
        ),
        Operation::Join { source, on } => match source_from(store, source@, 0) {
            Some(candidates) => Some(join_records(records, candidates, on@)),
            None => None,
        },
        Operation::Validate { .. } => Some(records),
    }
}

/// The errors that an operation records on a record sequence at the
/// instant `now`: the violations of a validation, the failures of a
/// transformation, and none for any other operation.
pub open spec fn stage_errors(operation: Operation, records: Seq<Record>, now: Timestamp) -> Seq<ErrorModel> {
    match operation {
        Operation::Validate { rules } => validation_errors(records, rules@, now),
        Operation::Transform { field, expression } => transform_errors(records, field@, expression@, now),
        _ => Seq::empty(),
    }
}

/// What a stage hands on: the records, and the errors met on the way.
#[derive(Debug, PartialEq)]
pub struct StageOutput {
    pub records: Vec<DataRecord>,
    pub errors: Vec<ProcessingError>,
}

/// Runs one operation over a record sequence. Per-record issues come back
/// as errors beside the records. The operation itself fails only for a join
/// with a set that the store does not hold, with `NotFound`.
pub fn execute_operation(operation: &Operation, data: Vec<DataRecord>, store: &RecordStore, now: Timestamp) -> (r:
    Result<StageOutput, ProcessorError>)
    ensures
        match r {
            Ok(out) => apply_operation(*operation, records_view(data@), store@) == Some(
                records_view(out.records@),
            ) && errors_view(out.errors@) == stage_errors(*operation, records_view(data@), now),
            Err(e) => e == ProcessorError::NotFound(Missing::Source) && apply_operation(
                *operation,
                records_view(data@),
                store@,
            ) is None,
        },
{
    match operation {
        Operation::Filter { condition } => {
            let records = filter(data, condition.as_str());
            let errors: Vec<ProcessingError> = Vec::new();
            assert(errors_view(errors@) =~= Seq::<ErrorModel>::empty());
            Ok(StageOutput { records, errors })
        },
        Operation::Transform { field, expression } => {
            let (records, errors) = transform(data, field.as_str(), expression.as_str(), now);
            Ok(StageOutput { records, errors })
        },
        Operation::Sort { fields, ascending } => {
            let records = sort(data, fields, *ascending);
            let errors: Vec<ProcessingError> = Vec::new();
            assert(errors_view(errors@) =~= Seq::<ErrorModel>::empty());
            Ok(StageOutput { records, errors })
        },
        Operation::Deduplicate { fields } => {
            let records = deduplicate(data, fields);
            let errors: Vec<ProcessingError> = Vec::new();
            assert(errors_view(errors@) =~= Seq::<ErrorModel>::empty());
            Ok(StageOutput { records, errors })
        },
        Operation::Aggregate { group_by, functions } => {
            let records = aggregate(&data, group_by, functions);
            let errors: Vec<ProcessingError> = Vec::new();
            assert(errors_view(errors@) =~= Seq::<ErrorModel>::empty());
            Ok(StageOutput { records, errors })
        },
        Operation::Join { source, on } => match store.get(source.as_str()) {
            Some(candidates) => {
                let records = join(data, candidates, on.as_str());
                let errors: Vec<ProcessingError> = Vec::new();
                assert(errors_view(errors@) =~= Seq::<ErrorModel>::empty());
                Ok(StageOutput { records, errors })
            },
            None => Err(ProcessorError::NotFound(Missing::Source)),
        },
        Operation::Validate { rules } => {
            let errors = validate(&data, rules, now);
            Ok(StageOutput { records: data, errors })
        },
    }
}

/// Whether two records are one record as far as its origin goes: the same
/// identifier, source and instant of creation.
pub open spec fn same_origin(a: Record, b: Record) -> bool {
    a.id == b.id && a.source == b.source && a.timestamp == b.timestamp
}

/// Whether a record has the origin of one of the records.
pub open spec fn originates(r: Record, records: Seq<Record>) -> bool {
    exists|j: int| 0 <= j < records.len() && same_origin(r, #[trigger] records[j])
}

/// Whether every record of `out` has the origin of one of the records.
pub open spec fn drawn_from(out: Seq<Record>, records: Seq<Record>) -> bool {
    forall|i: int| 0 <= i < out.len() ==> originates(#[trigger] out[i], records)
}

/// A record that is one of the records has the origin of one of them.
proof fn lemma_member_originates(r: Record, records: Seq<Record>)
    requires
        records.contains(r),
    ensures
        originates(r, records),
{
    let j = choose|j: int| 0 <= j < records.len() && records[j] == r;
    assert(same_origin(r, records[j]));
}

/// No operation makes up a record or changes where a record came from:
/// every record that an operation hands on has the identifier, the source
/// and the instant of creation of one of the records that it was given.
pub proof fn lemma_operation_keeps_origins(
    operation: Operation,
    records: Seq<Record>,
    store: Seq<(Seq<char>, Seq<Record>)>,
)
    requires
        apply_operation(operation, records, store) is Some,
    ensures
        drawn_from(apply_operation(operation, records, store).unwrap(), records),
{
    broadcast use vstd::seq_lib::group_to_multiset_ensures;

    let out = apply_operation(operation, records, store).unwrap();
    assert forall|i: int| 0 <= i < out.len() implies originates(#[trigger] out[i], records) by {
        match operation {
            Operation::Filter { condition } => {
                let keep = |r: Record| condition_holds(condition@, r.data);
                assert(records.filter(keep).contains(out[i]));
                records.lemma_filter_contains_rev(keep, out[i]);
                lemma_member_originates(out[i], records);
            },
            Operation::Transform { .. } => {
                assert(same_origin(out[i], records[i]));
            },
            Operation::Sort { fields, ascending } => {
                lemma_sort_permutes(records, names_view(fields@), ascending);
                assert(out.contains(out[i]));
                assert(out.to_multiset().count(out[i]) > 0);
                assert(records.contains(out[i]));
                lemma_member_originates(out[i], records);
            },
            Operation::Deduplicate { fields } => {
                lemma_deduplicate_selects(records, names_view(fields@));
                lemma_member_originates(out[i], records);
            },
            Operation::Aggregate { group_by, functions } => {
                let firsts = deduplicate_records(records, names_view(group_by@));
                lemma_deduplicate_selects(records, names_view(group_by@));
                assert(records.contains(firsts[i]));
                let j = choose|j: int| 0 <= j < records.len() && records[j] == firsts[i];
                assert(same_origin(out[i], records[j]));
            },
            Operation::Join { .. } => {
                assert(same_origin(out[i], records[i]));
            },
            Operation::Validate { .. } => {
                assert(same_origin(out[i], records[i]));
            },
        }
    }
}

} // verus!
