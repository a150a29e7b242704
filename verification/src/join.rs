//! The join operation: each record merged with the first record of another
//! set that agrees with it in one field.

use vstd::prelude::*;
use crate::record::{records_view, DataRecord, Record};
use crate::value::{entries_view, find_entry, lemma_object_view, lookup_from, DataValue, Json};

verus! {

/// The first candidate at or after position `i` whose `on` field holds
/// `value`.
pub open spec fn match_from(candidates: Seq<Record>, on: Seq<char>, value: Json, i: int) -> Option<Record>
    decreases candidates.len() - i,
{
    if i < 0 || i >= candidates.len() {
        None
    } else if candidates[i].data.field(on) == Some(value) {
        Some(candidates[i])
    } else {
        match_from(candidates, on, value, i + 1)
    }
}

/// The fields of `base`, followed by those fields of `extra`, in their
/// order, whose names did not occur before them.
pub open spec fn merge_fields(base: Seq<(Seq<char>, Json)>, extra: Seq<(Seq<char>, Json)>) -> Seq<
    (Seq<char>, Json),
>
    decreases extra.len(),
{
    if extra.len() == 0 {
        base
    } else {
        let merged = merge_fields(base, extra.drop_last());
        if lookup_from(merged, extra.last().0, 0) is None {
            merged.push(extra.last())
        } else {
            merged
        }
    }
}

/// The payload `base` with the fields of `extra` merged in. The fields of
/// `base` win; where either is no object, `base` stays as it is.
pub open spec fn merge_data(base: Json, extra: Json) -> Json {
    match (base, extra) {
        (Json::Object(b), Json::Object(e)) => Json::Object(merge_fields(b, e)),
        _ => base,
    }
}

/// The record joined with the candidates: merged with the first candidate
/// that holds the same value in the `on` field, or as it was where it has
/// no such field or no candidate matches.
pub open spec fn join_record(r: Record, candidates: Seq<Record>, on: Seq<char>) -> Record {
    match r.data.field(on) {
        Some(v) => match match_from(candidates, on, v, 0) {
            Some(m) => r.with_data(merge_data(r.data, m.data)),
            None => r,
        },
        None => r,
    }
}

/// Every record joined with the candidates.
pub open spec fn join_records(records: Seq<Record>, candidates: Seq<Record>, on: Seq<char>) -> Seq<Record> {
    Seq::new(records.len(), |i: int| join_record(records[i], candidates, on))
}

/// Finds the first candidate whose `on` field holds `value`.
pub fn find_match<'a>(candidates: &'a Vec<DataRecord>, on: &str, value: &DataValue) -> (r: Option<
    &'a DataRecord,
>)
    ensures
        match r {
            Some(m) => match_from(records_view(candidates@), on@, value@, 0) == Some(m@),
            None => match_from(records_view(candidates@), on@, value@, 0) is None,
        },
{
    let ghost all = records_view(candidates@);
    let mut i: usize = 0;
    while i < candidates.len()
        invariant
            i <= candidates.len(),
            all == records_view(candidates@),
            match_from(all, on@, value@, 0) == match_from(all, on@, value@, i as int),
        decreases candidates.len() - i,
    {
        let agrees = match candidates[i].data.get(on) {
            Some(v) => v.same(value),
            None => false,
        };
        if agrees {
            return Some(&candidates[i]);
        }
        i += 1;
    }
    None
}

/// Merges the fields of `extra` into `base`.
pub fn merge(base: DataValue, extra: &DataValue) -> (out: DataValue)
    ensures
        out@ == merge_data(base@, extra@),
{
    match (base, extra) {
        (DataValue::Object(fields), DataValue::Object(more)) => {
            let mut fields = fields;
            proof {
                lemma_object_view(fields);
                lemma_object_view(*more);
            }
            let ghost start = entries_view(fields@);
            let ghost added = entries_view(more@);
            let mut i: usize = 0;
            assert(added.take(0) =~= Seq::<(Seq<char>, Json)>::empty());
            while i < more.len()
                invariant
                    i <= more.len(),
                    added == entries_view(more@),
                    entries_view(fields@) == merge_fields(start, added.take(i as int)),
                decreases more.len() - i,
            {
                let ghost before = entries_view(fields@);
                assert(added.take(i + 1).drop_last() =~= added.take(i as int));
                assert(added.take(i + 1).last() == added[i as int]);
                let at = find_entry(&fields, more[i].0.as_str());
                if at == fields.len() {
                    fields.push((more[i].0.clone(), more[i].1.duplicate()));
                    assert(entries_view(fields@) =~= before.push(added[i as int]));
                }
                i += 1;
            }
            assert(added.take(more@.len() as int) =~= added);
            proof {
                lemma_object_view(fields);
            }
            DataValue::Object(fields)
        },
        (other, _) => other,
    }
}

/// Joins one record with the candidates.
pub fn join_one(record: DataRecord, candidates: &Vec<DataRecord>, on: &str) -> (out: DataRecord)
    ensures
        out@ == join_record(record@, records_view(candidates@), on@),
{
    let found = match record.data.get(on) {
        Some(v) => find_match(candidates, on, v),
        None => None,
    };
    match found {
        Some(m) => {
            let DataRecord { id, timestamp, data, source, processed, metadata } = record;
            DataRecord { id, timestamp, data: merge(data, &m.data), source, processed, metadata }
        },
        None => record,
    }
}

/// Merges into each record the first candidate that holds the same value
/// in the `on` field. A record without a match passes through as it is.
pub fn join(data: Vec<DataRecord>, candidates: &Vec<DataRecord>, on: &str) -> (out: Vec<DataRecord>)
    ensures
        records_view(out@) == join_records(records_view(data@), records_view(candidates@), on@),
{
    let ghost input = data@;
    let mut out: Vec<DataRecord> = Vec::new();
    for record in it: data
        invariant
            it.seq() == input,
            out.len() == it.index(),
            forall|k: int|
                0 <= k < out.len() ==> (#[trigger] out@[k])@ == join_record(
                    input[k]@,
                    records_view(candidates@),
                    on@,
                ),
    {
        out.push(join_one(record, candidates, on));
    }
    assert(records_view(out@) =~= join_records(records_view(input), records_view(candidates@), on@));
    out
}

} // verus!
