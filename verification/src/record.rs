//! Records: the units of ingested data that flow through the pipeline.

use vstd::prelude::*;
use crate::clock::Timestamp;
use crate::value::{duplicate_entries, entries_view, DataValue, Json};

verus! {

/// Mathematical model of a record.
pub struct Record {
    pub id: Seq<char>,
    pub timestamp: Timestamp,
    pub data: Json,
    pub source: Seq<char>,
    pub processed: bool,
    pub metadata: Seq<(Seq<char>, Json)>,
}

/// One unit of ingested structured data.
#[derive(Debug, PartialEq)]
pub struct DataRecord {
    /// Identifies the record; never changes.
    pub id: String,
    /// When the record was created.
    pub timestamp: Timestamp,
    /// The payload; operations may replace it.
    pub data: DataValue,
    /// The name of the set that the record came from; never changes.
    pub source: String,
    /// Informational flag.
    pub processed: bool,
    /// Open-ended named values.
    pub metadata: Vec<(String, DataValue)>,
}

impl View for DataRecord {
    type V = Record;

    open spec fn view(&self) -> Record {
        Record {
            id: self.id@,
            timestamp: self.timestamp,
            data: self.data@,
            source: self.source@,
            processed: self.processed,
            metadata: entries_view(self.metadata@),
        }
    }
}

/// The models of a sequence of records.
pub open spec fn records_view(records: Seq<DataRecord>) -> Seq<Record> {
    Seq::new(records.len(), |i: int| records[i]@)
}

/// Appending a record appends its model.
pub proof fn lemma_records_view_push(records: Seq<DataRecord>, r: DataRecord)
    ensures
        records_view(records.push(r)) == records_view(records).push(r@),
{
    assert(records_view(records.push(r)) =~= records_view(records).push(r@));
}

impl Record {
    /// The record with its payload replaced.
    pub open spec fn with_data(self, data: Json) -> Record {
        Record { data, ..self }
    }
}

impl DataRecord {
    /// A record that was just ingested: not processed, without metadata.
    pub fn new(id: String, timestamp: Timestamp, data: DataValue, source: String) -> (r: DataRecord)
        ensures
            r@ == (Record {
                id: id@,
                timestamp,
                data: data@,
                source: source@,
                processed: false,
                metadata: Seq::empty(),
            }),
    {
        let r = DataRecord { id, timestamp, data, source, processed: false, metadata: Vec::new() };
        assert(r@.metadata =~= Seq::empty());
        r
    }

    /// A deep copy of the record.
    pub fn duplicate(&self) -> (r: DataRecord)
        ensures
            r@ == self@,
    {
        DataRecord {
            id: self.id.clone(),
            timestamp: self.timestamp,
            data: self.data.duplicate(),
            source: self.source.clone(),
            processed: self.processed,
            metadata: duplicate_entries(&self.metadata),
        }
    }
}

/// A deep copy of a sequence of records.
pub fn duplicate_records(records: &Vec<DataRecord>) -> (out: Vec<DataRecord>)
    ensures
        records_view(out@) == records_view(records@),
{
    let mut out: Vec<DataRecord> = Vec::new();
    let mut i: usize = 0;
    while i < records.len()
        invariant
            i <= records.len(),
            out.len() == i,
            forall|k: int| 0 <= k < i ==> out@[k]@ == records@[k]@,
        decreases records.len() - i,
    {
        out.push(records[i].duplicate());
        i += 1;
    }
    assert(records_view(out@) =~= records_view(records@));
    out
}

} // verus!
