//! The record store: named sets of ingested records.

use vstd::prelude::*;
use crate::record::{records_view, DataRecord, Record};
use crate::text::same_text;

verus! {

/// The records stored under the first entry called `name` at or after
/// position `i`.
pub open spec fn source_from(sets: Seq<(Seq<char>, Seq<Record>)>, name: Seq<char>, i: int) -> Option<
    Seq<Record>,
>
    decreases sets.len() - i,
{
    if i < 0 || i >= sets.len() {
        None
    } else if sets[i].0 == name {
        Some(sets[i].1)
    } else {
        source_from(sets, name, i + 1)
    }
}

/// The position of the first entry called `name` at or after position
/// `i`, or the number of entries if there is none.
pub open spec fn source_position(sets: Seq<(Seq<char>, Seq<Record>)>, name: Seq<char>, i: int) -> int
    decreases sets.len() - i,
{
    if i < 0 || i >= sets.len() {
        sets.len() as int
    } else if sets[i].0 == name {
        i
    } else {
        source_position(sets, name, i + 1)
    }
}

/// The sets with `records` stored under `name`: in place of the set of that
/// name, or at the end where there is none.
pub open spec fn put(sets: Seq<(Seq<char>, Seq<Record>)>, name: Seq<char>, records: Seq<Record>) -> Seq<
    (Seq<char>, Seq<Record>),
> {
    let at = source_position(sets, name, 0);
    if 0 <= at < sets.len() {
        sets.update(at, (name, records))
    } else {
        sets.push((name, records))
    }
}

/// No two entries have one name.
pub open spec fn distinct_names(sets: Seq<(Seq<char>, Seq<Record>)>) -> bool {
    forall|i: int, j: int| 0 <= i < j < sets.len() ==> (#[trigger] sets[i]).0 != (#[trigger] sets[j]).0
}

/// `source_position` stays within the entries, points at an entry of the
/// name when it points at one, and passes none of that name.
pub proof fn lemma_source_position(sets: Seq<(Seq<char>, Seq<Record>)>, name: Seq<char>, i: int)
    requires
        0 <= i <= sets.len(),
    ensures
        i <= source_position(sets, name, i) <= sets.len(),
        source_position(sets, name, i) < sets.len() ==> sets[source_position(sets, name, i)].0 == name,
        forall|k: int| i <= k < source_position(sets, name, i) ==> (#[trigger] sets[k]).0 != name,
    decreases sets.len() - i,
{
    if i < sets.len() && sets[i].0 != name {
        lemma_source_position(sets, name, i + 1);
    }
}

/// Storing a set keeps the names distinct.
pub proof fn lemma_put_distinct(sets: Seq<(Seq<char>, Seq<Record>)>, name: Seq<char>, records: Seq<Record>)
    requires
        distinct_names(sets),
    ensures
        distinct_names(put(sets, name, records)),
{
    lemma_source_position(sets, name, 0);
}

/// After a set is stored under a name, a search for the name that starts
/// at or before the set's place finds that set.
proof fn lemma_put_then_get(sets: Seq<(Seq<char>, Seq<Record>)>, name: Seq<char>, records: Seq<Record>, i: int)
    requires
        0 <= i <= source_position(sets, name, 0),
    ensures
        source_from(put(sets, name, records), name, i) == Some(records),
    decreases source_position(sets, name, 0) - i,
{
    lemma_source_position(sets, name, 0);
    let at = source_position(sets, name, 0);
    let after = put(sets, name, records);
    if i < at {
        assert(after[i] == sets[i]);
        lemma_put_then_get(sets, name, records, i + 1);
    } else {
        assert(after[at] == (name, records));
    }
}

/// After a set is stored under a name, a search for the name finds that
/// set.
pub proof fn lemma_put_get(sets: Seq<(Seq<char>, Seq<Record>)>, name: Seq<char>, records: Seq<Record>)
    ensures
        source_from(put(sets, name, records), name, 0) == Some(records),
{
    lemma_source_position(sets, name, 0);
    lemma_put_then_get(sets, name, records, 0);
}

/// Named sets of records, in the order in which their names were first
/// stored. No two sets have one name.
pub struct RecordStore {
    sets: Vec<(String, Vec<DataRecord>)>,
}

impl View for RecordStore {
    type V = Seq<(Seq<char>, Seq<Record>)>;

    closed spec fn view(&self) -> Seq<(Seq<char>, Seq<Record>)> {
        Seq::new(self.sets@.len(), |i: int| (self.sets@[i].0@, records_view(self.sets@[i].1@)))
    }
}

impl RecordStore {
    /// No two sets of the store have one name.
    pub open spec fn wf(&self) -> bool {
        distinct_names(self@)
    }

    /// A store without sets.
    pub fn new() -> (store: RecordStore)
        ensures
            store@ == Seq::<(Seq<char>, Seq<Record>)>::empty(),
            store.wf(),
    {
        let store = RecordStore { sets: Vec::new() };
        assert(store@ =~= Seq::<(Seq<char>, Seq<Record>)>::empty());
        store
    }

    /// The number of sets.
    pub fn len(&self) -> (n: usize)
        ensures
            n == self@.len(),
    {
        self.sets.len()
    }

    /// Finds the set called `name`.
    fn position(&self, name: &str) -> (at: usize)
        ensures
            at == source_position(self@, name@, 0),
            at <= self.sets.len(),
            at < self.sets.len() ==> source_from(self@, name@, 0) == Some(
                records_view(self.sets@[at as int].1@),
            ),
            at == self.sets.len() ==> source_from(self@, name@, 0) is None,
    {
        let mut i: usize = 0;
        while i < self.sets.len()
            invariant
                i <= self.sets.len(),
                source_position(self@, name@, 0) == source_position(self@, name@, i as int),
                source_from(self@, name@, 0) == source_from(self@, name@, i as int),
            decreases self.sets.len() - i,
        {
            if same_text(self.sets[i].0.as_str(), name) {
                return i;
            }
            i += 1;
        }
        i
    }

    /// The records stored under `name`, if there are any.
    pub fn get(&self, name: &str) -> (r: Option<&Vec<DataRecord>>)
        ensures
            match r {
                Some(records) => source_from(self@, name@, 0) == Some(records_view(records@)),
                None => source_from(self@, name@, 0) is None,
            },
    {
        let at = self.position(name);
        if at < self.sets.len() {
            Some(&self.sets[at].1)
        } else {
            None
        }
    }

    /// The set that was stored first, if the store holds any.
    pub fn first(&self) -> (r: Option<&Vec<DataRecord>>)
        ensures
            match r {
                Some(records) => self@.len() > 0 && self@[0].1 == records_view(records@),
                None => self@.len() == 0,
            },
    {
        if self.sets.len() > 0 {
            Some(&self.sets[0].1)
        } else {
            None
        }
    }

    /// Stores `records` under `name`, in place of the set of that name if
    /// there is one.
    pub fn insert(&mut self, name: String, records: Vec<DataRecord>)
        ensures
            final(self)@ == put(old(self)@, name@, records_view(records@)),
            old(self).wf() ==> final(self).wf(),
    {
        proof {
            if self.wf() {
                lemma_put_distinct(self@, name@, records_view(records@));
            }
        }
        let ghost before = self@;
        let at = self.position(name.as_str());
        if at < self.sets.len() {
            self.sets.set(at, (name, records));
        } else {
            self.sets.push((name, records));
        }
        assert(self@ =~= put(before, name@, records_view(records@)));
    }
}

} // verus!
