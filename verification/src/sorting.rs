//! The sort operation: a stable sort by the values of the listed fields.

use vstd::prelude::*;
use crate::json::canonical_text;
use crate::record::{records_view, DataRecord, Record};
use crate::text::{chars_of, lemma_lex_total, lemma_lex_transitive, lex_le, lex_le_chars};
use crate::value::{DataValue, Json};
use crate::config::names_view;

verus! {

/// What a record is sorted by in one field. The variants stand in rising
/// order: a missing or null field is least, then booleans, integers,
/// strings, and last every other value by its JSON text.
pub enum SortKey {
    Minimal,
    Bool(bool),
    Number(int),
    Text(Seq<char>),
    Other(Seq<char>),
}

/// The key of a field's value.
pub open spec fn sort_key(value: Option<Json>) -> SortKey {
    match value {
        None => SortKey::Minimal,
        Some(Json::Null) => SortKey::Minimal,
        Some(Json::Bool(b)) => SortKey::Bool(b),
        Some(Json::Number(n)) => SortKey::Number(n),
        Some(Json::String(s)) => SortKey::Text(s),
        Some(other) => SortKey::Other(canonical_text(other)),
    }
}

impl SortKey {
    /// The place of the key's variant among the variants.
    pub open spec fn rank(self) -> int {
        match self {
            SortKey::Minimal => 0,
            SortKey::Bool(_) => 1,
            SortKey::Number(_) => 2,
            SortKey::Text(_) => 3,
            SortKey::Other(_) => 4,
        }
    }

    /// `self` is at most `other`: by variant first; within a variant false
    /// before true, integers by value, texts by code point.
    pub open spec fn le(self, other: SortKey) -> bool {
        match (self, other) {
            (SortKey::Bool(x), SortKey::Bool(y)) => !x || y,
            (SortKey::Number(x), SortKey::Number(y)) => x <= y,
            (SortKey::Text(x), SortKey::Text(y)) => lex_le(x, y),
            (SortKey::Other(x), SortKey::Other(y)) => lex_le(x, y),
            _ => self.rank() <= other.rank(),
        }
    }
}

/// Lexicographic order of two key rows from column `i` on: the first column
/// in which the keys are not equivalent decides.
pub open spec fn keys_le_from(a: Seq<SortKey>, b: Seq<SortKey>, i: int) -> bool
    decreases a.len() - i,
{
    if i < 0 || i >= a.len() || i >= b.len() {
        true
    } else if a[i].le(b[i]) && b[i].le(a[i]) {
        keys_le_from(a, b, i + 1)
    } else {
        a[i].le(b[i])
    }
}

/// A record with keys `a` may stand before one with keys `b`.
pub open spec fn precedes(a: Seq<SortKey>, b: Seq<SortKey>, ascending: bool) -> bool {
    if ascending {
        keys_le_from(a, b, 0)
    } else {
        keys_le_from(b, a, 0)
    }
}

/// The keys of a record: one for each field, in the fields' order.
pub open spec fn record_keys(r: Record, fields: Seq<Seq<char>>) -> Seq<SortKey> {
    Seq::new(fields.len(), |i: int| sort_key(r.data.field(fields[i])))
}

/// The keys of each record of a sequence.
pub open spec fn key_rows(records: Seq<Record>, fields: Seq<Seq<char>>) -> Seq<Seq<SortKey>> {
    Seq::new(records.len(), |i: int| record_keys(records[i], fields))
}

/// Where a new row goes among sorted rows: behind the last row that may
/// stand before it.
pub open spec fn insert_position(rows: Seq<Seq<SortKey>>, row: Seq<SortKey>, ascending: bool) -> int
    decreases rows.len(),
{
    if rows.len() == 0 {
        0
    } else if precedes(rows.last(), row, ascending) {
        rows.len() as int
    } else {
        insert_position(rows.drop_last(), row, ascending)
    }
}

/// The records sorted by the listed fields: each record in turn is put
/// behind the last of the records sorted so far that may stand before it.
pub open spec fn sort_records(records: Seq<Record>, fields: Seq<Seq<char>>, ascending: bool) -> Seq<
    Record,
>
    decreases records.len(),
{
    if records.len() == 0 {
        Seq::empty()
    } else {
        let sorted = sort_records(records.drop_last(), fields, ascending);
        sorted.insert(
            insert_position(key_rows(sorted, fields), record_keys(records.last(), fields), ascending),
            records.last(),
        )
    }
}

/// A sort key as the engine holds it.
pub enum Key {
    Minimal,
    Bool(bool),
    Number(i64),
    Text(Vec<char>),
    Other(Vec<char>),
}

impl View for Key {
    type V = SortKey;

    open spec fn view(&self) -> SortKey {
        match self {
            Key::Minimal => SortKey::Minimal,
            Key::Bool(b) => SortKey::Bool(*b),
            Key::Number(n) => SortKey::Number(*n as int),
            Key::Text(s) => SortKey::Text(s@),
            Key::Other(s) => SortKey::Other(s@),
        }
    }
}

/// The models of a row of keys.
pub open spec fn row_view(row: Seq<Key>) -> Seq<SortKey> {
    Seq::new(row.len(), |i: int| row[i]@)
}

/// The models of rows of keys.
pub open spec fn rows_view(rows: Seq<Vec<Key>>) -> Seq<Seq<SortKey>> {
    Seq::new(rows.len(), |i: int| row_view(rows[i]@))
}

impl Key {
    /// The key of a field's value.
    pub fn of(value: Option<&DataValue>) -> (k: Key)
        ensures
            k@ == sort_key(
                match value {
                    Some(v) => Some(v@),
                    None => None,
                },
            ),
    {
        match value {
            None => Key::Minimal,
            Some(DataValue::Null) => Key::Minimal,
            Some(DataValue::Bool(b)) => Key::Bool(*b),
            Some(DataValue::Number(n)) => Key::Number(*n),
            Some(DataValue::String(s)) => Key::Text(chars_of(s.as_str())),
            Some(other) => Key::Other(chars_of(other.to_json_text().as_str())),
        }
    }

    /// The place of the key's variant among the variants.
    fn rank(&self) -> (r: u8)
        ensures
            r == self@.rank(),
    {
        match self {
            Key::Minimal => 0,
            Key::Bool(_) => 1,
            Key::Number(_) => 2,
            Key::Text(_) => 3,
            Key::Other(_) => 4,
        }
    }

    /// Whether `self` is at most `other`.
    pub fn le(&self, other: &Key) -> (r: bool)
        ensures
            r == self@.le(other@),
    {
        match (self, other) {
            (Key::Bool(x), Key::Bool(y)) => !*x || *y,
            (Key::Number(x), Key::Number(y)) => *x <= *y,
            (Key::Text(x), Key::Text(y)) => lex_le_chars(x, y),
            (Key::Other(x), Key::Other(y)) => lex_le_chars(x, y),
            _ => self.rank() <= other.rank(),
        }
    }
}

/// The keys of a record.
pub fn keys_of(record: &DataRecord, fields: &Vec<String>) -> (row: Vec<Key>)
    ensures
        row_view(row@) == record_keys(record@, names_view(fields@)),
{
    let mut row: Vec<Key> = Vec::new();
    let mut i: usize = 0;
    while i < fields.len()
        invariant
            i <= fields.len(),
            row.len() == i,
            forall|k: int| 0 <= k < i ==> (#[trigger] row@[k])@ == sort_key(record@.data.field(fields@[k]@)),
        decreases fields.len() - i,
    {
        row.push(Key::of(record.data.get(fields[i].as_str())));
        i += 1;
    }
    assert(row_view(row@) =~= record_keys(record@, names_view(fields@)));
    row
}

/// Decides the order of two key rows.
pub fn keys_le(a: &Vec<Key>, b: &Vec<Key>) -> (r: bool)
    ensures
        r == keys_le_from(row_view(a@), row_view(b@), 0),
{
    let mut i: usize = 0;
    while i < a.len() && i < b.len()
        invariant
            i <= a.len(),
            i <= b.len(),
            keys_le_from(row_view(a@), row_view(b@), 0) == keys_le_from(row_view(a@), row_view(b@), i as int),
        decreases a.len() - i,
    {
        let forth = a[i].le(&b[i]);
        let back = b[i].le(&a[i]);
        if !(forth && back) {
            return forth;
        }
        i += 1;
    }
    true
}

/// Finds where a new row goes among sorted rows.
pub fn position_for(rows: &Vec<Vec<Key>>, row: &Vec<Key>, ascending: bool) -> (at: usize)
    ensures
        at == insert_position(rows_view(rows@), row_view(row@), ascending),
        at <= rows.len(),
{
    let ghost all = rows_view(rows@);
    let mut at: usize = rows.len();
    assert(all.take(at as int) =~= all);
    while at > 0
        invariant
            at <= rows.len(),
            all == rows_view(rows@),
            insert_position(all, row_view(row@), ascending) == insert_position(
                all.take(at as int),
                row_view(row@),
                ascending,
            ),
        decreases at,
    {
        let may = if ascending {
            keys_le(&rows[at - 1], row)
        } else {
            keys_le(row, &rows[at - 1])
        };
        assert(all.take(at as int).last() == row_view(rows@[at - 1]@));
        assert(all.take(at as int).drop_last() =~= all.take(at - 1));
        if may {
            return at;
        }
        at -= 1;
    }
    at
}

/// Sorts the records by the listed fields, earlier fields first, in
/// ascending or descending order. What comes back holds the same records,
/// is in order, and is stable: records whose keys are equivalent keep
/// their order.
pub fn sort(data: Vec<DataRecord>, fields: &Vec<String>, ascending: bool) -> (out: Vec<DataRecord>)
    ensures
        records_view(out@) == sort_records(records_view(data@), names_view(fields@), ascending),
        records_view(out@).to_multiset() == records_view(data@).to_multiset(),
        is_sorted(records_view(out@), names_view(fields@), ascending),
        forall|class: Seq<SortKey>|
            class.len() == fields@.len() ==> #[trigger] class_of(records_view(out@), names_view(fields@), class)
                == class_of(records_view(data@), names_view(fields@), class),
{
    let ghost input = data@;
    let ghost names = names_view(fields@);
    let mut out: Vec<DataRecord> = Vec::new();
    let mut rows: Vec<Vec<Key>> = Vec::new();
    assert(records_view(out@) =~= sort_records(records_view(input.take(0)), names, ascending));
    assert(rows_view(rows@) =~= key_rows(records_view(out@), names));
    for record in it: data
        invariant
            it.seq() == input,
            names == names_view(fields@),
            out.len() == rows.len(),
            rows_view(rows@) == key_rows(records_view(out@), names),
            records_view(out@) == sort_records(records_view(input.take(it.index())), names, ascending),
    {
        let ghost before = records_view(out@);
        let ghost before_rows = rows_view(rows@);
        let row = keys_of(&record, fields);
        let at = position_for(&rows, &row, ascending);
        proof {
            let prefix = records_view(input.take(it.index() + 1));
            assert(prefix.drop_last() =~= records_view(input.take(it.index())));
            assert(prefix.last() == record@);
        }
        out.insert(at, record);
        rows.insert(at, row);
        assert(records_view(out@) =~= before.insert(at as int, record@));
        assert(rows_view(rows@) =~= before_rows.insert(at as int, row_view(row@)));
        assert(rows_view(rows@) =~= key_rows(records_view(out@), names));
    }
    assert(input.take(input.len() as int) =~= input);
    proof {
        lemma_sort_orders(records_view(input), names, ascending);
        lemma_sort_permutes(records_view(input), names, ascending);
        assert forall|class: Seq<SortKey>| class.len() == fields@.len() implies #[trigger] class_of(
            records_view(out@),
            names,
            class,
        ) == class_of(records_view(input), names, class) by {
            lemma_sort_is_stable(records_view(input), names, ascending, class);
        }
    }
    out
}

/// Of two keys one is at most the other.
pub proof fn lemma_key_total(a: SortKey, b: SortKey)
    ensures
        a.le(b) || b.le(a),
{
    match (a, b) {
        (SortKey::Text(x), SortKey::Text(y)) => lemma_lex_total(x, y, 0),
        (SortKey::Other(x), SortKey::Other(y)) => lemma_lex_total(x, y, 0),
        _ => {},
    }
}

/// The order of keys is transitive.
pub proof fn lemma_key_transitive(a: SortKey, b: SortKey, c: SortKey)
    requires
        a.le(b),
        b.le(c),
    ensures
        a.le(c),
{
    match (a, b, c) {
        (SortKey::Text(x), SortKey::Text(y), SortKey::Text(z)) => lemma_lex_transitive(x, y, z, 0),
        (SortKey::Other(x), SortKey::Other(y), SortKey::Other(z)) => lemma_lex_transitive(x, y, z, 0),
        _ => {},
    }
}

/// Of two key rows of one length one comes at most at the other's place.
pub proof fn lemma_keys_total(a: Seq<SortKey>, b: Seq<SortKey>, i: int)
    requires
        a.len() == b.len(),
        0 <= i,
    ensures
        keys_le_from(a, b, i) || keys_le_from(b, a, i),
    decreases a.len() - i,
{
    if i < a.len() {
        lemma_key_total(a[i], b[i]);
        if a[i].le(b[i]) && b[i].le(a[i]) {
            lemma_keys_total(a, b, i + 1);
        }
    }
}

/// The order of key rows of one length is transitive.
pub proof fn lemma_keys_transitive(a: Seq<SortKey>, b: Seq<SortKey>, c: Seq<SortKey>, i: int)
    requires
        a.len() == b.len(),
        b.len() == c.len(),
        0 <= i,
        keys_le_from(a, b, i),
        keys_le_from(b, c, i),
    ensures
        keys_le_from(a, c, i),
    decreases a.len() - i,
{
    if i < a.len() {
        let ab = a[i].le(b[i]) && b[i].le(a[i]);
        let bc = b[i].le(c[i]) && c[i].le(b[i]);
        lemma_key_transitive(a[i], b[i], c[i]);
        if c[i].le(a[i]) {
            lemma_key_transitive(c[i], a[i], b[i]);
            lemma_key_transitive(b[i], c[i], a[i]);
        }
        if ab && bc {
            lemma_keys_transitive(a, b, c, i + 1);
        }
    }
}

/// Whether two key rows are equivalent: each may stand before the other.
pub open spec fn equivalent(a: Seq<SortKey>, b: Seq<SortKey>) -> bool {
    keys_le_from(a, b, 0) && keys_le_from(b, a, 0)
}

/// The records whose keys are equivalent to the key row `class`, in their
/// order.
pub open spec fn class_of(records: Seq<Record>, fields: Seq<Seq<char>>, class: Seq<SortKey>) -> Seq<Record> {
    records.filter(|r: Record| equivalent(record_keys(r, fields), class))
}

/// Where a new row goes: within the rows, behind a row that may stand
/// before it if behind any, and before rows only that may not.
pub proof fn lemma_insert_position(rows: Seq<Seq<SortKey>>, row: Seq<SortKey>, ascending: bool)
    ensures
        0 <= insert_position(rows, row, ascending) <= rows.len(),
        insert_position(rows, row, ascending) > 0 ==> precedes(
            rows[insert_position(rows, row, ascending) - 1],
            row,
            ascending,
        ),
        forall|j: int|
            insert_position(rows, row, ascending) <= j < rows.len() ==> !precedes(
                #[trigger] rows[j],
                row,
                ascending,
            ),
    decreases rows.len(),
{
    if rows.len() > 0 && !precedes(rows.last(), row, ascending) {
        lemma_insert_position(rows.drop_last(), row, ascending);
        let at = insert_position(rows, row, ascending);
        assert forall|j: int| at <= j < rows.len() implies !precedes(#[trigger] rows[j], row, ascending) by {
            if j < rows.len() - 1 {
                assert(rows.drop_last()[j] == rows[j]);
            }
        }
    }
}

/// Whether every record may stand before every later one.
pub open spec fn is_sorted(records: Seq<Record>, fields: Seq<Seq<char>>, ascending: bool) -> bool {
    forall|i: int, j: int|
        0 <= i < j < records.len() ==> precedes(
            #[trigger] record_keys(records[i], fields),
            #[trigger] record_keys(records[j], fields),
            ascending,
        )
}

/// What was sorted is in order: every record may stand before every later
/// one.
pub proof fn lemma_sort_orders(records: Seq<Record>, fields: Seq<Seq<char>>, ascending: bool)
    ensures
        is_sorted(sort_records(records, fields, ascending), fields, ascending),
        sort_records(records, fields, ascending).len() == records.len(),
    decreases records.len(),
{
    if records.len() > 0 {
        let rest = records.drop_last();
        let last = records.last();
        let sorted = sort_records(rest, fields, ascending);
        let rows = key_rows(sorted, fields);
        let row = record_keys(last, fields);
        let at = insert_position(rows, row, ascending);
        let out = sort_records(records, fields, ascending);
        lemma_sort_orders(rest, fields, ascending);
        lemma_insert_position(rows, row, ascending);
        assert(out == sorted.insert(at, last));
        assert forall|i: int, j: int| 0 <= i < j < out.len() implies precedes(
            #[trigger] record_keys(out[i], fields),
            #[trigger] record_keys(out[j], fields),
            ascending,
        ) by {
            let a = record_keys(out[i], fields);
            let b = record_keys(out[j], fields);
            if j == at {
                // an earlier record and the new one
                assert(out[i] == sorted[i]);
                let c = record_keys(sorted[at - 1], fields);
                assert(rows[at - 1] == c);
                if i < at - 1 {
                    assert(precedes(record_keys(sorted[i], fields), record_keys(sorted[at - 1], fields), ascending));
                    if ascending {
                        lemma_keys_transitive(a, c, b, 0);
                    } else {
                        lemma_keys_transitive(b, c, a, 0);
                    }
                }
            } else if i == at {
                // the new record and a later one
                assert(out[j] == sorted[j - 1]);
                assert(rows[j - 1] == b);
                lemma_keys_total(a, b, 0);
            } else {
                let m = if i < at {
                    i
                } else {
                    i - 1
                };
                let n = if j < at {
                    j
                } else {
                    j - 1
                };
                assert(out[i] == sorted[m]);
                assert(out[j] == sorted[n]);
                assert(precedes(record_keys(sorted[m], fields), record_keys(sorted[n], fields), ascending));
            }
        }
    }
}

/// No record passes a filter that no record meets.
proof fn lemma_filter_none(s: Seq<Record>, pred: spec_fn(Record) -> bool)
    requires
        forall|i: int| 0 <= i < s.len() ==> !pred(#[trigger] s[i]),
    ensures
        s.filter(pred) == Seq::<Record>::empty(),
    decreases s.len(),
{
    reveal(Seq::filter);
    if s.len() > 0 {
        assert forall|i: int| 0 <= i < s.drop_last().len() implies !pred(#[trigger] s.drop_last()[i]) by {
            assert(s.drop_last()[i] == s[i]);
        }
        lemma_filter_none(s.drop_last(), pred);
        assert(!pred(s[s.len() - 1]));
    }
}

/// A sort is stable: the records of equivalent keys stand in what was
/// sorted in the order in which they stood before. For every key row, the
/// records whose keys are equivalent to it are the same sequence before and
/// after.
pub proof fn lemma_sort_is_stable(
    records: Seq<Record>,
    fields: Seq<Seq<char>>,
    ascending: bool,
    class: Seq<SortKey>,
)
    requires
        class.len() == fields.len(),
    ensures
        class_of(sort_records(records, fields, ascending), fields, class) == class_of(records, fields, class),
    decreases records.len(),
{
    reveal(Seq::filter);
    let pred = |r: Record| equivalent(record_keys(r, fields), class);
    if records.len() > 0 {
        let rest = records.drop_last();
        let last = records.last();
        let sorted = sort_records(rest, fields, ascending);
        let rows = key_rows(sorted, fields);
        let row = record_keys(last, fields);
        let at = insert_position(rows, row, ascending);
        let out = sort_records(records, fields, ascending);
        lemma_sort_is_stable(rest, fields, ascending, class);
        lemma_sort_orders(rest, fields, ascending);
        lemma_insert_position(rows, row, ascending);
        let front = sorted.take(at);
        let back = sorted.skip(at);
        assert(sorted =~= front + back);
        assert(out =~= (front + seq![last]) + back);
        Seq::filter_distributes_over_add(front, back, pred);
        Seq::filter_distributes_over_add(front + seq![last], back, pred);
        Seq::filter_distributes_over_add(front, seq![last], pred);
        assert(seq![last].drop_last() =~= Seq::<Record>::empty());
        assert(Seq::<Record>::empty().filter(pred) =~= Seq::<Record>::empty());
        if pred(last) {
            assert(seq![last].filter(pred) =~= seq![last]);
            assert forall|j: int| 0 <= j < back.len() implies !pred(#[trigger] back[j]) by {
                let other = record_keys(back[j], fields);
                assert(rows[at + j] == other);
                if pred(back[j]) {
                    lemma_keys_transitive(other, class, row, 0);
                    lemma_keys_transitive(row, class, other, 0);
                }
            }
            lemma_filter_none(back, pred);
            assert(out.filter(pred) =~= sorted.filter(pred).push(last));
        } else {
            assert(seq![last].filter(pred) =~= Seq::<Record>::empty());
            assert(out.filter(pred) =~= sorted.filter(pred));
        }
    }
}

/// What was sorted holds the records that were there, each as often as
/// before.
pub proof fn lemma_sort_permutes(records: Seq<Record>, fields: Seq<Seq<char>>, ascending: bool)
    ensures
        sort_records(records, fields, ascending).to_multiset() == records.to_multiset(),
    decreases records.len(),
{
    broadcast use vstd::seq_lib::group_to_multiset_ensures;

    if records.len() > 0 {
        let rest = records.drop_last();
        let last = records.last();
        let sorted = sort_records(rest, fields, ascending);
        let at = insert_position(key_rows(sorted, fields), record_keys(last, fields), ascending);
        let out = sorted.insert(at, last);
        lemma_sort_permutes(rest, fields, ascending);
        lemma_insert_position(key_rows(sorted, fields), record_keys(last, fields), ascending);
        assert(records =~= rest.push(last));
        assert(out.remove(at) =~= sorted);
        assert(out[at] == last);
        assert(out.to_multiset() =~= sorted.to_multiset().insert(last));
    }
}

} // verus!
