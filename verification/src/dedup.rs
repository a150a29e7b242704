//! Composite keys, and the deduplicate operation on them.

use vstd::prelude::*;
use crate::config::names_view;
use crate::json::canonical_text;
use crate::record::{lemma_records_view_push, records_view, DataRecord, Record};
use crate::text::same_text;
use crate::value::DataValue;

verus! {

/// The composite key of a record: for each listed field the JSON text of
/// its value, null standing for a missing field.
pub open spec fn composite_key(r: Record, fields: Seq<Seq<char>>) -> Seq<Seq<char>> {
    Seq::new(fields.len(), |i: int| canonical_text(r.data.field_or_null(fields[i])))
}

/// Whether some record of the sequence has the key.
pub open spec fn has_key(records: Seq<Record>, fields: Seq<Seq<char>>, key: Seq<Seq<char>>) -> bool {
    exists|i: int| 0 <= i < records.len() && #[trigger] composite_key(records[i], fields) == key
}

/// The first record of each distinct key, in the records' order.
pub open spec fn deduplicate_records(records: Seq<Record>, fields: Seq<Seq<char>>) -> Seq<Record>
    decreases records.len(),
{
    if records.len() == 0 {
        Seq::empty()
    } else {
        let rest = deduplicate_records(records.drop_last(), fields);
        if has_key(records.drop_last(), fields, composite_key(records.last(), fields)) {
            rest
        } else {
            rest.push(records.last())
        }
    }
}

/// The composite key of a record.
pub fn key_of(record: &DataRecord, fields: &Vec<String>) -> (key: Vec<String>)
    ensures
        names_view(key@) == composite_key(record@, names_view(fields@)),
{
    let mut key: Vec<String> = Vec::new();
    let mut i: usize = 0;
    while i < fields.len()
        invariant
            i <= fields.len(),
            key.len() == i,
            forall|k: int|
                0 <= k < i ==> (#[trigger] key@[k])@ == canonical_text(
                    record@.data.field_or_null(fields@[k]@),
                ),
        decreases fields.len() - i,
    {
        let text = match record.data.get(fields[i].as_str()) {
            Some(v) => v.to_json_text(),
            None => DataValue::Null.to_json_text(),
        };
        key.push(text);
        i += 1;
    }
    assert(names_view(key@) =~= composite_key(record@, names_view(fields@)));
    key
}

/// The composite keys of all records.
pub fn keys_of_all(data: &Vec<DataRecord>, fields: &Vec<String>) -> (keys: Vec<Vec<String>>)
    ensures
        keys.len() == data.len(),
        forall|i: int|
            0 <= i < data.len() ==> names_view((#[trigger] keys@[i])@) == composite_key(
                data@[i]@,
                names_view(fields@),
            ),
{
    let mut keys: Vec<Vec<String>> = Vec::new();
    let mut i: usize = 0;
    while i < data.len()
        invariant
            i <= data.len(),
            keys.len() == i,
            forall|k: int|
                0 <= k < i ==> names_view((#[trigger] keys@[k])@) == composite_key(
                    data@[k]@,
                    names_view(fields@),
                ),
        decreases data.len() - i,
    {
        keys.push(key_of(&data[i], fields));
        i += 1;
    }
    keys
}

/// Whether two keys are the same.
pub fn same_key(a: &Vec<String>, b: &Vec<String>) -> (r: bool)
    ensures
        r == (names_view(a@) == names_view(b@)),
{
    if a.len() != b.len() {
        assert(names_view(a@).len() != names_view(b@).len());
        return false;
    }
    let mut i: usize = 0;
    while i < a.len()
        invariant
            i <= a.len(),
            a.len() == b.len(),
            forall|k: int| 0 <= k < i ==> a@[k]@ == b@[k]@,
        decreases a.len() - i,
    {
        if !same_text(a[i].as_str(), b[i].as_str()) {
            assert(names_view(a@)[i as int] != names_view(b@)[i as int]);
            return false;
        }
        i += 1;
    }
    assert(names_view(a@) =~= names_view(b@));
    true
}

/// Whether the key at position `at` occurs at an earlier position.
pub fn seen_before(keys: &Vec<Vec<String>>, at: usize) -> (r: bool)
    requires
        at < keys.len(),
    ensures
        r == exists|j: int| 0 <= j < at && names_view((#[trigger] keys@[j])@) == names_view(keys@[at as int]@),
{
    let mut j: usize = 0;
    while j < at
        invariant
            j <= at < keys.len(),
            forall|k: int| 0 <= k < j ==> names_view((#[trigger] keys@[k])@) != names_view(keys@[at as int]@),
        decreases at - j,
    {
        if same_key(&keys[j], &keys[at]) {
            return true;
        }
        j += 1;
    }
    false
}

/// `has_key` on the first `at` records says what `seen_before` decides on
/// their keys.
pub proof fn lemma_has_key_of_keys(
    records: Seq<Record>,
    fields: Seq<Seq<char>>,
    keys: Seq<Vec<String>>,
    at: int,
)
    requires
        0 <= at < records.len(),
        keys.len() == records.len(),
        forall|i: int|
            0 <= i < records.len() ==> names_view((#[trigger] keys[i])@) == composite_key(records[i], fields),
    ensures
        has_key(records.take(at), fields, composite_key(records[at], fields)) == exists|j: int|
            0 <= j < at && names_view((#[trigger] keys[j])@) == names_view(keys[at]@),
{
    let key = composite_key(records[at], fields);
    if has_key(records.take(at), fields, key) {
        let i = choose|i: int|
            0 <= i < records.take(at).len() && #[trigger] composite_key(records.take(at)[i], fields) == key;
        assert(names_view(keys[i]@) == names_view(keys[at]@));
    }
    if exists|j: int| 0 <= j < at && names_view((#[trigger] keys[j])@) == names_view(keys[at]@) {
        let j = choose|j: int| 0 <= j < at && names_view((#[trigger] keys[j])@) == names_view(keys[at]@);
        assert(composite_key(records.take(at)[j], fields) == key);
    }
}

/// Keeps the first record of each distinct composite key and drops the
/// later ones. What comes back holds one record for each distinct key, and
/// stays as it is when it is deduplicated again.
pub fn deduplicate(data: Vec<DataRecord>, fields: &Vec<String>) -> (out: Vec<DataRecord>)
    ensures
        records_view(out@) == deduplicate_records(records_view(data@), names_view(fields@)),
        deduplicate_records(records_view(out@), names_view(fields@)) == records_view(out@),
        out@.len() == all_keys(records_view(data@), names_view(fields@)).to_set().len(),
{
    let ghost input = data@;
    let ghost names = names_view(fields@);
    let keys = keys_of_all(&data, fields);
    let mut out: Vec<DataRecord> = Vec::new();
    let mut at: usize = 0;
    for record in it: data
        invariant
            it.seq() == input,
            at == it.index(),
            names == names_view(fields@),
            keys.len() == input.len(),
            forall|i: int|
                0 <= i < input.len() ==> names_view((#[trigger] keys@[i])@) == composite_key(input[i]@, names),
            records_view(out@) == deduplicate_records(records_view(input.take(it.index())), names),
    {
        let seen = seen_before(&keys, at);
        proof {
            let all = records_view(input);
            let prefix = records_view(input.take(at + 1));
            assert(prefix.drop_last() =~= records_view(input.take(at as int)));
            assert(prefix.drop_last() =~= all.take(at as int));
            assert(prefix.last() == record@);
            lemma_has_key_of_keys(all, names, keys@, at as int);
            lemma_records_view_push(out@, record);
        }
        if !seen {
            out.push(record);
        }
        at += 1;
    }
    assert(input.take(input.len() as int) =~= input);
    proof {
        lemma_deduplicate_idempotent(records_view(input), names);
        lemma_deduplicate_counts_keys(records_view(input), names);
    }
    out
}

/// The composite keys of the records, in the records' order.
pub open spec fn all_keys(records: Seq<Record>, fields: Seq<Seq<char>>) -> Seq<Seq<Seq<char>>> {
    Seq::new(records.len(), |i: int| composite_key(records[i], fields))
}

/// What was deduplicated holds a key exactly if the records held it.
pub proof fn lemma_deduplicate_keeps_keys(records: Seq<Record>, fields: Seq<Seq<char>>, key: Seq<Seq<char>>)
    ensures
        has_key(deduplicate_records(records, fields), fields, key) == has_key(records, fields, key),
    decreases records.len(),
{
    if records.len() > 0 {
        let rest = records.drop_last();
        let last = records.last();
        let kept = deduplicate_records(rest, fields);
        let out = deduplicate_records(records, fields);
        lemma_deduplicate_keeps_keys(rest, fields, key);
        lemma_deduplicate_keeps_keys(rest, fields, composite_key(last, fields));
        if has_key(out, fields, key) {
            let i = choose|i: int| 0 <= i < out.len() && #[trigger] composite_key(out[i], fields) == key;
            if i < kept.len() {
                assert(composite_key(kept[i], fields) == key);
                let j = choose|j: int| 0 <= j < rest.len() && #[trigger] composite_key(rest[j], fields) == key;
                assert(composite_key(records[j], fields) == key);
            } else {
                assert(composite_key(records[records.len() - 1], fields) == key);
            }
        }
        if has_key(records, fields, key) {
            let j = choose|j: int| 0 <= j < records.len() && #[trigger] composite_key(records[j], fields) == key;
            if j < rest.len() {
                assert(composite_key(rest[j], fields) == key);
            }
            if has_key(rest, fields, key) {
                let i = choose|i: int| 0 <= i < kept.len() && #[trigger] composite_key(kept[i], fields) == key;
                assert(composite_key(out[i], fields) == key);
            } else {
                assert(j == records.len() - 1);
                assert(out == kept.push(last));
                assert(composite_key(out[out.len() - 1], fields) == key);
            }
        }
    }
}

/// To deduplicate is idempotent: what was deduplicated once stays as it is
/// when it is deduplicated again by the same fields.
pub proof fn lemma_deduplicate_idempotent(records: Seq<Record>, fields: Seq<Seq<char>>)
    ensures
        deduplicate_records(deduplicate_records(records, fields), fields) == deduplicate_records(
            records,
            fields,
        ),
    decreases records.len(),
{
    if records.len() > 0 {
        let rest = records.drop_last();
        let last = records.last();
        let kept = deduplicate_records(rest, fields);
        lemma_deduplicate_idempotent(rest, fields);
        if !has_key(rest, fields, composite_key(last, fields)) {
            lemma_deduplicate_keeps_keys(rest, fields, composite_key(last, fields));
            assert(kept.push(last).drop_last() =~= kept);
        }
    }
}

/// What was deduplicated holds as many records as the records have
/// distinct composite keys.
pub proof fn lemma_deduplicate_counts_keys(records: Seq<Record>, fields: Seq<Seq<char>>)
    ensures
        deduplicate_records(records, fields).len() == all_keys(records, fields).to_set().len(),
    decreases records.len(),
{
    broadcast use vstd::seq_lib::seq_to_set_is_finite;

    let keys = all_keys(records, fields);
    if records.len() == 0 {
        assert(keys.to_set() =~= Set::<Seq<Seq<char>>>::empty());
    } else {
        let rest = records.drop_last();
        let last = records.last();
        let key = composite_key(last, fields);
        let before = all_keys(rest, fields);
        lemma_deduplicate_counts_keys(rest, fields);
        assert(keys =~= before.push(key));
        before.lemma_push_to_set_commute(key);
        if has_key(rest, fields, key) {
            let i = choose|i: int| 0 <= i < rest.len() && #[trigger] composite_key(rest[i], fields) == key;
            assert(before[i] == key);
            assert(before.to_set().contains(key));
            assert(before.to_set().insert(key) =~= before.to_set());
        } else {
            if before.to_set().contains(key) {
                let i = choose|i: int| 0 <= i < before.len() && before[i] == key;
                assert(composite_key(rest[i], fields) == key);
            }
            assert(before.to_set().insert(key).len() == before.to_set().len() + 1);
        }
    }
}

/// Every record of what was deduplicated is one of the records.
pub proof fn lemma_deduplicate_selects(records: Seq<Record>, fields: Seq<Seq<char>>)
    ensures
        forall|i: int|
            0 <= i < deduplicate_records(records, fields).len() ==> records.contains(
                #[trigger] deduplicate_records(records, fields)[i],
            ),
    decreases records.len(),
{
    if records.len() > 0 {
        let rest = records.drop_last();
        let kept = deduplicate_records(rest, fields);
        let out = deduplicate_records(records, fields);
        lemma_deduplicate_selects(rest, fields);
        assert forall|i: int| 0 <= i < out.len() implies records.contains(#[trigger] out[i]) by {
            if i < kept.len() {
                assert(rest.contains(kept[i]));
                let j = choose|j: int| 0 <= j < rest.len() && rest[j] == kept[i];
                assert(records[j] == out[i]);
            } else {
                assert(records[records.len() - 1] == out[i]);
            }
        }
    }
}

} // verus!
