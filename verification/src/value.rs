//! The structured payload carried by every record.

use vstd::prelude::*;
use crate::text::same_text;

verus! {

/// Mathematical model of a structured value.
pub enum Json {
    Null,
    Bool(bool),
    /// A number that is a 64-bit signed integer.
    Number(int),
    /// Any other number, as the text that denotes it.
    Decimal(Seq<char>),
    String(Seq<char>),
    Array(Seq<Json>),
    /// Named fields in order; of two fields with one name the first counts.
    Object(Seq<(Seq<char>, Json)>),
}

/// The value of the first field called `name` at or after position `i`.
pub open spec fn lookup_from(fields: Seq<(Seq<char>, Json)>, name: Seq<char>, i: int) -> Option<Json>
    decreases fields.len() - i,
{
    if i < 0 || i >= fields.len() {
        None
    } else if fields[i].0 == name {
        Some(fields[i].1)
    } else {
        lookup_from(fields, name, i + 1)
    }
}

/// The position of the first field called `name` at or after position `i`,
/// or the number of fields if there is none.
pub open spec fn position_from(fields: Seq<(Seq<char>, Json)>, name: Seq<char>, i: int) -> int
    decreases fields.len() - i,
{
    if i < 0 || i >= fields.len() {
        fields.len() as int
    } else if fields[i].0 == name {
        i
    } else {
        position_from(fields, name, i + 1)
    }
}

/// The fields with the value of the first field called `name` replaced, or
/// with a new field at the end if there is none.
pub open spec fn assign(fields: Seq<(Seq<char>, Json)>, name: Seq<char>, value: Json) -> Seq<(Seq<char>, Json)> {
    let at = position_from(fields, name, 0);
    if 0 <= at < fields.len() {
        fields.update(at, (name, value))
    } else {
        fields.push((name, value))
    }
}

/// The fields without those whose name an earlier field has.
pub open spec fn first_fields(fields: Seq<(Seq<char>, Json)>) -> Seq<(Seq<char>, Json)>
    decreases fields.len(),
{
    if fields.len() == 0 {
        Seq::empty()
    } else {
        let rest = first_fields(fields.drop_last());
        if lookup_from(fields.drop_last(), fields.last().0, 0) is Some {
            rest
        } else {
            rest.push(fields.last())
        }
    }
}

/// Whether a field of a name is found does not depend on the fields'
/// values.
pub proof fn lemma_lookup_by_names(
    a: Seq<(Seq<char>, Json)>,
    b: Seq<(Seq<char>, Json)>,
    name: Seq<char>,
    i: int,
)
    requires
        a.len() == b.len(),
        forall|k: int| 0 <= k < a.len() ==> (#[trigger] a[k]).0 == b[k].0,
        0 <= i,
    ensures
        lookup_from(a, name, i) is Some <==> lookup_from(b, name, i) is Some,
    decreases a.len() - i,
{
    if i < a.len() {
        assert(a[i].0 == b[i].0);
        if a[i].0 != name {
            lemma_lookup_by_names(a, b, name, i + 1);
        }
    }
}

/// The value without the fields, among its own, whose name an earlier
/// field has. Values within it stay as they are.
pub open spec fn first_fields_of(v: Json) -> Json {
    match v {
        Json::Object(fields) => Json::Object(first_fields(fields)),
        _ => v,
    }
}

/// What counts of an object: the first field of each name, each with what
/// counts of its value.
pub proof fn lemma_canonical_object(fields: Seq<(Seq<char>, Json)>)
    ensures
        Json::Object(fields).canonical() == Json::Object(
            first_fields(Seq::new(fields.len(), |i: int| (fields[i].0, fields[i].1.canonical()))),
        ),
{
    let inner = Json::Object(fields).within()->Object_0;
    let plain = Seq::new(fields.len(), |i: int| (fields[i].0, fields[i].1.canonical()));
    assert(inner.len() == plain.len());
    assert forall|i: int| 0 <= i < inner.len() implies inner[i] == plain[i] by {
        assert(inner[i].0 == fields[i].0);
        assert(inner[i].1 == fields[i].1.canonical());
    }
    assert(inner =~= plain);
}

/// What counts of an array: what counts of each item.
pub proof fn lemma_canonical_array(items: Seq<Json>)
    ensures
        Json::Array(items).canonical() == Json::Array(Seq::new(items.len(), |i: int| items[i].canonical())),
{
    let inner = Json::Array(items).within()->Array_0;
    let plain = Seq::new(items.len(), |i: int| items[i].canonical());
    assert(inner.len() == plain.len());
    assert forall|i: int| 0 <= i < inner.len() implies inner[i] == plain[i] by {
        assert(inner[i] == items[i].canonical());
    }
    assert(inner =~= plain);
}

impl Json {
    /// The value with, in place of every value within it, what counts of
    /// that value.
    pub open spec fn within(self) -> Json
        decreases self,
    {
        match self {
            Json::Array(items) => Json::Array(
                Seq::new(
                    items.len(),
                    |i: int|
                        if 0 <= i < items.len() {
                            first_fields_of(items[i].within())
                        } else {
                            Json::Null
                        },
                ),
            ),
            Json::Object(fields) => Json::Object(
                Seq::new(
                    fields.len(),
                    |i: int|
                        if 0 <= i < fields.len() {
                            (fields[i].0, first_fields_of(fields[i].1.within()))
                        } else {
                            (Seq::empty(), Json::Null)
                        },
                ),
            ),
            _ => self,
        }
    }

    /// The value as it counts: in every object, at every depth, only the
    /// first field of each name.
    pub open spec fn canonical(self) -> Json {
        first_fields_of(self.within())
    }

    /// The value of the field called `name`, if this is an object that has
    /// one.
    pub open spec fn field(self, name: Seq<char>) -> Option<Json> {
        match self {
            Json::Object(fields) => lookup_from(fields, name, 0),
            _ => None,
        }
    }

    /// The value of the field called `name`, or null where `field` finds
    /// none.
    pub open spec fn field_or_null(self, name: Seq<char>) -> Json {
        match self.field(name) {
            Some(v) => v,
            None => Json::Null,
        }
    }

    /// The name of the value's kind.
    pub open spec fn kind_name(self) -> Seq<char> {
        match self {
            Json::Null => "null"@,
            Json::Bool(_) => "boolean"@,
            Json::Number(_) => "number"@,
            Json::Decimal(_) => "number"@,
            Json::String(_) => "string"@,
            Json::Array(_) => "array"@,
            Json::Object(_) => "object"@,
        }
    }

    /// The object with the field called `name` set to `value`; any other
    /// value is left as it is.
    pub open spec fn with_field(self, name: Seq<char>, value: Json) -> Json {
        match self {
            Json::Object(fields) => Json::Object(assign(fields, name, value)),
            _ => self,
        }
    }
}

/// An untyped structured value: null, boolean, number, string, array, or
/// object (an ordered list of named fields).
#[derive(Debug, PartialEq)]
pub enum DataValue {
    Null,
    Bool(bool),
    /// A number that is a 64-bit signed integer.
    Number(i64),
    /// Any other number, carried as the text that denotes it. The engine
    /// does no arithmetic on it.
    Decimal(String),
    String(String),
    Array(Vec<DataValue>),
    /// Named fields in order; of two fields with one name the first counts.
    Object(Vec<(String, DataValue)>),
}

impl DataValue {
    /// The mathematical model of the value.
    pub open spec fn model(&self) -> Json
        decreases self,
    {
        match self {
            DataValue::Null => Json::Null,
            DataValue::Bool(b) => Json::Bool(*b),
            DataValue::Number(n) => Json::Number(*n as int),
            DataValue::Decimal(t) => Json::Decimal(t@),
            DataValue::String(s) => Json::String(s@),
            DataValue::Array(items) => Json::Array(
                Seq::new(
                    items@.len(),
                    |i: int|
                        if 0 <= i < items@.len() {
                            items@[i].model()
                        } else {
                            Json::Null
                        },
                ),
            ),
            DataValue::Object(fields) => Json::Object(
                Seq::new(
                    fields@.len(),
                    |i: int|
                        if 0 <= i < fields@.len() {
                            (fields@[i].0@, fields@[i].1.model())
                        } else {
                            (Seq::empty(), Json::Null)
                        },
                ),
            ),
        }
    }
}

impl View for DataValue {
    type V = Json;

    open spec fn view(&self) -> Json {
        self.model()
    }
}

/// The models of a list of values.
pub open spec fn items_view(items: Seq<DataValue>) -> Seq<Json> {
    Seq::new(items.len(), |i: int| items[i]@)
}

/// The models of a list of named values.
pub open spec fn entries_view(fields: Seq<(String, DataValue)>) -> Seq<(Seq<char>, Json)> {
    Seq::new(fields.len(), |i: int| (fields[i].0@, fields[i].1@))
}

/// The model of an array is the array of its items' models.
pub proof fn lemma_array_view(items: Vec<DataValue>)
    ensures
        DataValue::Array(items)@ == Json::Array(items_view(items@)),
{
    assert(DataValue::Array(items)@->Array_0 =~= items_view(items@));
}

/// The model of an object is the object of its fields' models.
pub proof fn lemma_object_view(fields: Vec<(String, DataValue)>)
    ensures
        DataValue::Object(fields)@ == Json::Object(entries_view(fields@)),
{
    let v = DataValue::Object(fields);
    assert(v@ is Object);
    let left = v@->Object_0;
    let right = entries_view(fields@);
    assert(left.len() == fields@.len());
    assert(left.len() == right.len());
    assert forall|i: int| 0 <= i < left.len() implies left[i] == right[i] by {
        assert(left[i].0 == fields@[i].0@);
        assert(left[i].1 == fields@[i].1@);
    }
    assert(left =~= right);
}

/// A deep copy of a list of named values.
pub fn duplicate_entries(fields: &Vec<(String, DataValue)>) -> (out: Vec<(String, DataValue)>)
    ensures
        entries_view(out@) == entries_view(fields@),
{
    let mut out: Vec<(String, DataValue)> = Vec::new();
    let mut i: usize = 0;
    while i < fields.len()
        invariant
            i <= fields.len(),
            out.len() == i,
            forall|k: int| 0 <= k < i ==> out@[k].0@ == fields@[k].0@ && out@[k].1@ == fields@[k].1@,
        decreases fields.len() - i,
    {
        out.push((fields[i].0.clone(), fields[i].1.duplicate()));
        i += 1;
    }
    assert(entries_view(out@) =~= entries_view(fields@));
    out
}

/// Finds the first field called `name`.
pub fn find_entry(fields: &Vec<(String, DataValue)>, name: &str) -> (at: usize)
    ensures
        at == position_from(entries_view(fields@), name@, 0),
        at <= fields.len(),
        at < fields.len() ==> fields@[at as int].0@ == name@ && lookup_from(
            entries_view(fields@),
            name@,
            0,
        ) == Some(fields@[at as int].1@),
        at == fields.len() ==> lookup_from(entries_view(fields@), name@, 0) is None,
{
    let ghost model = entries_view(fields@);
    let mut i: usize = 0;
    while i < fields.len()
        invariant
            i <= fields.len(),
            model == entries_view(fields@),
            position_from(model, name@, 0) == position_from(model, name@, i as int),
            lookup_from(model, name@, 0) == lookup_from(model, name@, i as int),
        decreases fields.len() - i,
    {
        if same_text(fields[i].0.as_str(), name) {
            return i;
        }
        i += 1;
    }
    i
}

/// Whether a field before position `at` has the name of the field at
/// `at`.
fn named_before(fields: &Vec<(String, DataValue)>, at: usize) -> (r: bool)
    requires
        at < fields.len(),
    ensures
        r == (lookup_from(entries_view(fields@).take(at as int), fields@[at as int].0@, 0) is Some),
{
    let ghost earlier = entries_view(fields@).take(at as int);
    let ghost name = fields@[at as int].0@;
    let mut j: usize = 0;
    while j < at
        invariant
            j <= at < fields.len(),
            earlier == entries_view(fields@).take(at as int),
            name == fields@[at as int].0@,
            lookup_from(earlier, name, 0) == lookup_from(earlier, name, j as int),
        decreases at - j,
    {
        if same_text(fields[j].0.as_str(), fields[at].0.as_str()) {
            return true;
        }
        j += 1;
    }
    false
}

impl DataValue {
    /// A copy of the value as it counts: in every object, at every depth,
    /// only the first field of each name.
    #[verifier::loop_isolation(false)]
    pub fn canonical(&self) -> (out: DataValue)
        ensures
            out@ == self@.canonical(),
        decreases self,
    {
        match self {
            DataValue::Null => DataValue::Null,
            DataValue::Bool(b) => DataValue::Bool(*b),
            DataValue::Number(n) => DataValue::Number(*n),
            DataValue::Decimal(t) => DataValue::Decimal(t.clone()),
            DataValue::String(s) => DataValue::String(s.clone()),
            DataValue::Array(items) => {
                proof {
                    lemma_array_view(*items);
                }
                let mut out: Vec<DataValue> = Vec::new();
                let mut i: usize = 0;
                while i < items.len()
                    invariant
                        i <= items.len(),
                        out.len() == i,
                        forall|k: int| 0 <= k < i ==> (#[trigger] out@[k])@ == items@[k]@.canonical(),
                    decreases items.len() - i,
                {
                    out.push(items[i].canonical());
                    i += 1;
                }
                proof {
                    lemma_array_view(out);
                    lemma_canonical_array(items_view(items@));
                    assert(items_view(out@) =~= Seq::new(
                        items_view(items@).len(),
                        |i: int| items_view(items@)[i].canonical(),
                    ));
                }
                DataValue::Array(out)
            },
            DataValue::Object(fields) => {
                proof {
                    lemma_object_view(*fields);
                }
                let ghost given = entries_view(fields@);
                let ghost mapped = Seq::new(
                    given.len(),
                    |i: int|
                        if 0 <= i < given.len() {
                            (given[i].0, given[i].1.canonical())
                        } else {
                            (Seq::empty(), Json::Null)
                        },
                );
                let mut out: Vec<(String, DataValue)> = Vec::new();
                let mut i: usize = 0;
                assert(entries_view(out@) =~= first_fields(mapped.take(0)));
                while i < fields.len()
                    invariant
                        i <= fields.len(),
                        given == entries_view(fields@),
                        mapped.len() == given.len(),
                        forall|k: int|
                            0 <= k < given.len() ==> (#[trigger] mapped[k]) == (
                                given[k].0,
                                given[k].1.canonical(),
                            ),
                        entries_view(out@) == first_fields(mapped.take(i as int)),
                    decreases fields.len() - i,
                {
                    let ghost kept = entries_view(out@);
                    let seen = named_before(fields, i);
                    proof {
                        assert(mapped.take(i + 1).drop_last() =~= mapped.take(i as int));
                        assert(mapped.take(i + 1).last() == mapped[i as int]);
                        assert forall|k: int| 0 <= k < i implies (#[trigger] given.take(i as int)[k]).0
                            == mapped.take(i as int)[k].0 by {
                            assert(mapped[k].0 == given[k].0);
                        }
                        lemma_lookup_by_names(given.take(i as int), mapped.take(i as int), given[i as int].0, 0);
                    }
                    if !seen {
                        out.push((fields[i].0.clone(), fields[i].1.canonical()));
                        assert(entries_view(out@) =~= kept.push(mapped[i as int]));
                    }
                    i += 1;
                }
                proof {
                    assert(mapped.take(fields@.len() as int) =~= mapped);
                    lemma_object_view(out);
                    lemma_canonical_object(given);
                    let direct = Seq::new(given.len(), |i: int| (given[i].0, given[i].1.canonical()));
                    assert(direct =~= mapped);
                }
                DataValue::Object(out)
            },
        }
    }

    /// A deep copy of the value.
    #[verifier::loop_isolation(false)]
    pub fn duplicate(&self) -> (out: DataValue)
        ensures
            out@ == self@,
        decreases self,
    {
        match self {
            DataValue::Null => DataValue::Null,
            DataValue::Bool(b) => DataValue::Bool(*b),
            DataValue::Number(n) => DataValue::Number(*n),
            DataValue::Decimal(t) => DataValue::Decimal(t.clone()),
            DataValue::String(s) => DataValue::String(s.clone()),
            DataValue::Array(items) => {
                let mut out: Vec<DataValue> = Vec::new();
                let mut i: usize = 0;
                while i < items.len()
                    invariant
                        i <= items.len(),
                        out.len() == i,
                        forall|k: int| 0 <= k < i ==> out@[k]@ == items@[k]@,
                    decreases items.len() - i,
                {
                    out.push(items[i].duplicate());
                    i += 1;
                }
                let r = DataValue::Array(out);
                assert(r@->Array_0 =~= self@->Array_0);
                r
            },
            DataValue::Object(fields) => {
                let mut out: Vec<(String, DataValue)> = Vec::new();
                let mut i: usize = 0;
                while i < fields.len()
                    invariant
                        i <= fields.len(),
                        out.len() == i,
                        forall|k: int|
                            0 <= k < i ==> out@[k].0@ == fields@[k].0@ && out@[k].1@ == fields@[k].1@,
                    decreases fields.len() - i,
                {
                    out.push((fields[i].0.clone(), fields[i].1.duplicate()));
                    i += 1;
                }
                let r = DataValue::Object(out);
                assert(r@->Object_0 =~= self@->Object_0);
                r
            },
        }
    }

    /// Whether two values are the same: same kind, same content, and for
    /// objects the same fields in the same order.
    #[verifier::loop_isolation(false)]
    pub fn same(&self, other: &DataValue) -> (r: bool)
        ensures
            r == (self@ == other@),
        decreases self,
    {
        match (self, other) {
            (DataValue::Null, DataValue::Null) => true,
            (DataValue::Bool(a), DataValue::Bool(b)) => *a == *b,
            (DataValue::Number(a), DataValue::Number(b)) => *a == *b,
            (DataValue::Decimal(a), DataValue::Decimal(b)) => same_text(a.as_str(), b.as_str()),
            (DataValue::String(a), DataValue::String(b)) => same_text(a.as_str(), b.as_str()),
            (DataValue::Array(a), DataValue::Array(b)) => {
                proof {
                    lemma_array_view(*a);
                    lemma_array_view(*b);
                }
                if a.len() != b.len() {
                    assert(items_view(a@).len() != items_view(b@).len());
                    return false;
                }
                let mut i: usize = 0;
                while i < a.len()
                    invariant
                        i <= a.len(),
                        a.len() == b.len(),
                        forall|k: int| 0 <= k < i ==> a@[k]@ == b@[k]@,
                    decreases a.len() - i,
                {
                    if !a[i].same(&b[i]) {
                        assert(items_view(a@)[i as int] != items_view(b@)[i as int]);
                        return false;
                    }
                    i += 1;
                }
                assert(items_view(a@) =~= items_view(b@));
                true
            },
            (DataValue::Object(a), DataValue::Object(b)) => {
                proof {
                    lemma_object_view(*a);
                    lemma_object_view(*b);
                }
                if a.len() != b.len() {
                    assert(entries_view(a@).len() != entries_view(b@).len());
                    return false;
                }
                let mut i: usize = 0;
                while i < a.len()
                    invariant
                        i <= a.len(),
                        a.len() == b.len(),
                        forall|k: int| 0 <= k < i ==> a@[k].0@ == b@[k].0@ && a@[k].1@ == b@[k].1@,
                    decreases a.len() - i,
                {
                    if !same_text(a[i].0.as_str(), b[i].0.as_str()) || !a[i].1.same(&b[i].1) {
                        assert(entries_view(a@)[i as int] != entries_view(b@)[i as int]);
                        return false;
                    }
                    i += 1;
                }
                assert(entries_view(a@) =~= entries_view(b@));
                true
            },
            _ => false,
        }
    }

    /// Whether the value is null.
    pub fn is_null(&self) -> (r: bool)
        ensures
            r == (self@ == Json::Null),
    {
        match self {
            DataValue::Null => true,
            _ => false,
        }
    }

    /// The value of the field called `name`, if this is an object that has
    /// one.
    pub fn get(&self, name: &str) -> (r: Option<&DataValue>)
        ensures
            match r {
                Some(v) => self@.field(name@) == Some(v@),
                None => self@.field(name@) is None,
            },
    {
        match self {
            DataValue::Object(fields) => {
                proof {
                    lemma_object_view(*fields);
                }
                let at = find_entry(fields, name);
                if at < fields.len() {
                    Some(&fields[at].1)
                } else {
                    None
                }
            },
            _ => None,
        }
    }

    /// The name of the value's kind: `null`, `boolean`, `number`, `string`,
    /// `array` or `object`.
    pub fn kind_name(&self) -> (r: &'static str)
        ensures
            r@ == self@.kind_name(),
    {
        match self {
            DataValue::Null => "null",
            DataValue::Bool(_) => "boolean",
            DataValue::Number(_) => "number",
            DataValue::Decimal(_) => "number",
            DataValue::String(_) => "string",
            DataValue::Array(_) => "array",
            DataValue::Object(_) => "object",
        }
    }

    /// Sets the field called `name` to `value` if this is an object:
    /// replaces the first field of that name, or adds one at the end. Any
    /// other value is returned as it is.
    pub fn with_field(self, name: String, value: DataValue) -> (out: DataValue)
        ensures
            out@ == self@.with_field(name@, value@),
    {
        match self {
            DataValue::Object(fields) => {
                let mut fields = fields;
                proof {
                    lemma_object_view(fields);
                }
                let ghost before = entries_view(fields@);
                let at = find_entry(&fields, name.as_str());
                if at < fields.len() {
                    fields.set(at, (name, value));
                } else {
                    fields.push((name, value));
                }
                proof {
                    lemma_object_view(fields);
                    assert(entries_view(fields@) =~= assign(before, name@, value@));
                }
                DataValue::Object(fields)
            },
            other => other,
        }
    }
}

} // verus!
