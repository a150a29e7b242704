//! JSON text, read and written by `serde_json`.

use vstd::prelude::*;
use crate::value::{Json, DataValue};

verus! {

#[verifier::external_type_specification]
#[verifier::external_body]
pub struct ExJsonValue(serde_json::Value);

/// The compact JSON text that `serde_json` prints for a value.
pub uninterp spec fn json_text(v: Json) -> Seq<char>;

/// The JSON text of a value as it counts: with, in every object, only
/// the first field of each name.
pub open spec fn canonical_text(v: Json) -> Seq<char> {
    json_text(v.canonical())
}

/// The value that `serde_json` reads from a text, if the text is JSON.
pub uninterp spec fn json_parse(text: Seq<char>) -> Option<Json>;

/// Builds the `serde_json::Value` that stands for a value, variant by
/// variant. The fields of an object go into a `serde_json::Map` in their
/// order; the text of a decimal is read by `serde_json::Number`'s
/// `from_str`, and a text that it rejects becomes null. Nothing is
/// claimed of the result: only `render` uses it.
#[verifier::external_body]
fn to_outside(v: &DataValue) -> serde_json::Value {
    match v {
        DataValue::Null => serde_json::Value::Null,
        DataValue::Bool(b) => serde_json::Value::Bool(*b),
        DataValue::Number(n) => serde_json::Value::Number(serde_json::Number::from(*n)),
        DataValue::Decimal(t) => t.parse::<serde_json::Number>().map_or(
            serde_json::Value::Null,
            serde_json::Value::Number,
        ),
        DataValue::String(s) => serde_json::Value::String(s.clone()),
        DataValue::Array(items) => serde_json::Value::Array(items.iter().map(to_outside).collect()),
        DataValue::Object(fields) => serde_json::Value::Object(
            fields.iter().map(|f| (f.0.clone(), to_outside(&f.1))).collect(),
        ),
    }
}

/// Builds the value that a `serde_json::Value` stands for, variant by
/// variant. A number that `serde_json::Number::as_i64` does not return
/// becomes a decimal with the text that `to_string` prints for it; the
/// fields of an object come in the order in which the `serde_json::Map`
/// hands them out. Nothing is claimed of the result: only `parse` uses it.
#[verifier::external_body]
fn from_outside(j: &serde_json::Value) -> DataValue {
    match j {
        serde_json::Value::Null => DataValue::Null,
        serde_json::Value::Bool(b) => DataValue::Bool(*b),
        serde_json::Value::Number(n) => n.as_i64().map_or(DataValue::Decimal(n.to_string()), DataValue::Number),
        serde_json::Value::String(s) => DataValue::String(s.clone()),
        serde_json::Value::Array(items) => DataValue::Array(items.iter().map(from_outside).collect()),
        serde_json::Value::Object(fields) => DataValue::Object(
            fields.iter().map(|f| (f.0.clone(), from_outside(f.1))).collect(),
        ),
    }
}

/// `serde_json::Value::to_string`, on the `serde_json::Value` that stands
/// for `v`: the result is the compact JSON text of the value, a function of
/// the value alone.
#[verifier::external_body]
fn render(v: &DataValue) -> (text: String)
    ensures
        text@ == json_text(v@),
{
    to_outside(v).to_string()
}

/// `serde_json::from_str`, read as a `serde_json::Value`: the result is the
/// value that the text denotes, or nothing where the text is not JSON; it
/// is a function of the text alone.
#[verifier::external_body]
fn parse(text: &str) -> (r: Option<DataValue>)
    ensures
        match r {
            Some(v) => json_parse(text@) == Some(v@),
            None => json_parse(text@) is None,
        },
{
    match serde_json::from_str::<serde_json::Value>(text) {
        Ok(j) => Some(from_outside(&j)),
        Err(_) => None,
    }
}

impl DataValue {
    /// The compact JSON text of the value as it counts: of two fields
    /// with one name, in any object, only the first is written.
    pub fn to_json_text(&self) -> (text: String)
        ensures
            text@ == canonical_text(self@),
    {
        let counted = self.canonical();
        render(&counted)
    }

    /// Reads a value from JSON text; nothing where the text is not JSON.
    pub fn from_json_text(text: &str) -> (r: Option<DataValue>)
        ensures
            match r {
                Some(v) => json_parse(text@) == Some(v@),
                None => json_parse(text@) is None,
            },
    {
        parse(text)
    }
}

} // verus!
