//! The validation engine: field-level rules checked against a record.

use vstd::prelude::*;
use vstd::string::{StrSliceExecFns, StringExecFns};
use crate::clock::Timestamp;
use crate::config::{ValidationRule, ValidationType};
use crate::expr::{condition_holds, Condition};
use crate::pattern::{matches_pattern, regex_match};
use crate::record::{records_view, DataRecord, Record};
use crate::result::{errors_view, lemma_errors_view_push, ErrorModel, ProcessingError};
use crate::text::{decimal, same_text, signed_text, unsigned_text};
use crate::value::{lemma_array_view, DataValue, Json};

verus! {

/// What a record's payload does against a rule: nothing, or the message of
/// the one violation.
pub open spec fn violation(data: Json, rule: ValidationRule) -> Option<Seq<char>> {
    let field = rule.field@;
    let value = data.field(field);
    match rule.rule_type {
        ValidationType::Required => if value is None || value == Some(Json::Null) {
            Some("Field "@ + field + " is required"@)
        } else {
            None
        },
        ValidationType::DataType { expected_type } => match value {
            Some(v) => if v.kind_name() != expected_type@ {
                Some(
                    "Field "@ + field + " expected type "@ + expected_type@ + ", got "@
                        + v.kind_name(),
                )
            } else {
                None
            },
            None => None,
        },
        ValidationType::Range { min, max } => match value {
            Some(Json::Number(n)) => if n < min || n > max {
                Some(
                    "Field "@ + field + " value "@ + decimal(n) + " out of range ["@ + decimal(
                        min as int,
                    ) + ", "@ + decimal(max as int) + "]"@,
                )
            } else {
                None
            },
            _ => None,
        },
        ValidationType::Length { min_length, max_length } => match measured_length(value) {
            Some(n) => if n < min_length || n > max_length {
                Some(
                    "Field "@ + field + " length "@ + decimal(n as int) + " outside ["@ + decimal(
                        min_length as int,
                    ) + ", "@ + decimal(max_length as int) + "]"@,
                )
            } else {
                None
            },
            None => None,
        },
        ValidationType::Pattern { regex } => match value {
            Some(Json::String(s)) => if regex_match(regex@, s) != Some(true) {
                Some("Field "@ + field + " does not match pattern "@ + regex@)
            } else {
                None
            },
            _ => None,
        },
        ValidationType::Custom { expression } => if !condition_holds(expression@, data) {
            Some("Custom validation failed: "@ + expression@)
        } else {
            None
        },
    }
}

/// The length that a length rule measures: the characters of a string, the
/// items of an array; no other value has one.
pub open spec fn measured_length(value: Option<Json>) -> Option<nat> {
    match value {
        Some(Json::String(s)) => Some(s.len()),
        Some(Json::Array(items)) => Some(items.len()),
        _ => None,
    }
}

/// Checks a record against one rule. Fails with the violation's message.
pub fn validate_record(record: &DataRecord, rule: &ValidationRule) -> (r: Result<(), String>)
    ensures
        match r {
            Ok(_) => violation(record@.data, *rule) is None,
            Err(message) => violation(record@.data, *rule) == Some(message@),
        },
{
    let value = record.data.get(rule.field.as_str());
    let prefix = String::from_str("Field ").concat(rule.field.as_str());
    match &rule.rule_type {
        ValidationType::Required => {
            let missing = match value {
                None => true,
                Some(v) => v.is_null(),
            };
            if missing {
                return Err(prefix.concat(" is required"));
            }
        },
        ValidationType::DataType { expected_type } => {
            if let Some(v) = value {
                let actual = v.kind_name();
                if !same_text(actual, expected_type.as_str()) {
                    return Err(
                        prefix.concat(" expected type ").concat(expected_type.as_str()).concat(
                            ", got ",
                        ).concat(actual),
                    );
                }
            }
        },
        ValidationType::Range { min, max } => {
            if let Some(DataValue::Number(n)) = value {
                if *n < *min || *n > *max {
                    return Err(
                        prefix.concat(" value ").concat(signed_text(*n).as_str()).concat(
                            " out of range [",
                        ).concat(signed_text(*min).as_str()).concat(", ").concat(
                            signed_text(*max).as_str(),
                        ).concat("]"),
                    );
                }
            }
        },
        ValidationType::Length { min_length, max_length } => {
            let measured: Option<usize> = match value {
                Some(DataValue::String(s)) => Some(s.as_str().unicode_len()),
                Some(DataValue::Array(items)) => {
                    proof {
                        lemma_array_view(*items);
                    }
                    Some(items.len())
                },
                _ => None,
            };
            if let Some(n) = measured {
                if n < *min_length || n > *max_length {
                    return Err(
                        prefix.concat(" length ").concat(unsigned_text(n as u64).as_str()).concat(
                            " outside [",
                        ).concat(unsigned_text(*min_length as u64).as_str()).concat(", ").concat(
                            unsigned_text(*max_length as u64).as_str(),
                        ).concat("]"),
                    );
                }
            }
        },
        ValidationType::Pattern { regex } => {
            if let Some(DataValue::String(s)) = value {
                let found = matches_pattern(regex.as_str(), s.as_str());
                let matched = match found {
                    Some(b) => b,
                    None => false,
                };
                if !matched {
                    return Err(prefix.concat(" does not match pattern ").concat(regex.as_str()));
                }
            }
        },
        ValidationType::Custom { expression } => {
            let holds = match Condition::parse(expression.as_str()) {
                Some(c) => c.holds(&record.data),
                None => false,
            };
            if !holds {
                return Err(String::from_str("Custom validation failed: ").concat(expression.as_str()));
            }
        },
    }
    Ok(())
}

/// The error recorded for a violation.
pub open spec fn validation_error(
    r: Record,
    rule: ValidationRule,
    message: Seq<char>,
    now: Timestamp,
) -> ErrorModel {
    ErrorModel {
        error_type: "ValidationError"@,
        message,
        record_id: Some(r.id),
        timestamp: now,
        context: seq![("field"@, Json::String(rule.field@))],
    }
}

/// The errors of one record against the rules, in the rules' order.
pub open spec fn record_errors(r: Record, rules: Seq<ValidationRule>, now: Timestamp) -> Seq<ErrorModel>
    decreases rules.len(),
{
    if rules.len() == 0 {
        Seq::empty()
    } else {
        let rest = record_errors(r, rules.drop_last(), now);
        match violation(r.data, rules.last()) {
            Some(message) => rest.push(validation_error(r, rules.last(), message, now)),
            None => rest,
        }
    }
}

/// The errors of all records against the rules: record by record, and for
/// each record rule by rule.
pub open spec fn validation_errors(
    records: Seq<Record>,
    rules: Seq<ValidationRule>,
    now: Timestamp,
) -> Seq<ErrorModel>
    decreases records.len(),
{
    if records.len() == 0 {
        Seq::empty()
    } else {
        validation_errors(records.drop_last(), rules, now) + record_errors(records.last(), rules, now)
    }
}

/// Checks one record against every rule and appends an error for each
/// violation.
pub fn check_record(
    record: &DataRecord,
    rules: &Vec<ValidationRule>,
    now: Timestamp,
    errors: &mut Vec<ProcessingError>,
)
    ensures
        errors_view(final(errors)@) == errors_view(old(errors)@) + record_errors(record@, rules@, now),
{
    let ghost before = errors_view(errors@);
    let mut j: usize = 0;
    assert(errors_view(errors@) =~= before + record_errors(record@, rules@.take(0), now));
    while j < rules.len()
        invariant
            j <= rules.len(),
            errors_view(errors@) == before + record_errors(record@, rules@.take(j as int), now),
        decreases rules.len() - j,
    {
        let ghost done = record_errors(record@, rules@.take(j as int), now);
        assert(rules@.take(j + 1).drop_last() =~= rules@.take(j as int));
        match validate_record(record, &rules[j]) {
            Err(message) => {
                let context = vec![(String::from_str("field"), DataValue::String(rules[j].field.clone()))];
                let error = ProcessingError {
                    error_type: String::from_str("ValidationError"),
                    message,
                    record_id: Some(record.id.clone()),
                    timestamp: now,
                    context,
                };
                assert(error@.context =~= seq![("field"@, Json::String(rules@[j as int].field@))]);
                proof {
                    lemma_errors_view_push(errors@, error);
                }
                errors.push(error);
                assert(errors_view(errors@) =~= before + done.push(
                    validation_error(record@, rules@[j as int], message@, now),
                ));
            },
            Ok(_) => {},
        }
        j += 1;
    }
    assert(rules@.take(rules@.len() as int) =~= rules@);
}

/// Checks every record against every rule. The records are left as they
/// are; the violations come back as errors.
pub fn validate(data: &Vec<DataRecord>, rules: &Vec<ValidationRule>, now: Timestamp) -> (errors: Vec<
    ProcessingError,
>)
    ensures
        errors_view(errors@) == validation_errors(records_view(data@), rules@, now),
{
    let mut errors: Vec<ProcessingError> = Vec::new();
    let mut i: usize = 0;
    assert(errors_view(errors@) =~= validation_errors(records_view(data@).take(0), rules@, now));
    while i < data.len()
        invariant
            i <= data.len(),
            errors_view(errors@) == validation_errors(records_view(data@).take(i as int), rules@, now),
        decreases data.len() - i,
    {
        assert(records_view(data@).take(i + 1).drop_last() =~= records_view(data@).take(i as int));
        check_record(&data[i], rules, now, &mut errors);
        i += 1;
    }
    assert(records_view(data@).take(data@.len() as int) =~= records_view(data@));
    errors
}

} // verus!
