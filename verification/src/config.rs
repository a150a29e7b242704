//! What a job is asked to do: the pipeline and its tuning knobs.

use vstd::prelude::*;
use crate::value::DataValue;

verus! {

/// One step of a pipeline. A description, not an executable object: the
/// engine interprets the tag.
#[derive(Debug, PartialEq)]
pub enum Operation {
    /// Replace the value of `field` by what `expression` evaluates to.
    Transform { field: String, expression: String },
    /// Keep the records for which `condition` holds.
    Filter { condition: String },
    /// One record per distinct value of the `group_by` fields.
    Aggregate { group_by: Vec<String>, functions: Vec<AggregateFunction> },
    /// Merge in the first record of `source` whose `on` field matches.
    Join { source: String, on: String },
    /// Stable sort by `fields`; one direction for the whole key.
    Sort { fields: Vec<String>, ascending: bool },
    /// Keep the first record of each distinct value of `fields`.
    Deduplicate { fields: Vec<String> },
    /// Check every record against every rule; no record is dropped.
    Validate { rules: Vec<ValidationRule> },
}

/// What an aggregation computes for each group.
#[derive(Debug, PartialEq)]
pub enum AggregateFunction {
    Count,
    Sum { field: String },
    Average { field: String },
    Min { field: String },
    Max { field: String },
    Custom { name: String, expression: String },
}

/// A rule that a field of a record must meet.
#[derive(Debug, PartialEq)]
pub struct ValidationRule {
    pub field: String,
    pub rule_type: ValidationType,
    pub parameters: Vec<(String, DataValue)>,
}

/// The kinds of validation rule.
#[derive(Debug, PartialEq)]
pub enum ValidationType {
    /// The field is there and not null.
    Required,
    /// The field, where it is there, is of the kind called `expected_type`.
    DataType { expected_type: String },
    /// The field, where it is an integer, lies in `min..=max`.
    Range { min: i64, max: i64 },
    /// The field, where it is a string or an array, has between
    /// `min_length` and `max_length` characters or items.
    Length { min_length: usize, max_length: usize },
    /// The field, where it is a string, matches the regular expression.
    Pattern { regex: String },
    /// The condition holds of the record.
    Custom { expression: String },
}

/// Where the final record set of a job goes.
#[derive(Debug, PartialEq)]
pub enum OutputFormat {
    Json,
    Csv,
    Parquet,
    Database { connection_string: String, table: String },
    Api { endpoint: String, headers: Vec<(String, String)> },
}

/// The definition of a job: its pipeline, the knobs of the execution
/// engine, and the destination of its output.
#[derive(Debug, PartialEq)]
pub struct ProcessingConfig {
    pub operations: Vec<Operation>,
    pub batch_size: usize,
    pub parallel_workers: usize,
    /// Upper bound on a job's running time, in seconds; zero sets none.
    pub timeout_seconds: u64,
    /// How often a failed job is run again from its first operation.
    pub retry_attempts: u32,
    pub output_format: OutputFormat,
}

/// The character sequences of a list of names.
pub open spec fn names_view(names: Seq<String>) -> Seq<Seq<char>> {
    Seq::new(names.len(), |i: int| names[i]@)
}

impl Operation {
    /// The name of the operation's kind.
    pub open spec fn label_spec(self) -> Seq<char> {
        match self {
            Operation::Transform { .. } => "Transform"@,
            Operation::Filter { .. } => "Filter"@,
            Operation::Aggregate { .. } => "Aggregate"@,
            Operation::Join { .. } => "Join"@,
            Operation::Sort { .. } => "Sort"@,
            Operation::Deduplicate { .. } => "Deduplicate"@,
            Operation::Validate { .. } => "Validate"@,
        }
    }

    /// The name of the operation's kind, which labels its result.
    pub fn label(&self) -> (r: &'static str)
        ensures
            r@ == self.label_spec(),
    {
        match self {
            Operation::Transform { .. } => "Transform",
            Operation::Filter { .. } => "Filter",
            Operation::Aggregate { .. } => "Aggregate",
            Operation::Join { .. } => "Join",
            Operation::Sort { .. } => "Sort",
            Operation::Deduplicate { .. } => "Deduplicate",
            Operation::Validate { .. } => "Validate",
        }
    }
}

} // verus!
