//! The failures that the service reports.

use vstd::prelude::*;
use vstd::string::StringExecFns;
use crate::text::{decimal, unsigned_text};

verus! {

/// What was looked for and not found.
#[derive(Clone, Copy, Debug, PartialEq, Eq, Structural)]
pub enum Missing {
    /// A job of the registry.
    Job,
    /// A set of the record store.
    Source,
    /// A file to ingest.
    File,
}

/// Why a call or a job failed.
#[derive(Debug, PartialEq)]
pub enum ProcessorError {
    /// No job, set or file goes by the given name.
    NotFound(Missing),
    /// The job is in a state that does not allow the transition.
    InvalidState,
    /// Ingested input is malformed; the text says how.
    ParseError(String),
    /// A remote collaborator answered with a status that is no success.
    RemoteError { status: u16 },
    /// The job has nothing to process.
    NoInputData,
    /// Writing or sending the output failed; the text says how.
    SinkError(String),
    /// The job ran longer than its configuration allows.
    Timeout,
    /// An internal queue failed or an identifier was drawn twice.
    Fatal(String),
}

impl ProcessorError {
    /// The name of the error's kind.
    pub open spec fn kind_spec(self) -> Seq<char> {
        match self {
            ProcessorError::NotFound(_) => "NotFound"@,
            ProcessorError::InvalidState => "InvalidState"@,
            ProcessorError::ParseError(_) => "ParseError"@,
            ProcessorError::RemoteError { .. } => "RemoteError"@,
            ProcessorError::NoInputData => "NoInputData"@,
            ProcessorError::SinkError(_) => "SinkError"@,
            ProcessorError::Timeout => "Timeout"@,
            ProcessorError::Fatal(_) => "Fatal"@,
        }
    }

    /// The name of the error's kind.
    pub fn kind(&self) -> (r: &'static str)
        ensures
            r@ == self.kind_spec(),
    {
        match self {
            ProcessorError::NotFound(_) => "NotFound",
            ProcessorError::InvalidState => "InvalidState",
            ProcessorError::ParseError(_) => "ParseError",
            ProcessorError::RemoteError { .. } => "RemoteError",
            ProcessorError::NoInputData => "NoInputData",
            ProcessorError::SinkError(_) => "SinkError",
            ProcessorError::Timeout => "Timeout",
            ProcessorError::Fatal(_) => "Fatal",
        }
    }

    /// Whether only this failure should stop the whole service.
    pub fn is_fatal(&self) -> (r: bool)
        ensures
            r == (*self is Fatal),
    {
        match self {
            ProcessorError::Fatal(_) => true,
            _ => false,
        }
    }

    /// What the error says to a user.
    pub open spec fn message_spec(self) -> Seq<char> {
        match self {
            ProcessorError::NotFound(Missing::Job) => "Job not found"@,
            ProcessorError::NotFound(Missing::Source) => "Source not found"@,
            ProcessorError::NotFound(Missing::File) => "File not found"@,
            ProcessorError::InvalidState => "Job cannot be cancelled in current status"@,
            ProcessorError::ParseError(text) => text@,
            ProcessorError::RemoteError { status } => "API request failed: "@ + decimal(status as int),
            ProcessorError::NoInputData => "No input data available"@,
            ProcessorError::SinkError(text) => text@,
            ProcessorError::Timeout => "Job timed out"@,
            ProcessorError::Fatal(text) => text@,
        }
    }

    /// What the error says to a user.
    pub fn message(&self) -> (r: String)
        ensures
            r@ == self.message_spec(),
    {
        match self {
            ProcessorError::NotFound(Missing::Job) => String::from_str("Job not found"),
            ProcessorError::NotFound(Missing::Source) => String::from_str("Source not found"),
            ProcessorError::NotFound(Missing::File) => String::from_str("File not found"),
            ProcessorError::InvalidState => String::from_str("Job cannot be cancelled in current status"),
            ProcessorError::ParseError(text) => text.clone(),
            ProcessorError::RemoteError { status } => String::from_str("API request failed: ").concat(
                unsigned_text(*status as u64).as_str(),
            ),
            ProcessorError::NoInputData => String::from_str("No input data available"),
            ProcessorError::SinkError(text) => text.clone(),
            ProcessorError::Timeout => String::from_str("Job timed out"),
            ProcessorError::Fatal(text) => text.clone(),
        }
    }
}

} // verus!
