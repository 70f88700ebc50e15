use vstd::prelude::*;

verus! {

/// One structured log record as produced by log ingestion.
#[derive(Debug)]
pub struct LogEntry {
    pub timestamp: String,
    pub severity: String,
    pub message: String,
    pub request_id: Option<String>,
    pub service_name: Option<String>,
    pub err: Option<String>,
    pub tag: Option<String>,
}

/// All spans reconstructed for one correlation id, with the processes they name.
///
/// `processes` maps a process key to its descriptor; keys are unique and kept
/// in the order of their first use.
#[derive(Debug, Clone)]
pub struct JaegerTrace {
    pub trace_id: String,
    pub spans: Vec<JaegerSpan>,
    pub processes: Vec<(String, JaegerProcess)>,
}

/// One node of a trace's span chain, built from one log entry.
#[derive(Debug, Clone)]
pub struct JaegerSpan {
    pub trace_id: String,
    pub span_id: String,
    pub parent_span_id: Option<String>,
    pub operation_name: String,
    pub start_time: i64,
    pub duration: i64,
    pub tags: Vec<JaegerTag>,
    pub process_id: String,
}

/// A typed key/value annotation of a span.
#[derive(Debug, Clone)]
pub struct JaegerTag {
    pub key: String,
    pub tag_type: String,
    pub value: String,
}

/// Descriptor of the service that emitted a span.
#[derive(Debug, Clone)]
pub struct JaegerProcess {
    pub service_name: String,
    pub tags: Vec<JaegerTag>,
}

/// The document handed to the tracing backend: the list of traces.
#[derive(Debug)]
pub struct JaegerSubmission {
    pub data: Vec<JaegerTrace>,
}

/// The ways a conversion can fail.
#[derive(Debug, Clone)]
pub enum ConvertError {
    /// A correlated entry's timestamp does not follow the fixed layout; holds its raw text.
    MalformedTimestamp(String),
}

} // verus!
