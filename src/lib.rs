pub mod ids;
pub mod jaeger;
pub mod laws;
pub mod models;
pub mod tags;
pub mod timestamp;

pub use jaeger::{convert_to_jaeger, convert_with_times, count_uncorrelated};
pub use ids::{hex16, normalize_trace_id};
pub use tags::create_tags;
pub use timestamp::parse_timestamp;
pub use models::{ConvertError, JaegerProcess, JaegerSpan, JaegerSubmission, JaegerTag, JaegerTrace, LogEntry};
