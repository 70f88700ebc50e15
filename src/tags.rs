use vstd::prelude::*;
use crate::models::{JaegerTag, LogEntry};

verus! {

/// `t` has the given key, type and value.
pub open spec fn tag_is(t: JaegerTag, key: Seq<char>, tag_type: Seq<char>, value: Seq<char>) -> bool {
    &&& t.key@ == key
    &&& t.tag_type@ == tag_type
    &&& t.value@ == value
}

/// The tags of a span built from `e`: severity, then message, then, where `e`
/// carries an error description, a boolean `error` flag and the description.
pub open spec fn tags_for(tags: Seq<JaegerTag>, e: LogEntry) -> bool {
    &&& tags.len() >= 2
    &&& tag_is(tags[0], "severity"@, "string"@, e.severity@)
    &&& tag_is(tags[1], "message"@, "string"@, e.message@)
    &&& match e.err {
        Some(d) => {
            &&& tags.len() == 4
            &&& tag_is(tags[2], "error"@, "bool"@, "true"@)
            &&& tag_is(tags[3], "error.message"@, "string"@, d@)
        },
        None => tags.len() == 2,
    }
}

fn make_tag(key: &str, tag_type: &str, value: &String) -> (t: JaegerTag)
    ensures
        tag_is(t, key@, tag_type@, value@),
{
    JaegerTag { key: String::from_str(key), tag_type: String::from_str(tag_type), value: value.clone() }
}

/// Builds the tags of the span for `log`.
pub fn create_tags(log: &LogEntry) -> (tags: Vec<JaegerTag>)
    ensures
        tags_for(tags@, *log),
{
    let mut tags = Vec::new();
    tags.push(make_tag("severity", "string", &log.severity));
    tags.push(make_tag("message", "string", &log.message));
    match &log.err {
        Some(err) => {
            let flag = String::from_str("true");
            tags.push(make_tag("error", "bool", &flag));
            tags.push(make_tag("error.message", "string", err));
        },
        None => {},
    }
    tags
}

} // verus!
