//! Extraction of one usage record from a parsed line of the tool's
//! usage logs. Reading the log files and walking their directories is
//! the surrounding application's work; what makes a line a record is
//! decided here.

use vstd::prelude::*;
use crate::json::{entries_lookup, jv_get, Json, Jv};

verus! {

/// The token counts of one usage record.
#[derive(Debug)]
pub struct UsageData {
    pub input_tokens: Option<u64>,
    pub cache_read_input_tokens: Option<u64>,
    pub output_tokens: Option<u64>,
}

/// Mathematical mirror of `UsageData`.
#[verifier::ext_equal]
pub struct UsageDataV {
    pub input_tokens: Option<u64>,
    pub cache_read_input_tokens: Option<u64>,
    pub output_tokens: Option<u64>,
}

impl View for UsageData {
    type V = UsageDataV;

    open spec fn view(&self) -> UsageDataV {
        UsageDataV {
            input_tokens: self.input_tokens,
            cache_read_input_tokens: self.cache_read_input_tokens,
            output_tokens: self.output_tokens,
        }
    }
}

/// One usage record of the tool's logs.
#[derive(Debug)]
pub struct ProjectUsageRecord {
    pub uuid: String,
    pub timestamp: String,
    pub model: Option<String>,
    pub usage: Option<UsageData>,
}

/// Mathematical mirror of `ProjectUsageRecord`.
#[verifier::ext_equal]
pub struct ProjectUsageRecordV {
    pub uuid: Seq<char>,
    pub timestamp: Seq<char>,
    pub model: Option<Seq<char>>,
    pub usage: Option<UsageDataV>,
}

impl View for ProjectUsageRecord {
    type V = ProjectUsageRecordV;

    open spec fn view(&self) -> ProjectUsageRecordV {
        ProjectUsageRecordV {
            uuid: self.uuid@,
            timestamp: self.timestamp@,
            model: match self.model {
                Some(s) => Some(s@),
                None => None,
            },
            usage: match self.usage {
                Some(u) => Some(u@),
                None => None,
            },
        }
    }
}

/// The string a JSON value holds, if it is a string.
pub open spec fn jv_as_str(v: Option<Jv>) -> Option<Seq<char>> {
    match v {
        Some(Jv::Str(s)) => Some(s),
        _ => None,
    }
}

/// The unsigned count a JSON value holds, if it is a non-negative
/// integer.
pub open spec fn jv_as_u64(v: Option<Jv>) -> Option<u64> {
    match v {
        Some(Jv::UInt(n)) => Some(n),
        Some(Jv::Int(n)) => if n >= 0 {
            Some(n as u64)
        } else {
            None
        },
        _ => None,
    }
}

/// A line's uuid field; an empty string when missing or not a string.
pub open spec fn line_uuid(j: Jv) -> Seq<char> {
    match jv_as_str(jv_get(j, "uuid"@)) {
        Some(s) => s,
        None => Seq::empty(),
    }
}

/// A line's timestamp field; an empty string when missing or not a
/// string.
pub open spec fn line_timestamp(j: Jv) -> Seq<char> {
    match jv_as_str(jv_get(j, "timestamp"@)) {
        Some(s) => s,
        None => Seq::empty(),
    }
}

/// A line's model, read from the top level or from inside its message.
pub open spec fn line_model(j: Jv) -> Option<Seq<char>> {
    match jv_as_str(jv_get(j, "model"@)) {
        Some(m) => Some(m),
        None => match jv_get(j, "message"@) {
            Some(msg) => jv_as_str(jv_get(msg, "model"@)),
            None => None,
        },
    }
}

/// The token counts read from a usage object.
pub open spec fn usage_of_obj(u: Jv) -> UsageDataV {
    UsageDataV {
        input_tokens: jv_as_u64(jv_get(u, "input_tokens"@)),
        cache_read_input_tokens: jv_as_u64(jv_get(u, "cache_read_input_tokens"@)),
        output_tokens: jv_as_u64(jv_get(u, "output_tokens"@)),
    }
}

/// A line's usage object, read from the top level or from inside its
/// message.
pub open spec fn line_usage(j: Jv) -> Option<UsageDataV> {
    match jv_get(j, "usage"@) {
        Some(u) => Some(usage_of_obj(u)),
        None => match jv_get(j, "message"@) {
            Some(msg) => match jv_get(msg, "usage"@) {
                Some(u) => Some(usage_of_obj(u)),
                None => None,
            },
            None => None,
        },
    }
}

/// The record a log line yields: only lines with a uuid, a timestamp,
/// a usage object and at least one input or output token count as
/// records.
pub open spec fn usage_record_of(j: Jv) -> Option<ProjectUsageRecordV> {
    let uuid = line_uuid(j);
    let ts = line_timestamp(j);
    match line_usage(j) {
        Some(u) => {
            let input = match u.input_tokens {
                Some(n) => n,
                None => 0,
            };
            let output = match u.output_tokens {
                Some(n) => n,
                None => 0,
            };
            if uuid.len() > 0 && ts.len() > 0 && (input > 0 || output > 0) {
                Some(
                    ProjectUsageRecordV { uuid, timestamp: ts, model: line_model(j), usage: Some(u) },
                )
            } else {
                None
            }
        },
        None => None,
    }
}

/// A reference to the value bound to `k`, when the value is an object.
fn json_get<'a>(j: &'a Json, k: &String) -> (r: Option<&'a Json>)
    ensures
        match r {
            Some(v) => jv_get(j@, k@) == Some(v@),
            None => jv_get(j@, k@) is None,
        },
{
    match j {
        Json::Obj(es) => entries_lookup(es, k),
        _ => None,
    }
}

/// The string a JSON field holds, copied out, if it is a string.
fn json_get_str(j: &Json, k: &String) -> (r: Option<String>)
    ensures
        match r {
            Some(s) => jv_as_str(jv_get(j@, k@)) == Some(s@),
            None => jv_as_str(jv_get(j@, k@)) is None,
        },
{
    match json_get(j, k) {
        Some(Json::Str(s)) => Some(s.clone()),
        _ => None,
    }
}

/// The unsigned count a JSON field holds, if it is a non-negative
/// integer.
fn json_get_u64(j: &Json, k: &String) -> (r: Option<u64>)
    ensures
        r == jv_as_u64(jv_get(j@, k@)),
{
    match json_get(j, k) {
        Some(Json::UInt(n)) => Some(*n),
        Some(Json::Int(n)) => {
            if *n >= 0 {
                Some(*n as u64)
            } else {
                None
            }
        },
        _ => None,
    }
}

/// The token counts of a usage object.
fn usage_from_obj(u: &Json) -> (r: UsageData)
    ensures
        r@ == usage_of_obj(u@),
{
    UsageData {
        input_tokens: json_get_u64(u, &"input_tokens".to_owned()),
        cache_read_input_tokens: json_get_u64(u, &"cache_read_input_tokens".to_owned()),
        output_tokens: json_get_u64(u, &"output_tokens".to_owned()),
    }
}

/// Extract one usage record from a parsed log line: the line counts only
/// when it carries a uuid, a timestamp, a usage object (at its top level
/// or inside its message) and a positive input or output token count.
pub fn usage_record_from_json(line: &Json) -> (r: Option<ProjectUsageRecord>)
    ensures
        match r {
            Some(rec) => usage_record_of(line@) == Some(rec@),
            None => usage_record_of(line@) is None,
        },
{
    let uuid = match json_get_str(line, &"uuid".to_owned()) {
        Some(s) => s,
        None => String::new(),
    };
    let timestamp = match json_get_str(line, &"timestamp".to_owned()) {
        Some(s) => s,
        None => String::new(),
    };
    let message_k = "message".to_owned();
    let usage_k = "usage".to_owned();
    let usage: Option<UsageData> = match json_get(line, &usage_k) {
        Some(u) => Some(usage_from_obj(u)),
        None => match json_get(line, &message_k) {
            Some(msg) => match json_get(msg, &usage_k) {
                Some(u) => Some(usage_from_obj(u)),
                None => None,
            },
            None => None,
        },
    };
    let u = match usage {
        Some(u) => u,
        None => {
            return None;
        },
    };
    let input: u64 = match u.input_tokens {
        Some(n) => n,
        None => 0,
    };
    let output: u64 = match u.output_tokens {
        Some(n) => n,
        None => 0,
    };
    if !uuid.as_str().is_empty() && !timestamp.as_str().is_empty() && (input > 0 || output > 0) {
        let model: Option<String> = match json_get_str(line, &"model".to_owned()) {
            Some(m) => Some(m),
            None => match json_get(line, &message_k) {
                Some(msg) => json_get_str(msg, &"model".to_owned()),
                None => None,
            },
        };
        Some(ProjectUsageRecord { uuid, timestamp, model, usage: Some(u) })
    } else {
        None
    }
}

} // verus!
