//! The lines that the Codex app server writes.
use vstd::prelude::*;
use vstd::string::StringSliceAdditionalSpecFns;
use crate::json::{
    json_has_at, json_has_field, json_has_member, json_has_pointer, json_parse_error, json_parses,
    json_str_at, json_str_pointer, json_string_member, json_u64_field, json_u64_member, str_member,
};
use crate::text::{chars_of, is_literal};

verus! {

/// What a line of the app server is to the client.
#[derive(Debug, PartialEq, Eq, Structural, Clone, Copy)]
pub enum ServerLine {
    /// A notification that the rate limits changed.
    RateLimitsUpdated,
    /// A reply to a request (it has an `id`).
    Reply,
    /// Anything else, including text that is not JSON.
    Ignored,
}

/// What the JSON text `bytes` is to the client: a rate-limit notification (method
/// `account/rateLimits/updated`), else a reply when it has an `id`, else nothing.
pub open spec fn spec_classify(bytes: Seq<u8>) -> ServerLine {
    if !json_parses(bytes) {
        ServerLine::Ignored
    } else if str_member(bytes, "method"@) == Some("account/rateLimits/updated"@) {
        ServerLine::RateLimitsUpdated
    } else if json_has_field(bytes, "id"@) {
        ServerLine::Reply
    } else {
        ServerLine::Ignored
    }
}

/// What a line of the app server is to the client.
pub fn classify_server_line(line: &str) -> (k: ServerLine)
    ensures
        k == spec_classify(line.spec_bytes()),
{
    let bytes = line.as_bytes();
    match json_string_member(bytes, "method") {
        Some(method) => {
            let c = chars_of(method.as_str());
            if is_literal(c.as_slice(), "account/rateLimits/updated") {
                return ServerLine::RateLimitsUpdated;
            }
        },
        None => {},
    }
    if json_has_member(bytes, "id") {
        ServerLine::Reply
    } else {
        ServerLine::Ignored
    }
}

/// What a reply line is to the request with id `id` that waits for it.
#[derive(Debug, PartialEq, Eq, Clone)]
pub enum ReplyVerdict {
    /// A reply to another request: keep waiting.
    OtherRequest,
    /// The request failed, with this message.
    Failed(String),
    /// The answer to the request.
    Answer,
}

/// The message when a reply is not JSON.
pub open spec fn unparsable_message() -> Seq<char> {
    "Codex 返回了无法解析的数据"@
}

/// The message of a failed reply: its `error.message` when that is a string.
pub open spec fn failure_message(bytes: Seq<u8>) -> Seq<char> {
    match json_str_at(bytes, "/error/message"@) {
        Some(m) => m,
        None => "Codex 查询失败"@,
    }
}

/// The reply `bytes` belongs to the request with id `id`.
pub open spec fn answers(bytes: Seq<u8>, id: u64) -> bool {
    json_parses(bytes) && json_u64_field(bytes, "id"@) == Some(id)
}

/// What the reply line `line` is to the request with id `id`: text that is not JSON fails
/// the wait; a reply whose `id` is another is passed over; ours fails when it has an `error`
/// member and is the answer otherwise.
pub fn reply_verdict(line: &[u8], id: u64) -> (r: ReplyVerdict)
    ensures
        match r {
            ReplyVerdict::OtherRequest => json_parses(line@) && !answers(line@, id),
            ReplyVerdict::Failed(m) => if json_parses(line@) {
                answers(line@, id) && json_has_field(line@, "error"@) && m@ == failure_message(line@)
            } else {
                m@ == unparsable_message()
            },
            ReplyVerdict::Answer => answers(line@, id) && !json_has_field(line@, "error"@),
        },
{
    if json_parse_error(line).is_some() {
        return ReplyVerdict::Failed(String::from_str("Codex 返回了无法解析的数据"));
    }
    if json_u64_member(line, "id") != Some(id) {
        return ReplyVerdict::OtherRequest;
    }
    if json_has_member(line, "error") {
        match json_str_pointer(line, "/error/message") {
            Some(m) => ReplyVerdict::Failed(m),
            None => ReplyVerdict::Failed(String::from_str("Codex 查询失败")),
        }
    } else {
        ReplyVerdict::Answer
    }
}

/// The JSON pointer of the shared rate-limit bucket in a limits reply `bytes`, or the
/// message of why there is none: the reply needs a `result`, whose
/// `rateLimitsByLimitId.codex` is taken first and its `rateLimits` otherwise.
pub open spec fn spec_limits_bucket(bytes: Seq<u8>) -> Result<Seq<char>, Seq<char>> {
    if !(json_parses(bytes) && json_has_field(bytes, "result"@)) {
        Err("Codex 响应缺少结果"@)
    } else if json_has_at(bytes, "/result/rateLimitsByLimitId/codex"@) {
        Ok("/result/rateLimitsByLimitId/codex"@)
    } else if json_has_at(bytes, "/result/rateLimits"@) {
        Ok("/result/rateLimits"@)
    } else {
        Err("Codex 未返回通用限额"@)
    }
}

/// Where a limits reply keeps the shared rate-limit bucket.
pub fn limits_bucket(response: &[u8]) -> (r: Result<String, String>)
    ensures
        match r {
            Ok(p) => spec_limits_bucket(response@) == Ok::<Seq<char>, Seq<char>>(p@),
            Err(m) => spec_limits_bucket(response@) == Err::<Seq<char>, Seq<char>>(m@),
        },
{
    if !json_has_member(response, "result") {
        return Err(String::from_str("Codex 响应缺少结果"));
    }
    if json_has_pointer(response, "/result/rateLimitsByLimitId/codex") {
        Ok(String::from_str("/result/rateLimitsByLimitId/codex"))
    } else if json_has_pointer(response, "/result/rateLimits") {
        Ok(String::from_str("/result/rateLimits"))
    } else {
        Err(String::from_str("Codex 未返回通用限额"))
    }
}

} // verus!
