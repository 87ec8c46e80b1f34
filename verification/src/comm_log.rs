//! Communication log events: which fields an HTTP, WebSocket or tool event
//! carries at each log level, and the masking of sensitive headers.
//!
//! Each `log_*` function builds the event; the caller emits it on the
//! `comm` log target. At level `trace` an event carries its payload, at
//! `debug` less, at any other level only the identifying fields.

use vstd::prelude::*;
use crate::text::is_ascii_text;
use crate::text::ascii_lower;
use crate::text::contains_exec;
use crate::text::contains_seq;
use crate::text::lowercase;
use crate::text::to_lowercase;
use crate::text::str_chars;
use crate::text::str_eq;

verus! {

/// Verbosity of a comm-log event.
#[derive(Debug, Clone, Copy, PartialEq, Eq, Structural)]
pub enum LogLevel {
    Trace,
    Debug,
    Info,
}

/// `trace` and `debug` select those levels; anything else logs at info.
pub open spec fn level_of(level: Seq<char>) -> LogLevel {
    if level == "trace"@ {
        LogLevel::Trace
    } else if level == "debug"@ {
        LogLevel::Debug
    } else {
        LogLevel::Info
    }
}

/// The log level named by `level`.
pub fn comm_level(level: &str) -> (l: LogLevel)
    ensures
        l == level_of(level@),
{
    if str_eq(level, "trace") {
        LogLevel::Trace
    } else if str_eq(level, "debug") {
        LogLevel::Debug
    } else {
        LogLevel::Info
    }
}

/// A header whose value must not be logged: `authorization`, `x-api-key`,
/// or any name containing `token`, compared in lower case.
pub open spec fn sensitive_header(name: Seq<char>) -> bool {
    let lower = lowercase(name);
    lower == "authorization"@ || lower == "x-api-key"@ || contains_seq(lower, "token"@)
}

/// Headers as plain text.
pub open spec fn header_views(h: Seq<(String, String)>) -> Seq<(Seq<char>, Seq<char>)> {
    Seq::new(h.len(), |i: int| (h[i].0@, h[i].1@))
}

/// The headers with every sensitive value replaced by `***`.
pub open spec fn sanitized(h: Seq<(Seq<char>, Seq<char>)>) -> Seq<(Seq<char>, Seq<char>)> {
    Seq::new(
        h.len(),
        |i: int|
            (
                h[i].0,
                if sensitive_header(h[i].0) {
                    "***"@
                } else {
                    h[i].1
                },
            ),
    )
}

/// `sensitive_header` on an ASCII name: the ASCII lower-case name is
/// `authorization` or `x-api-key`, or contains `token`.
pub open spec fn sensitive_ascii(name: Seq<char>) -> bool {
    let lower = name.map_values(|c: char| ascii_lower(c));
    lower == "authorization"@ || lower == "x-api-key"@ || contains_seq(lower, "token"@)
}

fn is_sensitive(name: &str) -> (b: bool)
    ensures
        b == sensitive_header(name@),
        is_ascii_text(name@) ==> b == sensitive_ascii(name@),
{
    let lower = to_lowercase(name);
    let l = str_chars(lower.as_str());
    let token = str_chars("token");
    str_eq(lower.as_str(), "authorization") || str_eq(lower.as_str(), "x-api-key") || contains_exec(&l, &token)
}

/// Sanitize sensitive headers before logging: the same names, in the same
/// order, with the values of sensitive headers replaced by `***`.
pub fn sanitize_headers(headers: &Vec<(String, String)>) -> (r: Vec<(String, String)>)
    ensures
        header_views(r@) == sanitized(header_views(headers@)),
        forall|i: int|
            0 <= i < headers@.len() && is_ascii_text(#[trigger] headers@[i].0@) ==> r@[i].1@ == (if sensitive_ascii(
                headers@[i].0@,
            ) {
                "***"@
            } else {
                headers@[i].1@
            }),
{
    let mut r: Vec<(String, String)> = Vec::new();
    let mut i: usize = 0;
    while i < headers.len()
        invariant
            i <= headers.len(),
            header_views(r@) == sanitized(header_views(headers@)).take(i as int),
            forall|j: int|
                0 <= j < i && is_ascii_text(#[trigger] headers@[j].0@) ==> (sensitive_header(headers@[j].0@)
                    == sensitive_ascii(headers@[j].0@)),
        decreases headers.len() - i,
    {
        let (k, v) = (&headers[i].0, &headers[i].1);
        let sens = is_sensitive(k.as_str());
        let value = if sens {
            String::from_str("***")
        } else {
            v.clone()
        };
        let ghost before = header_views(r@);
        let key = k.clone();
        let ghost pair = (key@, value@);
        r.push((key, value));
        assert(header_views(r@) =~= before.push(pair));
        assert(sanitized(header_views(headers@)).take(i + 1) =~= sanitized(header_views(headers@)).take(i as int).push(pair));
        i = i + 1;
    }
    assert(sanitized(header_views(headers@)).take(i as int) =~= sanitized(header_views(headers@)));
    assert forall|j: int|
        0 <= j < headers@.len() && is_ascii_text(#[trigger] headers@[j].0@) implies r@[j].1@ == (if sensitive_ascii(
            headers@[j].0@,
        ) {
            "***"@
        } else {
            headers@[j].1@
        }) by {
        assert(header_views(r@)[j] == sanitized(header_views(headers@))[j]);
    }
    r
}

/// Text kept only at the given levels.
fn kept_at(keep: bool, text: &str) -> (r: Option<String>)
    ensures
        keep ==> r is Some && r.unwrap()@ == text@,
        !keep ==> r is None,
{
    if keep {
        Some(String::from_str(text))
    } else {
        None
    }
}

/// An HTTP request event (`HTTP REQ`).
#[derive(Debug)]
pub struct HttpRequestEvent {
    pub level: LogLevel,
    pub trace_id: String,
    pub method: String,
    pub url: String,
    /// Sanitized headers, at trace and debug level.
    pub headers: Option<Vec<(String, String)>>,
    /// The request body (JSON text), at trace level.
    pub body: Option<String>,
}

/// The event logging an HTTP request.
pub fn log_http_request(
    trace_id: &str,
    method: &str,
    url: &str,
    headers: &Vec<(String, String)>,
    body: &str,
    level: &str,
) -> (e: HttpRequestEvent)
    ensures
        e.level == level_of(level@),
        e.trace_id@ == trace_id@,
        e.method@ == method@,
        e.url@ == url@,
        match e.headers {
            Some(h) => e.level != LogLevel::Info && header_views(h@) == sanitized(header_views(headers@)),
            None => e.level == LogLevel::Info,
        },
        match e.body {
            Some(b) => e.level == LogLevel::Trace && b@ == body@,
            None => e.level != LogLevel::Trace,
        },
{
    let l = comm_level(level);
    let h = if l != LogLevel::Info {
        Some(sanitize_headers(headers))
    } else {
        None
    };
    HttpRequestEvent {
        level: l,
        trace_id: String::from_str(trace_id),
        method: String::from_str(method),
        url: String::from_str(url),
        headers: h,
        body: kept_at(l == LogLevel::Trace, body),
    }
}

/// An HTTP response event (`HTTP RESP`).
#[derive(Debug)]
pub struct HttpResponseEvent {
    pub level: LogLevel,
    pub trace_id: String,
    pub status: u16,
    pub duration_ms: u64,
    /// The body summary, at trace level.
    pub body: Option<String>,
}

/// The event logging an HTTP response.
pub fn log_http_response(trace_id: &str, status: u16, body_summary: &str, duration_ms: u64, level: &str) -> (e: HttpResponseEvent)
    ensures
        e.level == level_of(level@),
        e.trace_id@ == trace_id@,
        e.status == status,
        e.duration_ms == duration_ms,
        match e.body {
            Some(b) => e.level == LogLevel::Trace && b@ == body_summary@,
            None => e.level != LogLevel::Trace,
        },
{
    let l = comm_level(level);
    HttpResponseEvent {
        level: l,
        trace_id: String::from_str(trace_id),
        status,
        duration_ms,
        body: kept_at(l == LogLevel::Trace, body_summary),
    }
}

/// Direction of a WebSocket message.
#[derive(Debug, Clone, Copy, PartialEq, Eq, Structural)]
pub enum WsDirection {
    /// `WS IN`
    Inbound,
    /// `WS OUT`
    Outbound,
}

/// A WebSocket message event.
#[derive(Debug)]
pub struct WsEvent {
    pub direction: WsDirection,
    pub level: LogLevel,
    pub trace_id: String,
    pub client_id: String,
    pub msg_type: String,
    /// The payload, at trace level.
    pub payload: Option<String>,
}

fn ws_event(direction: WsDirection, trace_id: &str, client_id: &str, msg_type: &str, payload: &str, level: &str) -> (e: WsEvent)
    ensures
        e.direction == direction,
        e.level == level_of(level@),
        e.trace_id@ == trace_id@,
        e.client_id@ == client_id@,
        e.msg_type@ == msg_type@,
        match e.payload {
            Some(p) => e.level == LogLevel::Trace && p@ == payload@,
            None => e.level != LogLevel::Trace,
        },
{
    let l = comm_level(level);
    WsEvent {
        direction,
        level: l,
        trace_id: String::from_str(trace_id),
        client_id: String::from_str(client_id),
        msg_type: String::from_str(msg_type),
        payload: kept_at(l == LogLevel::Trace, payload),
    }
}

/// The event logging an inbound WebSocket message.
pub fn log_ws_inbound(trace_id: &str, client_id: &str, msg_type: &str, payload: &str, level: &str) -> (e: WsEvent)
    ensures
        e.direction == WsDirection::Inbound,
        e.level == level_of(level@),
        e.trace_id@ == trace_id@,
        e.client_id@ == client_id@,
        e.msg_type@ == msg_type@,
        match e.payload {
            Some(p) => e.level == LogLevel::Trace && p@ == payload@,
            None => e.level != LogLevel::Trace,
        },
{
    ws_event(WsDirection::Inbound, trace_id, client_id, msg_type, payload, level)
}

/// The event logging an outbound WebSocket message.
pub fn log_ws_outbound(trace_id: &str, client_id: &str, msg_type: &str, payload: &str, level: &str) -> (e: WsEvent)
    ensures
        e.direction == WsDirection::Outbound,
        e.level == level_of(level@),
        e.trace_id@ == trace_id@,
        e.client_id@ == client_id@,
        e.msg_type@ == msg_type@,
        match e.payload {
            Some(p) => e.level == LogLevel::Trace && p@ == payload@,
            None => e.level != LogLevel::Trace,
        },
{
    ws_event(WsDirection::Outbound, trace_id, client_id, msg_type, payload, level)
}

/// A tool-call start event (`TOOL START`).
#[derive(Debug)]
pub struct ToolCallEvent {
    pub level: LogLevel,
    pub trace_id: String,
    pub tool: String,
    /// The parameters (JSON text), at trace and debug level.
    pub params: Option<String>,
}

/// The event logging the start of a tool call.
pub fn log_tool_call(trace_id: &str, tool_name: &str, params: &str, level: &str) -> (e: ToolCallEvent)
    ensures
        e.level == level_of(level@),
        e.trace_id@ == trace_id@,
        e.tool@ == tool_name@,
        match e.params {
            Some(p) => e.level != LogLevel::Info && p@ == params@,
            None => e.level == LogLevel::Info,
        },
{
    let l = comm_level(level);
    ToolCallEvent {
        level: l,
        trace_id: String::from_str(trace_id),
        tool: String::from_str(tool_name),
        params: kept_at(l != LogLevel::Info, params),
    }
}

/// A tool-call result event (`TOOL END`).
#[derive(Debug)]
pub struct ToolResultEvent {
    pub level: LogLevel,
    pub trace_id: String,
    pub tool: String,
    pub duration_ms: u64,
    pub success: bool,
    /// The result summary, at trace level.
    pub result: Option<String>,
}

/// The event logging the result of a tool call.
pub fn log_tool_result(
    trace_id: &str,
    tool_name: &str,
    result_summary: &str,
    duration_ms: u64,
    success: bool,
    level: &str,
) -> (e: ToolResultEvent)
    ensures
        e.level == level_of(level@),
        e.trace_id@ == trace_id@,
        e.tool@ == tool_name@,
        e.duration_ms == duration_ms,
        e.success == success,
        match e.result {
            Some(r) => e.level == LogLevel::Trace && r@ == result_summary@,
            None => e.level != LogLevel::Trace,
        },
{
    let l = comm_level(level);
    ToolResultEvent {
        level: l,
        trace_id: String::from_str(trace_id),
        tool: String::from_str(tool_name),
        duration_ms,
        success,
        result: kept_at(l == LogLevel::Trace, result_summary),
    }
}

/// Sanitizing is idempotent: sanitizing sanitized headers changes nothing.
pub proof fn law_sanitize_idempotent(h: Seq<(Seq<char>, Seq<char>)>)
    ensures
        sanitized(sanitized(h)) == sanitized(h),
{
    assert(sanitized(sanitized(h)) =~= sanitized(h));
}

/// Sanitizing keeps every header name, in order, and masks exactly the
/// sensitive ones.
pub proof fn law_sanitize_masks_only_sensitive(h: Seq<(Seq<char>, Seq<char>)>, i: int)
    requires
        0 <= i < h.len(),
    ensures
        sanitized(h).len() == h.len(),
        sanitized(h)[i].0 == h[i].0,
        sanitized(h)[i].1 == h[i].1 || sensitive_header(h[i].0),
        sensitive_header(h[i].0) ==> sanitized(h)[i].1 == "***"@,
{
}

} // verus!
