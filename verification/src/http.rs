//! The HTTP/1.1 surface of the telemetry server: which endpoint a request
//! asks for, and the exact bytes of each response and stream event.

use vstd::prelude::*;
use vstd::utf8::encode_utf8;
use crate::metrics::TelemetryBroadcast;
use crate::text::{contains_text, decimal, occurs_in_at, push_decimal};

verus! {

/// Whether `s` starts with `p`.
pub open spec fn has_prefix(s: Seq<char>, p: Seq<char>) -> bool {
    p.len() <= s.len() && s.subrange(0, p.len() as int) == p
}

/// The endpoints of the telemetry server.
#[derive(Debug, Clone, Copy, PartialEq, Eq, Structural)]
pub enum Route {
    /// The live Server-Sent Events stream of telemetry samples.
    Stream,
    /// The Prometheus exposition.
    Metrics,
    /// The health probe.
    Health,
    /// Anything else.
    NotFound,
}

/// The endpoint a request asks for, judged by the start of its text:
/// `GET /stream` or `GET /internal/stream`, `GET /metrics` or `GET / `,
/// then `GET /health`.
pub open spec fn route_of(request: Seq<char>) -> Route {
    if has_prefix(request, "GET /stream"@) || has_prefix(request, "GET /internal/stream"@) {
        Route::Stream
    } else if has_prefix(request, "GET /metrics"@) || has_prefix(request, "GET / "@) {
        Route::Metrics
    } else if has_prefix(request, "GET /health"@) {
        Route::Health
    } else {
        Route::NotFound
    }
}

/// The characters of a string.
fn chars_of(s: &str) -> (v: Vec<char>)
    ensures
        v@ == s@,
{
    let n = s.unicode_len();
    let mut v: Vec<char> = Vec::new();
    let mut i: usize = 0;
    while i < n
        invariant
            n == s@.len(),
            i <= n,
            v@ == s@.subrange(0, i as int),
        decreases n - i,
    {
        v.push(s.get_char(i));
        i = i + 1;
        assert(v@ =~= s@.subrange(0, i as int));
    }
    assert(s@.subrange(0, n as int) =~= s@);
    v
}

/// Whether `t` occurs in `s` at position `at`.
fn occurs_at(s: &Vec<char>, at: usize, t: &Vec<char>) -> (found: bool)
    ensures
        found == (at + t@.len() <= s@.len() && s@.subrange(at as int, at + t@.len()) == t@),
{
    let n = t.len();
    if at > s.len() || s.len() - at < n {
        return false;
    }
    let len = s.len();
    let mut i: usize = 0;
    while i < n
        invariant
            n == t@.len(),
            len == s@.len(),
            at + n <= len,
            i <= n,
            forall|k: int| 0 <= k < i ==> s@[at + k] == t@[k],
        decreases n - i,
    {
        if s[at + i] != t[i] {
            assert(s@.subrange(at as int, at + n)[i as int] != t@[i as int]);
            return false;
        }
        i = i + 1;
    }
    assert(s@.subrange(at as int, at + n) =~= t@);
    true
}

fn starts_with(s: &Vec<char>, p: &str) -> (yes: bool)
    ensures
        yes == has_prefix(s@, p@),
{
    let pv = chars_of(p);
    occurs_at(s, 0, &pv)
}

/// Decides which endpoint a request asks for.
pub fn route_request(request: &str) -> (route: Route)
    ensures
        route == route_of(request@),
{
    let req = chars_of(request);
    if starts_with(&req, "GET /stream") || starts_with(&req, "GET /internal/stream") {
        Route::Stream
    } else if starts_with(&req, "GET /metrics") || starts_with(&req, "GET / ") {
        Route::Metrics
    } else if starts_with(&req, "GET /health") {
        Route::Health
    } else {
        Route::NotFound
    }
}

/// A `200 OK` response closing the connection, whose `Content-Length` is
/// the UTF-8 size of the body in bytes.
pub open spec fn ok_response(content_type: Seq<char>, body: Seq<char>) -> Seq<char> {
    "HTTP/1.1 200 OK\r\nContent-Type: "@ + content_type + "\r\nContent-Length: "@
        + decimal(encode_utf8(body).len()) + "\r\nConnection: close\r\n\r\n"@ + body
}

fn build_ok_response(content_type: &str, body: &str) -> (response: String)
    ensures
        response@ == ok_response(content_type@, body@),
{
    let mut out = String::from_str("HTTP/1.1 200 OK\r\nContent-Type: ");
    out.append(content_type);
    out.append("\r\nContent-Length: ");
    let size = body.as_bytes().len();
    push_decimal(&mut out, size as u64);
    out.append("\r\nConnection: close\r\n\r\n");
    out.append(body);
    assert(out@ =~= ok_response(content_type@, body@));
    out
}

/// The response carrying the Prometheus exposition.
pub fn metrics_response(body: &str) -> (response: String)
    ensures
        response@ == ok_response("text/plain; version=0.0.4; charset=utf-8"@, body@),
{
    build_ok_response("text/plain; version=0.0.4; charset=utf-8", body)
}

/// The body of the health probe.
pub open spec fn health_body() -> Seq<char> {
    "{\"status\":\"healthy\",\"service\":\"iot-airquality-ingestor\"}"@
}

/// The response of the health probe.
pub fn health_response() -> (response: String)
    ensures
        response@ == ok_response("application/json"@, health_body()),
{
    build_ok_response("application/json", "{\"status\":\"healthy\",\"service\":\"iot-airquality-ingestor\"}")
}

/// The response to an unknown endpoint.
pub fn not_found_response() -> (response: String)
    ensures
        response@ == "HTTP/1.1 404 Not Found\r\nContent-Length: 0\r\nConnection: close\r\n\r\n"@,
{
    String::from_str("HTTP/1.1 404 Not Found\r\nContent-Length: 0\r\nConnection: close\r\n\r\n")
}

/// The headers opening the event stream, followed by a `connected` comment.
pub fn stream_preamble() -> (preamble: String)
    ensures
        preamble@ == "HTTP/1.1 200 OK\r\nContent-Type: text/event-stream\r\nCache-Control: no-cache\r\nConnection: keep-alive\r\nAccess-Control-Allow-Origin: *\r\n\r\n: connected\n\n"@,
{
    String::from_str(
        "HTTP/1.1 200 OK\r\nContent-Type: text/event-stream\r\nCache-Control: no-cache\r\nConnection: keep-alive\r\nAccess-Control-Allow-Origin: *\r\n\r\n: connected\n\n",
    )
}

/// One Server-Sent Events message carrying `payload`.
pub open spec fn sse_event(payload: Seq<char>) -> Seq<char> {
    "data: "@ + payload + "\n\n"@
}

/// Frames a payload as one Server-Sent Events message.
pub fn sse_frame(payload: &str) -> (frame: String)
    ensures
        frame@ == sse_event(payload@),
{
    let mut out = String::from_str("data: ");
    out.append(payload);
    out.append("\n\n");
    assert(out@ =~= sse_event(payload@));
    out
}


/// Whether a stream request asks for the JSON form of the samples: its
/// text holds `format=json`. Otherwise the stream carries the Base64
/// binary frames.
pub fn wants_json(request: &str) -> (json: bool)
    ensures
        json == contains_text(request@, "format=json"@),
{
    let req = chars_of(request);
    let pat = chars_of("format=json");
    let n = req.len();
    let m = pat.len();
    proof {
        reveal_strlit("format=json");
    }
    if m > n {
        assert(!contains_text(request@, "format=json"@)) by {
            assert forall|i: int| !occurs_in_at(request@, i, "format=json"@) by {}
        }
        return false;
    }
    let mut i: usize = 0;
    while i <= n - m
        invariant
            n == req@.len(),
            m == pat@.len(),
            req@ == request@,
            pat@ == "format=json"@,
            1 <= m <= n,
            i <= n - m + 1,
            forall|j: int| 0 <= j < i ==> !occurs_in_at(request@, j, "format=json"@),
        decreases n - m + 1 - i,
    {
        if occurs_at(&req, i, &pat) {
            assert(occurs_in_at(request@, i as int, "format=json"@));
            return true;
        }
        i = i + 1;
    }
    assert(!contains_text(request@, "format=json"@)) by {
        assert forall|j: int| !occurs_in_at(request@, j, "format=json"@) by {
            if 0 <= j < i {
            }
        }
    }
    false
}

/// The message streamed for one sample: its JSON form when the subscriber
/// asked for it, otherwise its Base64 binary frame.
pub fn stream_event_frame(event: &TelemetryBroadcast, json: bool) -> (frame: String)
    ensures
        frame@ == sse_event(if json { event.json@ } else { event.binary_b64@ }),
{
    if json {
        sse_frame(event.json.as_str())
    } else {
        sse_frame(event.binary_b64.as_str())
    }
}

} // verus!
