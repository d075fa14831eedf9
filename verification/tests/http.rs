use iot_airquality_ingestor::http::{
    health_response, metrics_response, not_found_response, route_request, sse_frame, stream_event_frame,
    stream_preamble, wants_json, Route,
};
use iot_airquality_ingestor::TelemetryBroadcast;
use std::sync::Arc;

#[test]
fn routes() {
    assert_eq!(route_request("GET /stream HTTP/1.1\r\nHost: x\r\n\r\n"), Route::Stream);
    assert_eq!(route_request("GET /stream?format=json HTTP/1.1\r\n\r\n"), Route::Stream);
    assert_eq!(route_request("GET /internal/stream HTTP/1.1\r\n\r\n"), Route::Stream);
    assert_eq!(route_request("GET /metrics HTTP/1.1\r\n\r\n"), Route::Metrics);
    assert_eq!(route_request("GET / HTTP/1.1\r\n\r\n"), Route::Metrics);
    assert_eq!(route_request("GET /health HTTP/1.1\r\n\r\n"), Route::Health);
    assert_eq!(route_request("GET /healthz HTTP/1.1\r\n\r\n"), Route::Health);
    assert_eq!(route_request("POST /metrics HTTP/1.1\r\n\r\n"), Route::NotFound);
    assert_eq!(route_request("GET /index.html HTTP/1.1\r\n\r\n"), Route::NotFound);
    assert_eq!(route_request("GET /"), Route::NotFound);
    assert_eq!(route_request(""), Route::NotFound);
    assert_eq!(route_request("GET /streams"), Route::Stream);
}

#[test]
fn responses() {
    assert_eq!(
        metrics_response("a 1\n"),
        "HTTP/1.1 200 OK\r\nContent-Type: text/plain; version=0.0.4; charset=utf-8\r\nContent-Length: 4\r\nConnection: close\r\n\r\na 1\n"
    );
    // Content-Length counts UTF-8 bytes, not characters.
    assert!(metrics_response("é").contains("Content-Length: 2\r\n"));
    let body = "{\"status\":\"healthy\",\"service\":\"iot-airquality-ingestor\"}";
    assert_eq!(
        health_response(),
        format!(
            "HTTP/1.1 200 OK\r\nContent-Type: application/json\r\nContent-Length: {}\r\nConnection: close\r\n\r\n{}",
            body.len(),
            body
        )
    );
    assert_eq!(not_found_response(), "HTTP/1.1 404 Not Found\r\nContent-Length: 0\r\nConnection: close\r\n\r\n");
    assert!(stream_preamble().starts_with("HTTP/1.1 200 OK\r\nContent-Type: text/event-stream\r\n"));
    assert!(stream_preamble().ends_with("\r\n\r\n: connected\n\n"));
    assert_eq!(sse_frame("aoW2hgJNCQsS1AGBDzLDIA=="), "data: aoW2hgJNCQsS1AGBDzLDIA==\n\n");
}

#[test]
fn stream_format_follows_the_request() {
    assert!(wants_json("GET /stream?format=json HTTP/1.1\r\n\r\n"));
    assert!(wants_json("GET /internal/stream?x=1&format=json HTTP/1.1\r\n\r\n"));
    assert!(!wants_json("GET /stream HTTP/1.1\r\n\r\n"));
    assert!(!wants_json("GET /stream?format=jso HTTP/1.1\r\n\r\n"));
    assert!(!wants_json("format=jso"));
    assert!(wants_json("format=json"));
    assert!(!wants_json(""));
    let event = TelemetryBroadcast {
        binary_b64: Arc::new("AAECAwQFBgcICQoLDA0ODw==".to_string()),
        json: Arc::new("{\"co2_ppm\":400}".to_string()),
    };
    assert_eq!(stream_event_frame(&event, false), "data: AAECAwQFBgcICQoLDA0ODw==\n\n");
    assert_eq!(stream_event_frame(&event, true), "data: {\"co2_ppm\":400}\n\n");
}
