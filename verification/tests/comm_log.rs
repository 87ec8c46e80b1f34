use kestrel::comm_log::{comm_level, log_http_response, sanitize_headers, LogLevel};

fn get<'a>(h: &'a [(String, String)], k: &str) -> Option<&'a str> {
    h.iter().find(|(n, _)| n == k).map(|(_, v)| v.as_str())
}

#[test]
fn test_sanitize_headers_masks_authorization() {
    let headers = vec![
        ("Authorization".to_string(), "Bearer secret".to_string()),
        ("Content-Type".to_string(), "application/json".to_string()),
    ];
    let sanitized = sanitize_headers(&headers);
    assert_eq!(get(&sanitized, "Authorization").unwrap(), "***");
    assert_eq!(get(&sanitized, "Content-Type").unwrap(), "application/json");
}

#[test]
fn test_sanitize_headers_masks_x_api_key() {
    let headers = vec![("x-api-key".to_string(), "sk-123".to_string())];
    let sanitized = sanitize_headers(&headers);
    assert_eq!(get(&sanitized, "x-api-key").unwrap(), "***");
}

#[test]
fn test_sanitize_headers_masks_token_fields() {
    let headers = vec![("X-Auth-Token".to_string(), "abc".to_string())];
    let sanitized = sanitize_headers(&headers);
    assert_eq!(get(&sanitized, "X-Auth-Token").unwrap(), "***");
}

#[test]
fn test_sanitize_headers_preserves_safe_headers() {
    let headers = vec![("Accept".to_string(), "application/json".to_string())];
    let sanitized = sanitize_headers(&headers);
    assert_eq!(get(&sanitized, "Accept").unwrap(), "application/json");
}

#[test]
fn sanitize_headers_is_case_insensitive_and_keeps_order() {
    let headers = vec![
        ("X-API-KEY".to_string(), "k".to_string()),
        ("accept".to_string(), "*/*".to_string()),
        ("AUTHORIZATION".to_string(), "b".to_string()),
    ];
    let s = sanitize_headers(&headers);
    assert_eq!(s.len(), 3);
    assert_eq!(s[0], ("X-API-KEY".to_string(), "***".to_string()));
    assert_eq!(s[1], ("accept".to_string(), "*/*".to_string()));
    assert_eq!(s[2], ("AUTHORIZATION".to_string(), "***".to_string()));
}

#[test]
fn comm_level_parses_names() {
    assert_eq!(comm_level("trace"), LogLevel::Trace);
    assert_eq!(comm_level("debug"), LogLevel::Debug);
    assert_eq!(comm_level("verbose"), LogLevel::Info);
}

#[test]
fn http_response_event_keeps_fields() {
    let e = log_http_response("t-1", 200, "ok", 12, "debug");
    assert_eq!(e.status, 200);
    assert_eq!(e.duration_ms, 12);
    assert!(e.body.is_none());
    let t = log_http_response("t-1", 500, "boom", 3, "trace");
    assert_eq!(t.body.as_deref(), Some("boom"));
}

#[test]
fn sanitize_twice_is_sanitize_once() {
    let headers = vec![
        ("Authorization".to_string(), "Bearer x".to_string()),
        ("Accept".to_string(), "text/plain".to_string()),
    ];
    let once = sanitize_headers(&headers);
    let twice = sanitize_headers(&once);
    assert_eq!(once, twice);
}
