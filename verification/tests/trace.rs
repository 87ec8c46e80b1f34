use kestrel::trace::{generate_trace_id, TraceContext};

#[test]
fn test_generate_trace_id_format() {
    let id = generate_trace_id();
    assert!(id.starts_with("tr-"));
    assert_eq!(id.len(), 15);
    assert!(id[3..].chars().all(|c| c.is_ascii_hexdigit() && !c.is_ascii_uppercase()));
}

#[test]
fn test_generate_trace_id_uniqueness() {
    let ids: std::collections::HashSet<String> = (0..1000).map(|_| generate_trace_id()).collect();
    assert_eq!(ids.len(), 1000, "all trace IDs should be unique");
}

#[test]
fn trace_context_holds_fields() {
    let ctx = TraceContext {
        trace_id: "tr-abc123def456".to_string(),
        parent_span_id: Some("span-1".to_string()),
    };
    assert_eq!(ctx.clone().trace_id, "tr-abc123def456");
    assert_eq!(ctx.parent_span_id, Some("span-1".to_string()));
}
