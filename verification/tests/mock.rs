use kestrel::mock::{CheckStatus, CompletionResponse, MockCheck, MockHealthCheck, MockProvider, MockProviderBuilder};

#[test]
fn simple_answers_every_call() {
    let mut p = MockProvider::simple("Hello!");
    for _ in 0..3 {
        let r = p.complete().unwrap();
        assert_eq!(r.content.as_deref(), Some("Hello!"));
        assert_eq!(r.finish_reason.as_deref(), Some("stop"));
    }
    assert_eq!(p.call_count(), 3);
}

#[test]
fn multi_then_fallback() {
    let mut p = MockProvider::multi(vec!["a", "b"]);
    assert_eq!(p.complete().unwrap().content.as_deref(), Some("a"));
    assert_eq!(p.complete().unwrap().content.as_deref(), Some("b"));
    assert_eq!(p.complete().unwrap().content.as_deref(), Some("default mock response"));
}

#[test]
fn failing_calls_then_success() {
    let mut p = MockProvider::simple("ok").with_fail_n(2).with_fail_message("boom");
    assert_eq!(p.complete().unwrap_err(), "boom");
    assert_eq!(p.complete().unwrap_err(), "boom");
    assert_eq!(p.complete().unwrap().content.as_deref(), Some("ok"));
    let mut f = MockProvider::always_fail("down");
    assert_eq!(f.complete_stream().unwrap_err(), "down");
}

#[test]
fn builder_and_checks() {
    let mut p = MockProviderBuilder::new().text("x").delay(5).build();
    assert_eq!(p.delay_ms(), Some(5));
    assert_eq!(p.complete_stream().unwrap().delta.as_deref(), Some("x"));
    let mut q = MockProvider::from_response(CompletionResponse::text("once"));
    assert_eq!(q.complete().unwrap().content.as_deref(), Some("once"));
    assert_eq!(q.complete().unwrap().content.as_deref(), Some("default mock response"));
    assert_eq!(MockCheck::unhealthy("db").report_health().status, CheckStatus::Unhealthy);
    assert_eq!(MockHealthCheck::healthy("db").report_health().status, CheckStatus::Healthy);
}
