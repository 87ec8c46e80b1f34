use kestrel::retry::{
    backoff_duration, extract_status_code, is_retryable_err, is_retryable_status,
    parse_retry_after, retry_decision, RetryAction, RetryConfig, MAX_BACKOFF_MS,
};

#[test]
fn test_is_retryable_status() {
    assert!(is_retryable_status(429));
    assert!(is_retryable_status(500));
    assert!(is_retryable_status(502));
    assert!(is_retryable_status(503));
    assert!(is_retryable_status(599));
    assert!(!is_retryable_status(400));
    assert!(!is_retryable_status(401));
    assert!(!is_retryable_status(403));
    assert!(!is_retryable_status(404));
    assert!(!is_retryable_status(200));
}

#[test]
fn test_backoff_duration() {
    let initial = 1000;
    assert_eq!(backoff_duration(initial, 0), 1000);
    assert_eq!(backoff_duration(initial, 1), 2000);
    assert_eq!(backoff_duration(initial, 2), 4000);
    assert_eq!(backoff_duration(initial, 3), 8000);
    assert_eq!(backoff_duration(initial, 20), MAX_BACKOFF_MS);
}

#[test]
fn backoff_with_huge_attempt_is_capped() {
    assert_eq!(backoff_duration(0, 200), 0);
    assert_eq!(backoff_duration(250, 2), 1000);
}

#[test]
fn test_parse_retry_after_seconds() {
    assert_eq!(parse_retry_after(Some("30")), Some(30));
}

#[test]
fn test_parse_retry_after_missing() {
    assert_eq!(parse_retry_after(None), None);
}

#[test]
fn test_parse_retry_after_invalid() {
    assert_eq!(parse_retry_after(Some("not-a-number")), None);
}

#[test]
fn parse_retry_after_accepts_plus_and_rejects_overflow() {
    assert_eq!(parse_retry_after(Some("+5")), Some(5));
    assert_eq!(parse_retry_after(Some("")), None);
    assert_eq!(parse_retry_after(Some("18446744073709551616")), None);
    assert_eq!(parse_retry_after(Some("18446744073709551615")), Some(u64::MAX));
}

#[test]
fn test_extract_status_code() {
    assert_eq!(extract_status_code("API error (429): rate limited"), Some(429));
    assert_eq!(extract_status_code("Anthropic API error (503): unavailable"), Some(503));
    assert_eq!(extract_status_code("API error (401): unauthorized"), Some(401));
    assert_eq!(extract_status_code("Some other error"), None);
}

#[test]
fn test_retry_config_default() {
    let config = RetryConfig::default();
    assert_eq!(config.max_retries, 3);
    assert_eq!(config.initial_backoff_ms, 1000);
    assert!(config.retry_on_server_error);
}

#[test]
fn test_retry_config_no_retries() {
    let config = RetryConfig::no_retries();
    assert_eq!(config.max_retries, 0);
    assert!(!config.retry_on_server_error);
}

#[test]
fn test_retry_config_with_max_retries() {
    let config = RetryConfig::default().with_max_retries(5);
    assert_eq!(config.max_retries, 5);
}

#[test]
fn retryable_errors_by_message() {
    assert!(is_retryable_err("API error (503): unavailable"));
    assert!(!is_retryable_err("API error (401): unauthorized"));
    assert!(is_retryable_err("connection reset"));
    assert!(is_retryable_err("request timeout"));
    assert!(!is_retryable_err("bad request"));
}

#[test]
fn retry_decision_follows_config() {
    let config = RetryConfig::default();
    assert_eq!(retry_decision(&config, 0, "API error (429): slow down"), RetryAction::RetryAfterMs(1000));
    assert_eq!(retry_decision(&config, 2, "API error (500): boom"), RetryAction::RetryAfterMs(4000));
    assert_eq!(retry_decision(&config, 3, "API error (500): boom"), RetryAction::GiveUp);
    assert_eq!(retry_decision(&config, 0, "API error (400): bad"), RetryAction::GiveUp);
    assert_eq!(retry_decision(&RetryConfig::no_retries(), 0, "timeout"), RetryAction::GiveUp);
}

#[test]
fn server_errors_respect_the_flag() {
    let mut config = RetryConfig::default();
    config.retry_on_server_error = false;
    assert_eq!(retry_decision(&config, 0, "API error (503): unavailable"), RetryAction::GiveUp);
    assert_eq!(retry_decision(&config, 0, "API error (429): slow"), RetryAction::RetryAfterMs(1000));
    assert_eq!(retry_decision(&config, 0, "connection reset"), RetryAction::RetryAfterMs(1000));
}

#[test]
fn backoff_is_capped_for_every_attempt() {
    assert_eq!(backoff_duration(1000, 64), MAX_BACKOFF_MS);
    assert_eq!(backoff_duration(u64::MAX, 63), MAX_BACKOFF_MS);
    assert_eq!(backoff_duration(u64::MAX, 0), MAX_BACKOFF_MS);
    assert_eq!(backoff_duration(0, u32::MAX), 0);
}
