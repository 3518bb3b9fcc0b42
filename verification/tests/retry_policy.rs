use linear_cli::error::CliError;
use linear_cli::json::JsonValue;
use linear_cli::retry::{
    default_retry_config, retry_decision, set_default_retry, with_retry, DefaultRetry,
    IsRetryable, RetryAction, RetryConfig,
};
use linear_cli::transport::http_error;

fn base_delay(config: &RetryConfig, attempt: u32) -> u64 {
    let mut raw: u64 = config.initial_delay_ms;
    for _ in 0..attempt {
        raw = raw.saturating_mul(config.exponential_base);
    }
    raw.min(config.max_delay_ms)
}

#[test]
fn test_backoff_jitter_bounds() {
    let config = RetryConfig::default();
    for attempt in 0..8 {
        let base = base_delay(&config, attempt);
        let delay = config.delay_for_attempt(attempt, None);
        assert!(delay >= base - base / 4, "attempt {attempt}: {delay} < {base} - quarter");
        assert!(delay <= base + base / 4, "attempt {attempt}: {delay} > {base} + quarter");
        // Never more than a quarter above the ceiling.
        assert!(4 * delay <= 5 * config.max_delay_ms);
    }
}

#[test]
fn test_backoff_monotone_while_unclamped() {
    // With the doubling ladder 1000, 2000, 4000, ... any draw for the
    // next attempt clears any draw for the previous one by a factor of
    // at least 1.2, and the base ladder itself never shrinks.
    let config = RetryConfig::default();
    for attempt in 0..4u32 {
        let next = config.delay_for_attempt(attempt + 1, None);
        let prev = config.delay_for_attempt(attempt, None);
        assert!(5 * next >= 6 * prev, "attempt {attempt}: {next} vs {prev}");
        assert!(base_delay(&config, attempt + 1) >= base_delay(&config, attempt));
    }
}

#[test]
fn test_server_hint_precedence() {
    let config = RetryConfig::default();
    // A server hint is returned verbatim (in milliseconds), whatever the
    // attempt index says.
    for attempt in [0, 1, 5, 99] {
        assert_eq!(config.delay_for_attempt(attempt, Some(42)), 42_000);
        assert_eq!(config.delay_for_attempt(attempt, Some(1)), 1_000);
    }
}

#[test]
fn test_retry_decision_rules() {
    let config = RetryConfig::new(2);
    let transient = http_error(503, None, None, "resource");
    let fatal = http_error(401, None, None, "resource");

    match retry_decision(&config, 0, &transient) {
        RetryAction::RetryAfterMs(_) => {},
        RetryAction::GiveUp => panic!("retryable failure under budget must retry"),
    }
    // The budget is spent.
    assert_eq!(retry_decision(&config, 2, &transient), RetryAction::GiveUp);
    // Fatal failures never retry.
    assert_eq!(retry_decision(&config, 0, &fatal), RetryAction::GiveUp);
    // A rate-limit hint is used verbatim.
    let limited = http_error(429, Some(7), None, "resource");
    assert_eq!(retry_decision(&config, 1, &limited), RetryAction::RetryAfterMs(7_000));
}

#[test]
fn test_retry_exhaustion() {
    // With max_retries = 2 and a transport that always answers 503,
    // exactly 3 attempts happen and the last failure comes back as-is.
    let config = RetryConfig::new(2);
    let outcomes: Vec<Result<JsonValue, CliError>> = (0..3)
        .map(|_| Err(http_error(503, None, None, "resource")))
        .collect();
    let (result, attempts) = with_retry(&config, outcomes);
    assert_eq!(attempts, 3);
    let err = result.expect_err("exhaustion must surface the failure");
    assert_eq!(err, http_error(503, None, None, "resource"));
}

#[test]
fn test_retry_stops_on_success() {
    let config = RetryConfig::new(3);
    let outcomes: Vec<Result<JsonValue, CliError>> = vec![
        Err(http_error(503, None, None, "resource")),
        Ok(JsonValue::Null),
        Err(http_error(503, None, None, "resource")),
        Err(http_error(503, None, None, "resource")),
    ];
    let (result, attempts) = with_retry(&config, outcomes);
    assert_eq!(attempts, 2);
    assert_eq!(result, Ok(JsonValue::Null));
}

#[test]
fn test_retry_stops_on_fatal() {
    let config = RetryConfig::new(3);
    let outcomes: Vec<Result<JsonValue, CliError>> = vec![
        Err(http_error(404, None, None, "resource")),
        Ok(JsonValue::Null),
        Ok(JsonValue::Null),
        Ok(JsonValue::Null),
    ];
    let (result, attempts) = with_retry(&config, outcomes);
    assert_eq!(attempts, 1);
    assert_eq!(result, Err(http_error(404, None, None, "resource")));
}

#[test]
fn test_classifier_by_status() {
    // Authentication, permission and missing-resource failures are not
    // retried; rate limiting and upstream hiccups are.
    for status in [401, 403, 404] {
        let err = http_error(status, None, None, "resource");
        assert!(!err.is_retryable(), "status {status} must not be retryable");
    }
    for status in [429, 502, 503, 504] {
        let err = http_error(status, None, None, "resource");
        assert!(err.is_retryable(), "status {status} must be retryable");
    }
}

#[test]
fn test_classifier_by_message() {
    assert!(CliError::new(1, "connection timeout").is_retryable());
    assert!(CliError::new(1, "Rate Limit hit").is_retryable());
    assert!(CliError::new(1, "service temporarily unavailable").is_retryable());
    // Failures from below the structured layer arrive as plain text.
    assert!(CliError::new(1, "Failed to reach the API: Connection refused").is_retryable());
    assert!(CliError::new(1, "server answered with status 429").is_retryable());
    assert!(!CliError::new(1, "no such team").is_retryable());
}

#[test]
fn test_classifier_hint_passthrough() {
    let limited = http_error(429, Some(9), None, "resource");
    assert_eq!(IsRetryable::retry_after(&limited), Some(9));
    let plain = http_error(503, Some(9), None, "resource");
    assert_eq!(IsRetryable::retry_after(&plain), None);
}

#[test]
fn test_default_retry_is_write_once() {
    let mut defaults = DefaultRetry::new();
    assert_eq!(default_retry_config(&defaults), RetryConfig::default());
    set_default_retry(&mut defaults, 7);
    assert_eq!(default_retry_config(&defaults).max_retries, 7);
    // A later write changes nothing.
    set_default_retry(&mut defaults, 1);
    assert_eq!(default_retry_config(&defaults).max_retries, 7);

    let mut off = DefaultRetry::new();
    set_default_retry(&mut off, 0);
    assert_eq!(default_retry_config(&off).max_retries, 0);
}
