use stellar_insights::circuit_breaker::{CircuitBreaker, CircuitBreakerConfig};
use stellar_insights::rpc_error::RpcError;

fn config(failure_threshold: u32, success_threshold: u32, timeout_ms: u64) -> CircuitBreakerConfig {
    CircuitBreakerConfig {
        failure_threshold,
        success_threshold,
        timeout_duration_ms: timeout_ms,
        half_open_max_calls: 1,
    }
}

#[test]
fn test_circuit_breaker_opens_after_threshold() {
    let cb_config = config(2, 1, 1_000);
    let mut cb = CircuitBreaker::new(cb_config, "test".to_string());

    // First failure
    assert!(cb.begin_call(0));
    cb.on_error(&RpcError::TimeoutError(1_000), 0);
    assert_eq!(cb.state_value(), 0); // still closed

    // Second failure -> open
    assert!(cb.begin_call(0));
    cb.on_error(&RpcError::TimeoutError(1_000), 0);
    assert_eq!(cb.state_value(), 1); // open

    // Next call fails fast: the operation is never invoked
    assert!(!cb.begin_call(0));
    assert_eq!(cb.state_value(), 1);
}

#[test]
fn test_circuit_breaker_success_resets() {
    let cb_config = config(3, 1, 30_000);
    let mut cb = CircuitBreaker::new(cb_config, "test".to_string());

    assert!(cb.begin_call(0));
    cb.on_success();
    assert_eq!(cb.state_value(), 0);
}

#[test]
fn test_breaker_half_open_probe_after_timeout() {
    let mut cb = CircuitBreaker::new(config(1, 2, 1_000), "test".to_string());

    assert!(cb.begin_call(0));
    cb.on_error(&RpcError::NetworkError("connection reset".to_string()), 0);
    assert_eq!(cb.state_value(), 1); // open

    // Before the cooldown has elapsed, calls are rejected.
    assert!(!cb.begin_call(999));
    assert_eq!(cb.state_value(), 1);

    // Exactly the next call after the cooldown is let through half-open.
    assert!(cb.begin_call(1_000));
    assert_eq!(cb.state_value(), 2);

    // Two consecutive successes close the breaker.
    cb.on_success();
    assert_eq!(cb.state_value(), 2);
    assert!(cb.begin_call(1_001));
    cb.on_success();
    assert_eq!(cb.state_value(), 0);
}

#[test]
fn test_breaker_half_open_failure_reopens() {
    let mut cb = CircuitBreaker::new(config(1, 2, 1_000), "test".to_string());

    assert!(cb.begin_call(0));
    cb.on_error(&RpcError::TimeoutError(30_000), 0);
    assert_eq!(cb.state_value(), 1);

    assert!(cb.begin_call(2_000));
    assert_eq!(cb.state_value(), 2);
    cb.on_error(&RpcError::TimeoutError(30_000), 2_000);
    assert_eq!(cb.state_value(), 1);

    // The reopened circuit rejects again until its own cooldown passes.
    assert!(!cb.begin_call(2_500));
}

#[test]
fn test_breaker_ignores_non_retryable_failures() {
    let mut cb = CircuitBreaker::new(config(1, 1, 1_000), "test".to_string());

    assert!(cb.begin_call(0));
    cb.on_error(&RpcError::ParseError("bad body".to_string()), 0);
    assert_eq!(cb.state_value(), 0); // a non-retryable failure does not count

    assert!(cb.begin_call(0));
    cb.on_error(
        &RpcError::ServerError {
            status: 404,
            message: "not found".to_string(),
        },
        0,
    );
    assert_eq!(cb.state_value(), 0); // 4xx does not count either

    assert!(cb.begin_call(0));
    cb.on_error(
        &RpcError::ServerError {
            status: 503,
            message: "unavailable".to_string(),
        },
        0,
    );
    assert_eq!(cb.state_value(), 1); // 5xx counts
}

#[test]
fn test_breaker_success_interrupts_failure_streak() {
    let mut cb = CircuitBreaker::new(config(3, 1, 1_000), "test".to_string());
    for _ in 0..2 {
        assert!(cb.begin_call(0));
        cb.on_error(&RpcError::TimeoutError(1), 0);
    }
    assert_eq!(cb.state_value(), 0);
    // A success resets the consecutive-failure count entirely.
    assert!(cb.begin_call(0));
    cb.on_success();
    for _ in 0..2 {
        assert!(cb.begin_call(0));
        cb.on_error(&RpcError::TimeoutError(1), 0);
    }
    assert_eq!(cb.state_value(), 0);
    assert!(cb.begin_call(0));
    cb.on_error(&RpcError::TimeoutError(1), 0);
    assert_eq!(cb.state_value(), 1);
}

#[test]
fn test_breaker_endpoint_name() {
    let cb = CircuitBreaker::new(CircuitBreakerConfig::default(), "stellar".to_string());
    assert_eq!(cb.endpoint_name(), "stellar");
}
