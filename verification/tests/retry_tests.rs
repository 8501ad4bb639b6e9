use stellar_insights::circuit_breaker::{CircuitBreaker, CircuitBreakerConfig};
use stellar_insights::retry::{backoff_delay, retry_with_backoff, with_retry, RetryConfig};
use stellar_insights::rpc_error::RpcError;

fn cfg(max_attempts: u32, base_delay_ms: u64, max_delay_ms: u64) -> RetryConfig {
    RetryConfig {
        max_attempts,
        base_delay_ms,
        max_delay_ms,
    }
}

#[test]
fn test_retry_succeeds_on_first_try() {
    let outcomes: Vec<Result<i32, RpcError>> = vec![Ok(1), Ok(1), Ok(1)];
    let (result, invocations, delays) = retry_with_backoff(&cfg(3, 1, 1_000), outcomes);
    assert_eq!(result.unwrap(), 1);
    assert_eq!(invocations, 1);
    assert!(delays.is_empty());
}

#[test]
fn test_no_retry_on_non_retryable_error() {
    let outcomes: Vec<Result<i32, RpcError>> = vec![
        Err(RpcError::ParseError("bad".to_string())),
        Err(RpcError::ParseError("bad".to_string())),
        Err(RpcError::ParseError("bad".to_string())),
    ];
    let (result, invocations, _) = retry_with_backoff(&cfg(3, 1, 1_000), outcomes);
    assert!(result.is_err());
    assert!(!result.unwrap_err().is_retryable());
    assert_eq!(invocations, 1);
}

#[test]
fn test_retry_then_succeed() {
    let outcomes: Vec<Result<i32, RpcError>> = vec![
        Err(RpcError::TimeoutError(1_000)),
        Err(RpcError::TimeoutError(1_000)),
        Ok(100),
        Ok(100),
        Ok(100),
    ];
    let (result, invocations, delays) = retry_with_backoff(&cfg(5, 1, 1_000), outcomes);
    assert_eq!(result.unwrap(), 100);
    assert_eq!(invocations, 3);
    assert_eq!(delays, vec![1, 2]);
}

#[test]
fn test_retry_budget_exhausted() {
    let outcomes: Vec<Result<i32, RpcError>> = vec![
        Err(RpcError::TimeoutError(1_000)),
        Err(RpcError::TimeoutError(1_000)),
        Err(RpcError::TimeoutError(1_000)),
    ];
    let (result, invocations, delays) = retry_with_backoff(&cfg(3, 100, 5_000), outcomes);
    assert!(result.is_err());
    assert_eq!(invocations, 3);
    assert_eq!(delays, vec![100, 200]);
}

#[test]
fn test_retry_uses_rate_limit_hint_verbatim() {
    let outcomes: Vec<Result<i32, RpcError>> = vec![
        Err(RpcError::RateLimitError {
            retry_after_ms: Some(7_777),
        }),
        Ok(5),
        Ok(5),
    ];
    let (result, invocations, delays) = retry_with_backoff(&cfg(3, 100, 5_000), outcomes);
    assert_eq!(result.unwrap(), 5);
    assert_eq!(invocations, 2);
    // The server's hint is used verbatim, even above the backoff clamp.
    assert_eq!(delays, vec![7_777]);
}

#[test]
fn test_backoff_delays_nondecreasing_and_capped() {
    let c = cfg(10, 100, 1_000);
    let mut prev = 0u64;
    for attempt in 1..10u32 {
        let d = backoff_delay(&c, attempt);
        assert!(d >= prev);
        assert!(d <= c.max_delay_ms);
        prev = d;
    }
    assert_eq!(backoff_delay(&c, 1), 100);
    assert_eq!(backoff_delay(&c, 2), 200);
    assert_eq!(backoff_delay(&c, 3), 400);
    assert_eq!(backoff_delay(&c, 4), 800);
    assert_eq!(backoff_delay(&c, 5), 1_000);
    assert_eq!(backoff_delay(&c, 9), 1_000);
}

#[test]
fn test_with_retry_open_breaker_never_invokes() {
    let mut breaker = CircuitBreaker::new(
        CircuitBreakerConfig {
            failure_threshold: 1,
            success_threshold: 1,
            timeout_duration_ms: 30_000,
            half_open_max_calls: 1,
        },
        "test".to_string(),
    );
    // Open the breaker.
    assert!(breaker.begin_call(0));
    breaker.on_error(&RpcError::TimeoutError(1), 0);
    assert_eq!(breaker.state_value(), 1);

    let outcomes: Vec<Result<i32, RpcError>> = vec![Ok(1), Ok(1), Ok(1)];
    let (result, invocations, delays) = with_retry(&mut breaker, &cfg(3, 1, 100), 5, outcomes);
    assert!(matches!(result, Err(RpcError::CircuitBreakerOpen)));
    assert_eq!(invocations, 0); // the operation was never invoked
    assert!(delays.is_empty());
    assert_eq!(breaker.state_value(), 1);
}

#[test]
fn test_with_retry_breaker_opens_mid_sequence() {
    let mut breaker = CircuitBreaker::new(
        CircuitBreakerConfig {
            failure_threshold: 2,
            success_threshold: 1,
            timeout_duration_ms: 30_000,
            half_open_max_calls: 1,
        },
        "test".to_string(),
    );
    let outcomes: Vec<Result<i32, RpcError>> = vec![
        Err(RpcError::TimeoutError(1)),
        Err(RpcError::TimeoutError(1)),
        Ok(9),
        Ok(9),
        Ok(9),
    ];
    // Two retryable failures open the breaker; the third attempt is then
    // rejected pre-flight, which is non-retryable and ends the loop.
    let (result, invocations, _) = with_retry(&mut breaker, &cfg(5, 1, 100), 0, outcomes);
    assert!(matches!(result, Err(RpcError::CircuitBreakerOpen)));
    assert_eq!(invocations, 2);
    assert_eq!(breaker.state_value(), 1);
}

#[test]
fn test_with_retry_success_path() {
    let mut breaker = CircuitBreaker::new(CircuitBreakerConfig::default(), "test".to_string());
    let outcomes: Vec<Result<i32, RpcError>> =
        vec![Err(RpcError::TimeoutError(1)), Ok(42), Ok(42)];
    let (result, invocations, _) = with_retry(&mut breaker, &cfg(3, 1, 100), 0, outcomes);
    assert_eq!(result.unwrap(), 42);
    assert_eq!(invocations, 2);
    assert_eq!(breaker.state_value(), 0);
}

#[test]
fn test_retry_config_default() {
    let c = RetryConfig::default();
    assert_eq!(c.max_attempts, 3);
    assert_eq!(c.base_delay_ms, 100);
    assert_eq!(c.max_delay_ms, 5_000);
}
