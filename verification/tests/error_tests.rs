use stellar_insights::rpc_error::RpcError;

#[test]
fn test_is_retryable_by_variant() {
    assert!(RpcError::NetworkError("reset".to_string()).is_retryable());
    assert!(RpcError::TimeoutError(30_000).is_retryable());
    assert!(RpcError::ServerError {
        status: 500,
        message: "boom".to_string()
    }
    .is_retryable());
    assert!(RpcError::ServerError {
        status: 599,
        message: "boom".to_string()
    }
    .is_retryable());
    assert!(!RpcError::ServerError {
        status: 404,
        message: "missing".to_string()
    }
    .is_retryable());
    assert!(!RpcError::RateLimitError {
        retry_after_ms: Some(100)
    }
    .is_retryable());
    assert!(!RpcError::ParseError("bad".to_string()).is_retryable());
    assert!(!RpcError::CircuitBreakerOpen.is_retryable());
    assert!(!RpcError::JsonRpcError {
        code: -32600,
        message: "invalid".to_string()
    }
    .is_retryable());
}

#[test]
fn test_is_transient_by_variant() {
    assert!(RpcError::NetworkError("reset".to_string()).is_transient());
    assert!(RpcError::TimeoutError(1).is_transient());
    assert!(RpcError::RateLimitError {
        retry_after_ms: None
    }
    .is_transient());
    assert!(!RpcError::ParseError("bad".to_string()).is_transient());
    assert!(!RpcError::ServerError {
        status: 500,
        message: "boom".to_string()
    }
    .is_transient());
    assert!(!RpcError::CircuitBreakerOpen.is_transient());
}

#[test]
fn test_retry_after_hint() {
    assert_eq!(
        RpcError::RateLimitError {
            retry_after_ms: Some(250)
        }
        .retry_after(),
        Some(250)
    );
    assert_eq!(
        RpcError::RateLimitError {
            retry_after_ms: None
        }
        .retry_after(),
        None
    );
    assert_eq!(RpcError::TimeoutError(1).retry_after(), None);
}

#[test]
fn test_error_type_label() {
    assert_eq!(
        RpcError::NetworkError("x".to_string()).error_type_label(),
        "network_error"
    );
    assert_eq!(
        RpcError::RateLimitError {
            retry_after_ms: None
        }
        .error_type_label(),
        "rate_limit_error"
    );
    assert_eq!(
        RpcError::ServerError {
            status: 500,
            message: "x".to_string()
        }
        .error_type_label(),
        "server_error"
    );
    assert_eq!(
        RpcError::ParseError("x".to_string()).error_type_label(),
        "parse_error"
    );
    assert_eq!(RpcError::TimeoutError(1).error_type_label(), "timeout_error");
    assert_eq!(
        RpcError::CircuitBreakerOpen.error_type_label(),
        "circuit_breaker_open"
    );
    assert_eq!(
        RpcError::JsonRpcError {
            code: 1,
            message: "x".to_string()
        }
        .error_type_label(),
        "json_rpc_error"
    );
}

#[test]
fn test_categorize_timeout() {
    assert!(matches!(
        RpcError::categorize("Request Timed Out after 30s"),
        RpcError::TimeoutError(0)
    ));
    assert!(matches!(
        RpcError::categorize("connect timeout"),
        RpcError::TimeoutError(0)
    ));
}

#[test]
fn test_categorize_rate_limit() {
    assert!(matches!(
        RpcError::categorize("HTTP 429 Too Many Requests"),
        RpcError::RateLimitError {
            retry_after_ms: None
        }
    ));
    assert!(matches!(
        RpcError::categorize("Rate Limit exceeded"),
        RpcError::RateLimitError {
            retry_after_ms: None
        }
    ));
}

#[test]
fn test_categorize_parse() {
    match RpcError::categorize("failed to deserialize body") {
        RpcError::ParseError(m) => assert_eq!(m, "failed to deserialize body"),
        other => panic!("unexpected: {:?}", other),
    }
}

#[test]
fn test_categorize_network() {
    match RpcError::categorize("DNS lookup failed") {
        RpcError::NetworkError(m) => assert_eq!(m, "DNS lookup failed"),
        other => panic!("unexpected: {:?}", other),
    }
    assert!(matches!(
        RpcError::categorize("Connection refused"),
        RpcError::NetworkError(_)
    ));
}

#[test]
fn test_categorize_fallback_is_server_error() {
    match RpcError::categorize("something odd happened") {
        RpcError::ServerError { status, message } => {
            assert_eq!(status, 500);
            assert_eq!(message, "something odd happened");
        }
        other => panic!("unexpected: {:?}", other),
    }
}
