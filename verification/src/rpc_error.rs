//! Error taxonomy for the upstream RPC/REST endpoint.
//!
//! Every upstream failure is classified into exactly one [`RpcError`]
//! variant. Retry and circuit-breaker decisions are pure functions of the
//! variant: transport faults (network, timeout) and 5xx server faults are
//! retryable; throttling carries an optional server-suggested wait and is
//! retried only through that hint path; client faults (4xx), decode faults,
//! protocol faults and breaker rejections are not retried.

use vstd::prelude::*;

use crate::strutil::{contains_chars, lower_chars, spec_contains, spec_lower};

verus! {

/// One upstream failure, classified.
///
/// Durations are carried in milliseconds.
#[derive(Debug, Clone)]
pub enum RpcError {
    /// Transport-level failure before an HTTP status was obtained.
    NetworkError(String),
    /// HTTP 429; `retry_after_ms` is the server-suggested wait, when present.
    RateLimitError { retry_after_ms: Option<u64> },
    /// Non-2xx HTTP status other than 429.
    ServerError { status: u16, message: String },
    /// A response body that could not be decoded.
    ParseError(String),
    /// The transport timed out after the given number of milliseconds.
    TimeoutError(u64),
    /// Rejected pre-flight by an open circuit breaker.
    CircuitBreakerOpen,
    /// A JSON-RPC envelope whose `error` field was set.
    JsonRpcError { code: i32, message: String },
}

impl RpcError {
    /// A failure is retryable exactly when it is a network error, a timeout,
    /// or a server error with a 5xx status. Rate limiting is deliberately
    /// excluded here: it is retried only through its retry-after hint, so
    /// that the generic backoff never double-waits on a throttled call.
    pub open spec fn spec_is_retryable(&self) -> bool {
        match self {
            RpcError::NetworkError(_) => true,
            RpcError::TimeoutError(_) => true,
            RpcError::ServerError { status, .. } => 500 <= *status <= 599,
            _ => false,
        }
    }

    #[verifier::when_used_as_spec(spec_is_retryable)]
    pub fn is_retryable(&self) -> (r: bool)
        ensures
            r == self.spec_is_retryable(),
    {
        match self {
            RpcError::NetworkError(_) => true,
            RpcError::TimeoutError(_) => true,
            RpcError::ServerError { status, .. } => 500 <= *status && *status <= 599,
            _ => false,
        }
    }

    /// Transport-or-throttle classification: the failures that say nothing
    /// about the request itself, only about the path to the upstream.
    pub open spec fn spec_is_transient(&self) -> bool {
        match self {
            RpcError::NetworkError(_) => true,
            RpcError::TimeoutError(_) => true,
            RpcError::RateLimitError { .. } => true,
            _ => false,
        }
    }

    #[verifier::when_used_as_spec(spec_is_transient)]
    pub fn is_transient(&self) -> (r: bool)
        ensures
            r == self.spec_is_transient(),
    {
        match self {
            RpcError::NetworkError(_) => true,
            RpcError::TimeoutError(_) => true,
            RpcError::RateLimitError { .. } => true,
            _ => false,
        }
    }

    /// The server-suggested wait in milliseconds, present only on a rate
    /// limit failure that carried one.
    pub open spec fn spec_retry_after(&self) -> Option<u64> {
        match self {
            RpcError::RateLimitError { retry_after_ms } => *retry_after_ms,
            _ => None,
        }
    }

    #[verifier::when_used_as_spec(spec_retry_after)]
    pub fn retry_after(&self) -> (r: Option<u64>)
        ensures
            r == self.spec_retry_after(),
    {
        match self {
            RpcError::RateLimitError { retry_after_ms } => *retry_after_ms,
            _ => None,
        }
    }

    /// The stable short label of each variant, one of a fixed closed set, so
    /// that downstream metric counters stay low-cardinality.
    pub open spec fn spec_label(&self) -> Seq<char> {
        match self {
            RpcError::NetworkError(_) => "network_error"@,
            RpcError::RateLimitError { .. } => "rate_limit_error"@,
            RpcError::ServerError { .. } => "server_error"@,
            RpcError::ParseError(_) => "parse_error"@,
            RpcError::TimeoutError(_) => "timeout_error"@,
            RpcError::CircuitBreakerOpen => "circuit_breaker_open"@,
            RpcError::JsonRpcError { .. } => "json_rpc_error"@,
        }
    }

    /// The fallback heuristic classification of `categorize`: which variant
    /// is owed for a raw error text, judged by case-insensitive substring
    /// sniffing, with each guard tried in the order written here.
    pub open spec fn spec_categorized(s: Seq<char>, r: RpcError) -> bool {
        let l = spec_lower(s);
        if spec_contains(l, "timeout"@) || spec_contains(l, "timed out"@) {
            r == RpcError::TimeoutError(0)
        } else if spec_contains(l, "rate limit"@) || spec_contains(l, "429"@) {
            r == (RpcError::RateLimitError { retry_after_ms: None })
        } else if spec_contains(l, "parse"@) || spec_contains(l, "deserialize"@) {
            r matches RpcError::ParseError(m) && m@ == s
        } else if spec_contains(l, "network"@) || spec_contains(l, "connection"@)
            || spec_contains(l, "dns"@) {
            r matches RpcError::NetworkError(m) && m@ == s
        } else {
            r matches RpcError::ServerError { status, message } && status == 500 && message@ == s
        }
    }

    /// Fallback classification of a raw error text by substring sniffing.
    ///
    /// This is a heuristic for failures that arrive as bare strings; explicit
    /// construction sites are always preferred. A text that names a timeout
    /// carries no duration, so the timeout variant is tagged with zero
    /// milliseconds.
    pub fn categorize(err: &str) -> (r: RpcError)
        ensures
            Self::spec_categorized(err@, r),
    {
        let lowered = lower_chars(err);
        if contains_chars(&lowered, "timeout") || contains_chars(&lowered, "timed out") {
            RpcError::TimeoutError(0)
        } else if contains_chars(&lowered, "rate limit") || contains_chars(&lowered, "429") {
            RpcError::RateLimitError { retry_after_ms: None }
        } else if contains_chars(&lowered, "parse") || contains_chars(&lowered, "deserialize") {
            RpcError::ParseError(err.to_owned())
        } else if contains_chars(&lowered, "network") || contains_chars(&lowered, "connection")
            || contains_chars(&lowered, "dns") {
            RpcError::NetworkError(err.to_owned())
        } else {
            RpcError::ServerError { status: 500, message: err.to_owned() }
        }
    }

    /// Stable short string used for metrics and logging keys.
    pub fn error_type_label(&self) -> (r: &'static str)
        ensures
            r@ == self.spec_label(),
    {
        match self {
            RpcError::NetworkError(_) => "network_error",
            RpcError::RateLimitError { .. } => "rate_limit_error",
            RpcError::ServerError { .. } => "server_error",
            RpcError::ParseError(_) => "parse_error",
            RpcError::TimeoutError(_) => "timeout_error",
            RpcError::CircuitBreakerOpen => "circuit_breaker_open",
            RpcError::JsonRpcError { .. } => "json_rpc_error",
        }
    }
}

} // verus!
