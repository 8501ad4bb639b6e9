//! Resilient access layer and anomaly monitor for a ledger network's RPC
//! upstream: an error taxonomy with retry classification, a per-endpoint
//! circuit breaker, an exponential-backoff retry policy, a deterministic
//! client core, a snapshot-diffing monitor, and a best-effort alert hub.

pub mod alerts;
pub mod api_params;
pub mod apm;
pub mod circuit_breaker;
pub mod monitor;
pub mod redaction;
pub mod retry;
pub mod rpc_error;
pub mod stellar;
pub mod strutil;
pub mod vault;
