//! Application-monitoring support types: the platform selector and the
//! no-op metric instruments used when monitoring is disabled.
//!
//! The exporter wiring itself — trace pipelines, subscribers, environment
//! configuration — lives with the surrounding runtime; what is verified
//! here is the platform-name parsing and the inert instruments.

use vstd::prelude::*;

use crate::strutil::{lower_chars, spec_lower};

verus! {

/// Which monitoring platform to export to.
#[derive(Debug, Clone, Copy, PartialEq, Eq, Structural)]
pub enum ApmPlatform {
    OpenTelemetry,
    NewRelic,
    Datadog,
}

/// Which platform a name selects, judged case-insensitively; anything
/// unrecognised falls back to the open standard.
pub open spec fn spec_platform_of(s: Seq<char>) -> ApmPlatform {
    let l = spec_lower(s);
    if l == "newrelic"@ || l == "new_relic"@ {
        ApmPlatform::NewRelic
    } else if l == "datadog"@ || l == "data_dog"@ {
        ApmPlatform::Datadog
    } else {
        ApmPlatform::OpenTelemetry
    }
}

/// Compares a character vector with a string, character by character.
fn chars_eq(v: &Vec<char>, s: &str) -> (r: bool)
    ensures
        r == (v@ == s@),
{
    let n = s.unicode_len();
    if v.len() != n {
        proof {
            assert(v@ != s@);
        }
        return false;
    }
    let mut i: usize = 0;
    while i < n
        invariant
            n == s@.len(),
            n == v@.len(),
            i <= n,
            forall|j: int| 0 <= j < i ==> v@[j] == s@[j],
        decreases n - i,
    {
        if v[i] != s.get_char(i) {
            proof {
                assert(v@ != s@);
            }
            return false;
        }
        i = i + 1;
    }
    proof {
        assert(v@ =~= s@);
    }
    true
}

/// Parses a platform name, case-insensitively.
pub fn parse_platform(s: &str) -> (r: ApmPlatform)
    ensures
        r == spec_platform_of(s@),
{
    let lowered = lower_chars(s);
    if chars_eq(&lowered, "newrelic") || chars_eq(&lowered, "new_relic") {
        ApmPlatform::NewRelic
    } else if chars_eq(&lowered, "datadog") || chars_eq(&lowered, "data_dog") {
        ApmPlatform::Datadog
    } else {
        ApmPlatform::OpenTelemetry
    }
}

impl From<String> for ApmPlatform {
    fn from(s: String) -> (r: Self) {
        parse_platform(s.as_str())
    }
}

impl vstd::std_specs::convert::FromSpecImpl<String> for ApmPlatform {
    open spec fn obeys_from_spec() -> bool {
        true
    }

    open spec fn from_spec(s: String) -> Self {
        spec_platform_of(s@)
    }
}

/// An inert counter for disabled monitoring.
#[derive(Debug, Clone, Copy, PartialEq, Eq, Structural)]
pub struct NoOpCounter;

/// An inert histogram for disabled monitoring.
#[derive(Debug, Clone, Copy, PartialEq, Eq, Structural)]
pub struct NoOpHistogram;

/// An inert gauge for disabled monitoring.
#[derive(Debug, Clone, Copy, PartialEq, Eq, Structural)]
pub struct NoOpGauge;

impl NoOpCounter {
    pub fn new() -> Self {
        NoOpCounter
    }
}

impl NoOpHistogram {
    pub fn new() -> Self {
        NoOpHistogram
    }
}

impl NoOpGauge {
    pub fn new() -> Self {
        NoOpGauge
    }
}

/// The application's metric instruments; all of them inert until a real
/// exporter is attached by the surrounding runtime.
#[derive(Debug, Clone, Copy, PartialEq, Eq, Structural)]
pub struct ApmMetrics {
    pub http_requests_total: NoOpCounter,
    pub http_request_duration: NoOpHistogram,
    pub http_request_size: NoOpHistogram,
    pub http_response_size: NoOpHistogram,
    pub db_connections_active: NoOpGauge,
    pub db_query_duration: NoOpHistogram,
    pub db_queries_total: NoOpCounter,
    pub stellar_requests_total: NoOpCounter,
    pub active_users: NoOpGauge,
    pub data_ingestion_rate: NoOpCounter,
    pub error_total: NoOpCounter,
    pub panic_total: NoOpCounter,
}

impl ApmMetrics {
    /// The inert instrument set used when monitoring is disabled.
    pub fn empty() -> ApmMetrics {
        ApmMetrics {
            http_requests_total: NoOpCounter::new(),
            http_request_duration: NoOpHistogram::new(),
            http_request_size: NoOpHistogram::new(),
            http_response_size: NoOpHistogram::new(),
            db_connections_active: NoOpGauge::new(),
            db_query_duration: NoOpHistogram::new(),
            db_queries_total: NoOpCounter::new(),
            stellar_requests_total: NoOpCounter::new(),
            active_users: NoOpGauge::new(),
            data_ingestion_rate: NoOpCounter::new(),
            error_total: NoOpCounter::new(),
            panic_total: NoOpCounter::new(),
        }
    }
}

} // verus!
